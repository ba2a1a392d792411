//! HTTP requests that the service sends.

use vstd::prelude::*;

verus! {

/// A POST request to be sent.
#[derive(Debug, PartialEq, Eq)]
pub struct OutboundRequest {
    /// Where the request goes.
    pub url: String,
    /// Its headers, name and value, in order.
    pub headers: Vec<(String, String)>,
    /// Its body.
    pub body: Vec<u8>,
}

/// What an [`OutboundRequest`] holds.
pub ghost struct OutboundView {
    pub url: Seq<char>,
    pub headers: Seq<(Seq<char>, Seq<char>)>,
    pub body: Seq<u8>,
}

/// The text of headers.
pub open spec fn header_views(headers: Seq<(String, String)>) -> Seq<(Seq<char>, Seq<char>)> {
    headers.map_values(|h: (String, String)| (h.0@, h.1@))
}

impl View for OutboundRequest {
    type V = OutboundView;

    open spec fn view(&self) -> OutboundView {
        OutboundView { url: self.url@, headers: header_views(self.headers@), body: self.body@ }
    }
}

/// Adds a header at the end.
pub(crate) fn push_header(headers: &mut Vec<(String, String)>, name: &str, value: &str)
    ensures
        header_views(final(headers)@) == header_views(old(headers)@).push((name@, value@)),
{
    headers.push((name.to_owned(), value.to_owned()));
    assert(header_views(headers@) =~= header_views(old(headers)@).push((name@, value@)));
}

/// A request says exactly what it holds.
pub proof fn law_request_says_what_it_holds(request: OutboundRequest, i: int)
    ensures
        request@.url == request.url@,
        request@.body == request.body@,
        request@.headers.len() == request.headers@.len(),
        0 <= i < request.headers@.len() ==> request@.headers[i] == (
            request.headers@[i].0@,
            request.headers@[i].1@,
        ),
{
}

} // verus!
