//! The request headers that the terminal reads.

use vstd::prelude::*;

use crate::strings;

verus! {

/// The header map of the `http` crate, with its values opaque.
#[verifier::external_type_specification]
#[verifier::external_body]
#[verifier::reject_recursive_types(T)]
pub struct ExHeaderMap<T>(axum::http::HeaderMap<T>);

/// One header value of the `http` crate.
#[verifier::external_type_specification]
#[verifier::external_body]
pub struct ExHeaderValue(axum::http::HeaderValue);

/// What a header map holds: under each header name, written in lower case,
/// the first value sent for it. The value is its text where it consists of
/// visible ASCII characters and tabs, and `None` where it does not.
pub uninterp spec fn header_fields(headers: axum::http::HeaderMap) -> Map<
    Seq<char>,
    Option<Seq<char>>,
>;

/// One header of a request.
#[derive(Debug, PartialEq, Eq)]
pub enum HeaderText {
    /// The header was not sent.
    Absent,
    /// The header was sent, with bytes that are not visible ASCII.
    Opaque,
    /// The header was sent with this text.
    Text(String),
}

impl View for HeaderText {
    type V = Option<Option<Seq<char>>>;

    open spec fn view(&self) -> Option<Option<Seq<char>>> {
        match self {
            HeaderText::Absent => None,
            HeaderText::Opaque => Some(None),
            HeaderText::Text(text) => Some(Some(text@)),
        }
    }
}

/// The readable text of a header, if it was sent and has one.
pub open spec fn readable(header: Option<Option<Seq<char>>>) -> Option<Seq<char>> {
    match header {
        Some(text) => text,
        None => None,
    }
}

/// The header `name` among `fields`; names do not distinguish case.
pub open spec fn field_of(fields: Map<Seq<char>, Option<Seq<char>>>, name: Seq<char>) -> Option<
    Option<Seq<char>>,
> {
    if fields.contains_key(strings::lower_of(name)) {
        Some(fields[strings::lower_of(name)])
    } else {
        None
    }
}

/// Calls `HeaderMap::get`, then `HeaderValue::to_str`. Claims that `get` finds
/// the first value sent under `name`, whatever the case of its letters, and
/// that `to_str` gives the text of a value exactly when all of it is visible
/// ASCII or tabs.
#[verifier::external_body]
fn header_text(headers: &axum::http::HeaderMap, name: &str) -> (header: HeaderText)
    ensures
        header@ == field_of(header_fields(*headers), name@),
{
    match headers.get(name).map(|value| value.to_str()) {
        None => HeaderText::Absent,
        Some(Err(_)) => HeaderText::Opaque,
        Some(Ok(text)) => HeaderText::Text(text.to_string()),
    }
}

impl HeaderText {
    /// The readable text of the header.
    pub fn text(&self) -> (text: Option<&str>)
        ensures
            strings::option_str(text) == readable(self@),
    {
        match self {
            HeaderText::Text(text) => Some(text.as_str()),
            _ => None,
        }
    }
}

/// The headers of a terminal handshake.
#[derive(Debug, PartialEq, Eq)]
pub struct HandshakeHeaders {
    /// `Origin`
    pub origin: HeaderText,
    /// `Host`
    pub host: HeaderText,
    /// `Sec-WebSocket-Protocol`
    pub protocols: HeaderText,
    /// `X-API-Key`
    pub api_key: HeaderText,
    /// `X-Forwarded-For`
    pub forwarded_for: HeaderText,
    /// `X-Real-IP`
    pub real_ip: HeaderText,
}

/// What the headers of a terminal handshake say.
pub ghost struct HandshakeView {
    pub origin: Option<Option<Seq<char>>>,
    pub host: Option<Seq<char>>,
    pub protocols: Option<Seq<char>>,
    pub api_key: Option<Seq<char>>,
    pub forwarded_for: Option<Seq<char>>,
    pub real_ip: Option<Seq<char>>,
}

impl View for HandshakeHeaders {
    type V = HandshakeView;

    open spec fn view(&self) -> HandshakeView {
        HandshakeView {
            origin: self.origin@,
            host: readable(self.host@),
            protocols: readable(self.protocols@),
            api_key: readable(self.api_key@),
            forwarded_for: readable(self.forwarded_for@),
            real_ip: readable(self.real_ip@),
        }
    }
}

/// The handshake headers among `fields`.
pub open spec fn handshake_of(fields: Map<Seq<char>, Option<Seq<char>>>) -> HandshakeView {
    HandshakeView {
        origin: field_of(fields, "origin"@),
        host: readable(field_of(fields, "host"@)),
        protocols: readable(field_of(fields, "sec-websocket-protocol"@)),
        api_key: readable(field_of(fields, "x-api-key"@)),
        forwarded_for: readable(field_of(fields, "x-forwarded-for"@)),
        real_ip: readable(field_of(fields, "x-real-ip"@)),
    }
}

impl HandshakeHeaders {
    /// Reads the handshake headers out of a header map.
    pub fn read(headers: &axum::http::HeaderMap) -> (handshake: HandshakeHeaders)
        ensures
            handshake@ == handshake_of(header_fields(*headers)),
    {
        HandshakeHeaders {
            origin: header_text(headers, "origin"),
            host: header_text(headers, "host"),
            protocols: header_text(headers, "sec-websocket-protocol"),
            api_key: header_text(headers, "x-api-key"),
            forwarded_for: header_text(headers, "x-forwarded-for"),
            real_ip: header_text(headers, "x-real-ip"),
        }
    }
}

// ── Laws ────────────────────────────────────────────────────────────────

/// Each handshake header is the one that was sent under its name, whole.
pub proof fn law_headers_are_read_by_name(fields: Map<Seq<char>, Option<Seq<char>>>)
    ensures
        ({
            let read = handshake_of(fields);
            let sent = |name: Seq<char>|
                if fields.contains_key(name) {
                    fields[name]
                } else {
                    None
                };
            &&& fields.contains_key("origin"@) ==> read.origin == Some(fields["origin"@])
            &&& !fields.contains_key("origin"@) ==> read.origin is None
            &&& read.host == sent("host"@)
            &&& read.protocols == sent("sec-websocket-protocol"@)
            &&& read.api_key == sent("x-api-key"@)
            &&& read.forwarded_for == sent("x-forwarded-for"@)
            &&& read.real_ip == sent("x-real-ip"@)
        }),
{
    reveal_strlit("origin");
    assert(strings::lower_of("origin"@) =~= "origin"@);
    reveal_strlit("host");
    assert(strings::lower_of("host"@) =~= "host"@);
    reveal_strlit("sec-websocket-protocol");
    assert(strings::lower_of("sec-websocket-protocol"@) =~= "sec-websocket-protocol"@);
    reveal_strlit("x-api-key");
    assert(strings::lower_of("x-api-key"@) =~= "x-api-key"@);
    reveal_strlit("x-forwarded-for");
    assert(strings::lower_of("x-forwarded-for"@) =~= "x-forwarded-for"@);
    reveal_strlit("x-real-ip");
    assert(strings::lower_of("x-real-ip"@) =~= "x-real-ip"@);
}

/// Headers say exactly what they hold.
pub proof fn law_headers_say_what_they_hold(headers: HandshakeHeaders, text: String)
    ensures
        HeaderText::Absent@ is None,
        HeaderText::Opaque@ == Some(None::<Seq<char>>),
        HeaderText::Text(text)@ == Some(Some(text@)),
        headers@.origin == headers.origin@,
        headers.host matches HeaderText::Text(host) ==> headers@.host == Some(host@),
        !(headers.host is Text) ==> headers@.host is None,
        headers.protocols matches HeaderText::Text(list) ==> headers@.protocols == Some(list@),
        !(headers.protocols is Text) ==> headers@.protocols is None,
        headers.api_key matches HeaderText::Text(key) ==> headers@.api_key == Some(key@),
        !(headers.api_key is Text) ==> headers@.api_key is None,
        headers.forwarded_for matches HeaderText::Text(list) ==> headers@.forwarded_for == Some(
            list@,
        ),
        !(headers.forwarded_for is Text) ==> headers@.forwarded_for is None,
        headers.real_ip matches HeaderText::Text(ip) ==> headers@.real_ip == Some(ip@),
        !(headers.real_ip is Text) ==> headers@.real_ip is None,
{
}

} // verus!
