//! The bucket that a request draws on in the per-credential rate limiter.

use vstd::prelude::*;

use crate::error::{AppError, AppErrorView};
use crate::handshake;
use crate::headers;
use crate::headers::{HandshakeHeaders, HandshakeView};
use crate::strings;

verus! {

/// A request of the `http` crate, with its body opaque.
#[verifier::external_type_specification]
#[verifier::external_body]
#[verifier::reject_recursive_types(T)]
pub struct ExRequest<T>(axum::http::Request<T>);

/// A request body of the `axum` crate.
#[verifier::external_type_specification]
#[verifier::external_body]
pub struct ExBody(axum::body::Body);

/// What the header map of a request holds, in the form of
/// [`headers::header_fields`].
pub uninterp spec fn request_fields(request: axum::extract::Request) -> Map<
    Seq<char>,
    Option<Seq<char>>,
>;

/// The raw query of a request's URI, still percent-encoded.
pub uninterp spec fn request_query(request: axum::extract::Request) -> Option<Seq<char>>;

/// Calls `Request::headers`. Claims that it gives the header map that the
/// request holds.
#[verifier::external_body]
fn headers_of(request: &axum::extract::Request) -> (map: &axum::http::HeaderMap)
    ensures
        headers::header_fields(*map) == request_fields(*request),
{
    request.headers()
}

/// Calls `Request::uri`, then `Uri::query`. Claims that they give the query
/// that the request holds.
#[verifier::external_body]
fn query_of(request: &axum::extract::Request) -> (query: Option<&str>)
    ensures
        strings::option_str(query) == request_query(*request),
{
    request.uri().query()
}

/// The value of the first of `pairs` that is `name=value` with a value.
pub open spec fn find_param(pairs: Seq<Seq<char>>, name: Seq<char>) -> Option<Seq<char>>
    decreases pairs.len(),
{
    if pairs.len() == 0 {
        None
    } else {
        match strings::split_once_of(pairs[0], "="@) {
            Some((key, value)) => if key == name && value.len() > 0 {
                Some(value)
            } else {
                find_param(pairs.skip(1), name)
            },
            None => find_param(pairs.skip(1), name),
        }
    }
}

/// The raw value of the query parameter `name`, an empty one counting as
/// absent.
pub open spec fn query_param_of(query: Seq<char>, name: Seq<char>) -> Option<Seq<char>> {
    find_param(strings::split_of(query, '&'), name)
}

/// `text` unless it is empty.
pub open spec fn non_empty(text: Option<Seq<char>>) -> Option<Seq<char>> {
    match text {
        Some(t) => if t.len() > 0 {
            Some(t)
        } else {
            None
        },
        None => None,
    }
}

/// The bucket of a request: its terminal token (subprotocol, then query
/// parameter), else its API key, else the shared `anonymous` one.
pub open spec fn bucket_of(handshake: HandshakeView, query: Seq<char>) -> Seq<char> {
    match non_empty(handshake::subprotocol_token_of(handshake.protocols)) {
        Some(token) => token,
        None => match query_param_of(query, "token"@) {
            Some(token) => token,
            None => match non_empty(handshake.api_key) {
                Some(key) => key,
                None => "anonymous"@,
            },
        },
    }
}

/// The query of a URI that may have none.
pub open spec fn query_or_empty(query: Option<Seq<char>>) -> Seq<char> {
    match query {
        Some(text) => text,
        None => ""@,
    }
}

/// Extract one raw query parameter value (`name=value`), without
/// percent-decoding. Empty values count as absent.
pub fn query_param<'a>(query: &'a str, name: &str) -> (value: Option<&'a str>)
    ensures
        strings::option_str(value) == query_param_of(query@, name@),
{
    let pieces = strings::split(query, '&');
    let ghost pairs = strings::split_of(query@, '&');
    assert(pairs.skip(0) =~= pairs);
    proof {
        reveal_strlit("=");
    }
    for i in 0..pieces.len()
        invariant
            "="@.len() > 0,
            pairs == strings::split_of(query@, '&'),
            pieces@.len() == pairs.len(),
            forall|j: int| 0 <= j < pieces@.len() ==> (#[trigger] pieces@[j])@ == pairs[j],
            find_param(pairs, name@) == find_param(pairs.skip(i as int), name@),
    {
        assert(pairs.skip(i as int)[0] == pieces@[i as int]@);
        assert(pairs.skip(i as int).skip(1) =~= pairs.skip(i + 1));
        if let Some((key, value)) = strings::split_once(pieces[i], "=") {
            if strings::same_text(key, name) && !value.is_empty() {
                return Some(value);
            }
        }
    }
    None
}

/// The bucket of a request with these headers and this raw query, mirroring
/// the credential precedence of the terminal handshake: the WebSocket token
/// (subprotocol first, then the `token` query param) wins over `X-API-Key`;
/// with no credential at all the key is "anonymous".
pub fn bucket_key(handshake: &HandshakeHeaders, query: &str) -> (key: String)
    ensures
        key@ == bucket_of(handshake@, query@),
{
    if let Some(token) = handshake::subprotocol_token(handshake.protocols.text()) {
        if !token.is_empty() {
            return token.to_owned();
        }
    }
    if let Some(token) = query_param(query, "token") {
        return token.to_owned();
    }
    if let Some(key) = handshake.api_key.text() {
        if !key.is_empty() {
            return key.to_owned();
        }
    }
    "anonymous".to_owned()
}

/// Derive the rate-limit bucket key for this request.
pub fn rate_limit_key(request: &axum::extract::Request) -> (key: String)
    ensures
        key@ == bucket_of(
            headers::handshake_of(request_fields(*request)),
            query_or_empty(request_query(*request)),
        ),
{
    let handshake = HandshakeHeaders::read(headers_of(request));
    let query = match query_of(request) {
        Some(query) => query,
        None => "",
    };
    bucket_key(&handshake, query)
}

/// What the limiter's answer means for the request: it goes on while its key
/// is within its quota.
pub open spec fn quota_verdict_of(within_quota: bool) -> Option<AppErrorView> {
    if within_quota {
        None
    } else {
        Some(AppErrorView::TooManyRequests("Rate limit exceeded. Slow down."@))
    }
}

/// Decide on a request from the limiter's answer for its key.
pub fn quota_verdict(within_quota: bool) -> (verdict: Result<(), AppError>)
    ensures
        match verdict {
            Ok(_) => quota_verdict_of(within_quota) is None,
            Err(error) => quota_verdict_of(within_quota) == Some(error@),
        },
{
    if within_quota {
        Ok(())
    } else {
        Err(AppError::TooManyRequests("Rate limit exceeded. Slow down.".to_owned()))
    }
}

// ── Laws ────────────────────────────────────────────────────────────────

proof fn lemma_found_param_is_not_empty(pairs: Seq<Seq<char>>, name: Seq<char>)
    ensures
        find_param(pairs, name) matches Some(value) ==> value.len() > 0,
    decreases pairs.len(),
{
    if pairs.len() > 0 {
        lemma_found_param_is_not_empty(pairs.skip(1), name);
    }
}

/// Whether a text has no whitespace around it.
pub open spec fn is_bare(text: Seq<char>) -> bool {
    strings::trim_of(text) == text
}

/// A request draws on the bucket of the credential that its handshake is
/// authenticated with, and on the shared `anonymous` one where it has none.
/// `query_token` is the `token` parameter as the handshake gets it,
/// percent-decoded, where the limiter reads the raw query: a parameter that
/// decides has to read the same both ways. Two more values are left out, of
/// which handshake and limiter make different use: one with whitespace around
/// it, and an empty subprotocol token beside a query parameter.
pub proof fn law_bucket_is_the_credential(
    handshake: HandshakeView,
    query: Seq<char>,
    query_token: Option<Seq<char>>,
)
    requires
        match non_empty(handshake::subprotocol_token_of(handshake.protocols)) {
            Some(token) => is_bare(token),
            None => match query_param_of(query, "token"@) {
                Some(token) => {
                    &&& is_bare(token)
                    &&& query_token == Some(token)
                    &&& handshake::subprotocol_token_of(handshake.protocols) is None
                },
                None => {
                    &&& handshake::non_blank(
                        handshake::handshake_token_of(handshake, query_token),
                    ) is None
                    &&& handshake.api_key matches Some(key) ==> is_bare(key)
                },
            },
        },
    ensures
        bucket_of(handshake, query) == (match handshake::handshake_credential_of(
            handshake,
            query_token,
        ) {
            Some(credential) => credential.secret(),
            None => "anonymous"@,
        }),
{
    lemma_found_param_is_not_empty(strings::split_of(query, '&'), "token"@);
}

/// A token offered as subprotocol is the bucket, whatever else the request
/// carries.
pub proof fn law_subprotocol_token_is_the_bucket(handshake: HandshakeView, query: Seq<char>)
    requires
        non_empty(handshake::subprotocol_token_of(handshake.protocols)) is Some,
    ensures
        Some(bucket_of(handshake, query)) == handshake::subprotocol_token_of(handshake.protocols),
{
}

/// A query parameter is the first pair `name=value` with a value, and the
/// value is all that stands behind the `=`; there is none exactly where no
/// pair is of that form.
pub proof fn law_query_param_is_the_first_with_a_value(query: Seq<char>, name: Seq<char>)
    requires
        !name.contains('='),
    ensures
        ({
            let pairs = strings::split_of(query, '&');
            match query_param_of(query, name) {
                Some(value) => {
                    &&& value.len() > 0
                    &&& exists|i: int|
                        {
                            &&& 0 <= i < pairs.len()
                            &&& #[trigger] pairs[i] == name + seq!['='] + value
                            &&& forall|j: int|
                                0 <= j < i ==> !gives_value(#[trigger] pairs[j], name)
                        }
                },
                None => forall|j: int|
                    0 <= j < pairs.len() ==> !gives_value(#[trigger] pairs[j], name),
            }
        }),
{
    lemma_find_param(strings::split_of(query, '&'), name);
}

/// Whether a pair is `name=` with something behind it.
pub open spec fn gives_value(pair: Seq<char>, name: Seq<char>) -> bool {
    (name + seq!['=']).is_prefix_of(pair) && pair.len() > name.len() + 1
}

proof fn lemma_pair(pair: Seq<char>, name: Seq<char>)
    requires
        !name.contains('='),
    ensures
        gives_value(pair, name) <==> (strings::split_once_of(pair, "="@) matches Some((key, value))
            && key == name && value.len() > 0),
        strings::split_once_of(pair, "="@) matches Some((key, value)) ==> (gives_value(pair, name)
            ==> pair == name + seq!['='] + value),
{
    reveal_strlit("=");
    assert("="@ =~= seq!['=']);
    let n = name.len() as int;
    if gives_value(pair, name) {
        assert(pair.take(n + 1) =~= name + seq!['=']);
        assert(pair.subrange(n, n + 1) =~= "="@) by {
            assert(pair[n] == pair.take(n + 1)[n]);
        }
        assert forall|j: int| 0 <= j < n implies !strings::occurs_at(pair, "="@, j) by {
            assert(pair[j] == pair.take(n + 1)[j]);
            assert(name.contains(name[j]));
            if strings::occurs_at(pair, "="@, j) {
                assert(pair.subrange(j, j + 1)[0] == pair[j]);
            }
        }
        assert(strings::first_occurrence(pair, "="@, n));
        strings::lemma_split_once_is(pair, "="@, n);
        assert(pair.take(n) =~= name);
        assert(pair =~= name + seq!['='] + pair.skip(n + 1));
    } else if let Some((key, value)) = strings::split_once_of(pair, "="@) {
        strings::law_split_once_cuts_at_the_first(pair, "="@);
        if key == name && value.len() > 0 {
            assert(pair == name + seq!['='] + value);
            assert(pair.take(n + 1) =~= name + seq!['=']);
        }
    }
}

proof fn lemma_find_param(pairs: Seq<Seq<char>>, name: Seq<char>)
    requires
        !name.contains('='),
    ensures
        match find_param(pairs, name) {
            Some(value) => {
                &&& value.len() > 0
                &&& exists|i: int|
                    {
                        &&& 0 <= i < pairs.len()
                        &&& #[trigger] pairs[i] == name + seq!['='] + value
                        &&& forall|j: int| 0 <= j < i ==> !gives_value(#[trigger] pairs[j], name)
                    }
            },
            None => forall|j: int| 0 <= j < pairs.len() ==> !gives_value(#[trigger] pairs[j], name),
        },
    decreases pairs.len(),
{
    if pairs.len() > 0 {
        lemma_pair(pairs[0], name);
        if gives_value(pairs[0], name) {
            assert(pairs[0] == name + seq!['='] + find_param(pairs, name)->0);
        } else {
            let rest = pairs.skip(1);
            lemma_find_param(rest, name);
            match find_param(rest, name) {
                Some(value) => {
                    let i = choose|i: int|
                        {
                            &&& 0 <= i < rest.len()
                            &&& #[trigger] rest[i] == name + seq!['='] + value
                            &&& forall|j: int|
                                0 <= j < i ==> !gives_value(#[trigger] rest[j], name)
                        };
                    assert(pairs[i + 1] == name + seq!['='] + value);
                    assert forall|j: int| 0 <= j < i + 1 implies !gives_value(
                        #[trigger] pairs[j],
                        name,
                    ) by {
                        if j > 0 {
                            assert(rest[j - 1] == pairs[j]);
                        }
                    }
                },
                None => {
                    assert forall|j: int| 0 <= j < pairs.len() implies !gives_value(
                        #[trigger] pairs[j],
                        name,
                    ) by {
                        if j > 0 {
                            assert(rest[j - 1] == pairs[j]);
                        }
                    }
                },
            }
        }
    }
}

/// The sources of a bucket in their order, each value whole: a subprotocol
/// token that is not empty, a query parameter, an API key that is not empty,
/// and `anonymous` where there is none of them.
pub proof fn law_bucket_precedence(handshake: HandshakeView, query: Seq<char>)
    ensures
        ({
            let offered = handshake::subprotocol_token_of(handshake.protocols);
            let asked = query_param_of(query, "token"@);
            let has_token = offered is Some && offered->0.len() > 0;
            let has_key = handshake.api_key is Some && handshake.api_key->0.len() > 0;
            let bucket = bucket_of(handshake, query);
            &&& has_token ==> bucket == offered->0
            &&& !has_token && asked is Some ==> bucket == asked->0
            &&& !has_token && asked is None && has_key ==> bucket == handshake.api_key->0
            &&& !has_token && asked is None && !has_key ==> bucket == "anonymous"@
        }),
        query_or_empty(Some(query)) == query,
        query_or_empty(None).len() == 0,
{
    reveal_strlit("");
}

} // verus!
