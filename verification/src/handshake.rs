//! What a terminal handshake says: the credential it carries, the
//! subprotocols it offers, the origin it comes from and the client behind it.

use vstd::prelude::*;

use crate::headers::{HandshakeHeaders, HandshakeView, HeaderText};
use crate::strings;

verus! {

/// Subprotocol prefix browsers use to carry the auth token
/// (`Sec-WebSocket-Protocol: cube-terminal.<token>`).
pub const TOKEN_SUBPROTOCOL_PREFIX: &'static str = "cube-terminal.";

/// Base subprotocol the server selects in the upgrade response when offered.
pub const TERMINAL_SUBPROTOCOL: &'static str = "cube-terminal";

// ── Credential ──────────────────────────────────────────────────────────

/// Auth credential offered on the WebSocket handshake.
#[derive(Debug, PartialEq, Eq)]
pub enum TerminalCredential {
    /// `cube-terminal.<token>` subprotocol or `token` query param.
    Bearer(String),
    /// `X-API-Key: <key>` header.
    ApiKey(String),
}

/// What a [`TerminalCredential`] holds.
pub ghost enum CredentialView {
    Bearer(Seq<char>),
    ApiKey(Seq<char>),
}

impl View for TerminalCredential {
    type V = CredentialView;

    open spec fn view(&self) -> CredentialView {
        match self {
            TerminalCredential::Bearer(token) => CredentialView::Bearer(token@),
            TerminalCredential::ApiKey(key) => CredentialView::ApiKey(key@),
        }
    }
}

impl CredentialView {
    /// The raw credential, whichever transport it arrived on.
    pub open spec fn secret(self) -> Seq<char> {
        match self {
            CredentialView::Bearer(token) => token,
            CredentialView::ApiKey(key) => key,
        }
    }
}

/// What an optional credential holds.
pub open spec fn credential_option(credential: Option<TerminalCredential>) -> Option<
    CredentialView,
> {
    match credential {
        Some(c) => Some(c@),
        None => None,
    }
}

impl TerminalCredential {
    /// The raw credential string, whichever transport it arrived on.
    pub fn secret(&self) -> (secret: &str)
        ensures
            secret@ == self@.secret(),
    {
        match self {
            TerminalCredential::Bearer(token) => token.as_str(),
            TerminalCredential::ApiKey(key) => key.as_str(),
        }
    }
}

/// The entries of a comma-separated header, each without the whitespace
/// around it.
pub open spec fn entries_of(list: Seq<char>) -> Seq<Seq<char>> {
    strings::split_of(list, ',').map_values(|entry: Seq<char>| strings::trim_of(entry))
}

/// What stands behind `prefix` in the first of `entries` that starts with it.
pub open spec fn find_prefixed(entries: Seq<Seq<char>>, prefix: Seq<char>) -> Option<Seq<char>>
    decreases entries.len(),
{
    if entries.len() == 0 {
        None
    } else if prefix.is_prefix_of(entries[0]) {
        Some(entries[0].skip(prefix.len() as int))
    } else {
        find_prefixed(entries.skip(1), prefix)
    }
}

/// The token of the first `cube-terminal.<token>` entry offered, which may be
/// empty.
pub open spec fn subprotocol_token_of(protocols: Option<Seq<char>>) -> Option<Seq<char>> {
    match protocols {
        Some(list) => find_prefixed(entries_of(list), TOKEN_SUBPROTOCOL_PREFIX@),
        None => None,
    }
}

/// The token of a handshake: the subprotocol's, else the query parameter's.
pub open spec fn handshake_token_of(
    handshake: HandshakeView,
    query_token: Option<Seq<char>>,
) -> Option<Seq<char>> {
    match subprotocol_token_of(handshake.protocols) {
        Some(token) => Some(token),
        None => query_token,
    }
}

/// `text` without the whitespace around it, unless nothing is left then.
pub open spec fn non_blank(text: Option<Seq<char>>) -> Option<Seq<char>> {
    match text {
        Some(t) => if strings::trim_of(t).len() > 0 {
            Some(strings::trim_of(t))
        } else {
            None
        },
        None => None,
    }
}

/// The credential of a handshake: its token unless blank, else its API key
/// unless blank.
pub open spec fn handshake_credential_of(
    handshake: HandshakeView,
    query_token: Option<Seq<char>>,
) -> Option<CredentialView> {
    match non_blank(handshake_token_of(handshake, query_token)) {
        Some(token) => Some(CredentialView::Bearer(token)),
        None => match non_blank(handshake.api_key) {
            Some(key) => Some(CredentialView::ApiKey(key)),
            None => None,
        },
    }
}

/// The token of the first `cube-terminal.<token>` entry offered.
pub fn subprotocol_token<'a>(protocols: Option<&'a str>) -> (token: Option<&'a str>)
    ensures
        strings::option_str(token) == subprotocol_token_of(strings::option_str(protocols)),
{
    let list = match protocols {
        Some(list) => list,
        None => return None,
    };
    let pieces = strings::split(list, ',');
    let ghost entries = entries_of(list@);
    assert(entries.skip(0) =~= entries);
    for i in 0..pieces.len()
        invariant
            pieces@.len() == strings::split_of(list@, ',').len(),
            forall|j: int|
                0 <= j < pieces@.len() ==> (#[trigger] pieces@[j])@ == strings::split_of(
                    list@,
                    ',',
                )[j],
            entries == entries_of(list@),
            strings::option_str(protocols) == Some(list@),
            find_prefixed(entries, TOKEN_SUBPROTOCOL_PREFIX@) == find_prefixed(
                entries.skip(i as int),
                TOKEN_SUBPROTOCOL_PREFIX@,
            ),
    {
        let entry = strings::trim(pieces[i]);
        assert(entries.skip(i as int)[0] == entry@);
        assert(entries.skip(i as int).skip(1) =~= entries.skip(i + 1));
        let rest = strings::strip_prefix(entry, TOKEN_SUBPROTOCOL_PREFIX);
        if rest.is_some() {
            return rest;
        }
    }
    None
}

/// Pull the auth token out of the WebSocket handshake: the
/// `cube-terminal.<token>` subprotocol (browser path) wins; the `token`
/// query param is the fallback for non-browser clients.
pub fn handshake_token(handshake: &HandshakeHeaders, query_token: Option<String>) -> (token: Option<
    String,
>)
    ensures
        strings::option_text(token) == handshake_token_of(
            handshake@,
            strings::option_text(query_token),
        ),
{
    match subprotocol_token(handshake.protocols.text()) {
        Some(token) => Some(token.to_owned()),
        None => query_token,
    }
}

/// `text` without the whitespace around it, unless nothing is left then.
fn trimmed_unless_blank(text: Option<&str>) -> (trimmed: Option<&str>)
    ensures
        strings::option_str(trimmed) == non_blank(strings::option_str(text)),
{
    match text {
        Some(t) => {
            let trimmed = strings::trim(t);
            if trimmed.is_empty() {
                None
            } else {
                Some(trimmed)
            }
        },
        None => None,
    }
}

/// Pull the auth credential out of the WebSocket handshake. Bearer
/// (subprotocol, then query param) takes priority over `X-API-Key`; a Bearer
/// value that trims to empty falls through to the header.
pub fn handshake_credential(
    handshake: &HandshakeHeaders,
    query_token: Option<String>,
) -> (credential: Option<TerminalCredential>)
    ensures
        credential_option(credential) == handshake_credential_of(
            handshake@,
            strings::option_text(query_token),
        ),
{
    let token = handshake_token(handshake, query_token);
    let bearer = match &token {
        Some(t) => trimmed_unless_blank(Some(t.as_str())),
        None => None,
    };
    match bearer {
        Some(token) => Some(TerminalCredential::Bearer(token.to_owned())),
        None => match trimmed_unless_blank(handshake.api_key.text()) {
            Some(key) => Some(TerminalCredential::ApiKey(key.to_owned())),
            None => None,
        },
    }
}

// ── Subprotocols ────────────────────────────────────────────────────────

/// Whether the base subprotocol is among those offered.
pub open spec fn offers_base(protocols: Option<Seq<char>>) -> bool {
    match protocols {
        Some(list) => entries_of(list).contains(TERMINAL_SUBPROTOCOL@),
        None => false,
    }
}

/// Whether a token-bearing subprotocol is among those offered.
pub open spec fn offers_token(protocols: Option<Seq<char>>) -> bool {
    subprotocol_token_of(protocols) is Some
}

/// Whether the client offered the base `cube-terminal` subprotocol.
pub fn offered_base_subprotocol(handshake: &HandshakeHeaders) -> (offered: bool)
    ensures
        offered == offers_base(handshake@.protocols),
{
    let list = match handshake.protocols.text() {
        Some(list) => list,
        None => return false,
    };
    let pieces = strings::split(list, ',');
    let ghost entries = entries_of(list@);
    for i in 0..pieces.len()
        invariant
            pieces@.len() == strings::split_of(list@, ',').len(),
            forall|j: int|
                0 <= j < pieces@.len() ==> (#[trigger] pieces@[j])@ == strings::split_of(
                    list@,
                    ',',
                )[j],
            entries == entries_of(list@),
            handshake@.protocols == Some(list@),
            forall|j: int| 0 <= j < i ==> entries[j] != TERMINAL_SUBPROTOCOL@,
    {
        let entry = strings::trim(pieces[i]);
        assert(entries[i as int] == entry@);
        if strings::same_text(entry, TERMINAL_SUBPROTOCOL) {
            return true;
        }
    }
    false
}

/// Whether the client offered a token-bearing `cube-terminal.<token>`
/// subprotocol.
pub fn offered_token_subprotocol(handshake: &HandshakeHeaders) -> (offered: bool)
    ensures
        offered == offers_token(handshake@.protocols),
{
    subprotocol_token(handshake.protocols.text()).is_some()
}

// ── Origin ──────────────────────────────────────────────────────────────

/// `scheme://authority/path` → `(scheme, authority)`, none where there is no
/// `://` or no authority.
pub open spec fn origin_parts_of(origin: Seq<char>) -> Option<(Seq<char>, Seq<char>)> {
    match strings::split_once_of(origin, "://"@) {
        Some((scheme, rest)) => {
            let authority = rest.take(strings::first_index(rest, '/'));
            if authority.len() > 0 {
                Some((scheme, authority))
            } else {
                None
            }
        },
        None => None,
    }
}

/// Default port of the schemes that imply one.
pub open spec fn default_port_of(scheme: Seq<char>) -> Option<u16> {
    let s = strings::lower_of(scheme);
    if s == strings::lower_of("http"@) || s == strings::lower_of("ws"@) {
        Some(80)
    } else if s == strings::lower_of("https"@) || s == strings::lower_of("wss"@) {
        Some(443)
    } else {
        None
    }
}

/// An authority cut into its host and its port, if it names one. A bracketed
/// IPv6 literal that ends the authority has no port.
pub open spec fn split_port_of(authority: Seq<char>) -> (Seq<char>, Option<Seq<char>>) {
    let i = strings::last_index(authority, ':');
    if (authority.len() > 0 && authority.last() == ']') || i < 0 {
        (authority, None)
    } else {
        (authority.take(i), Some(authority.skip(i + 1)))
    }
}

/// Whether two texts agree up to ASCII case.
pub open spec fn same_ignoring_case(a: Seq<char>, b: Seq<char>) -> bool {
    strings::lower_of(a) == strings::lower_of(b)
}

/// Whether the authority of an origin with this scheme may open a terminal
/// on `host`.
pub open spec fn authority_matches(
    scheme: Seq<char>,
    authority: Seq<char>,
    host: Seq<char>,
) -> bool {
    let (o_host, o_port) = split_port_of(authority);
    let (h_host, h_port) = split_port_of(host);
    ||| same_ignoring_case(authority, host)
    ||| {
        &&& same_ignoring_case(o_host, h_host)
        &&& match (o_port, h_port) {
            (None, _) => true,
            (Some(a), Some(b)) => a == b,
            (Some(port), None) => {
                &&& default_port_of(scheme) is Some
                &&& strings::u16_of(port) == default_port_of(scheme)
            },
        }
    }
}

/// Whether a request with these `Origin` and `Host` headers passes the origin
/// check.
pub open spec fn origin_allowed(
    origin: Option<Option<Seq<char>>>,
    host: Option<Seq<char>>,
) -> bool {
    match (origin, host) {
        (None, _) => true,
        (Some(Some(text)), Some(host)) => match origin_parts_of(text) {
            Some((scheme, authority)) => authority_matches(scheme, authority, host),
            None => false,
        },
        _ => false,
    }
}

/// Default port for Origin schemes that imply one.
pub fn scheme_default_port(scheme: &str) -> (port: Option<u16>)
    ensures
        port == default_port_of(scheme@),
{
    if strings::eq_ignore_ascii_case(scheme, "http") || strings::eq_ignore_ascii_case(
        scheme,
        "ws",
    ) {
        Some(80)
    } else if strings::eq_ignore_ascii_case(scheme, "https") || strings::eq_ignore_ascii_case(
        scheme,
        "wss",
    ) {
        Some(443)
    } else {
        None
    }
}

/// `scheme://authority/path` → `(scheme, authority)` (None for malformed
/// values).
pub fn origin_parts<'a>(origin: &'a str) -> (parts: Option<(&'a str, &'a str)>)
    ensures
        match parts {
            Some((scheme, authority)) => origin_parts_of(origin@) == Some((scheme@, authority@)),
            None => origin_parts_of(origin@) is None,
        },
{
    proof {
        reveal_strlit("://");
    }
    match strings::split_once(origin, "://") {
        Some((scheme, rest)) => {
            let pieces = strings::split(rest, '/');
            proof {
                strings::lemma_split_head(rest@, '/');
            }
            let authority = pieces[0];
            if authority.is_empty() {
                None
            } else {
                Some((scheme, authority))
            }
        },
        None => None,
    }
}

/// An authority cut into its host and its port.
fn split_port<'a>(authority: &'a str) -> (parts: (&'a str, Option<&'a str>))
    ensures
        (parts.0@, strings::option_str(parts.1)) == split_port_of(authority@),
{
    if strings::ends_with_char(authority, ']') {
        return (authority, None);
    }
    match strings::rsplit_once_char(authority, ':') {
        Some((host, port)) => (host, Some(port)),
        None => (authority, None),
    }
}

/// CSRF guard for browser clients: when an `Origin` header is present, its
/// hostname must match the request `Host` header (compared
/// case-insensitively). Port rules:
///
/// - both sides carry an explicit port: the ports must match;
/// - a port-less Origin (the scheme default) matches on hostname alone;
/// - an explicit Origin port against a port-less Host only matches when the
///   port equals the Origin scheme's default (80/443).
///
/// Clients that send no Origin header are not checked.
pub fn origin_matches_host(handshake: &HandshakeHeaders) -> (allowed: bool)
    ensures
        allowed == origin_allowed(handshake@.origin, handshake@.host),
{
    let origin = match &handshake.origin {
        HeaderText::Absent => return true,
        HeaderText::Opaque => return false,
        HeaderText::Text(origin) => origin.as_str(),
    };
    let host = match handshake.host.text() {
        Some(host) => host,
        None => return false,
    };
    let (scheme, authority) = match origin_parts(origin) {
        Some(parts) => parts,
        None => return false,
    };
    if strings::eq_ignore_ascii_case(authority, host) {
        return true;
    }
    let (o_host, o_port) = split_port(authority);
    let (h_host, h_port) = split_port(host);
    if !strings::eq_ignore_ascii_case(o_host, h_host) {
        return false;
    }
    match (o_port, h_port) {
        (None, _) => true,
        (Some(a), Some(b)) => strings::same_text(a, b),
        (Some(port), None) => match (strings::parse_u16(port), scheme_default_port(scheme)) {
            (Some(port), Some(default)) => port == default,
            _ => false,
        },
    }
}

// ── Client address ──────────────────────────────────────────────────────

/// The client address that the proxies in front name: the first entry of
/// `X-Forwarded-For` unless blank, else `X-Real-IP` unless blank.
pub open spec fn client_ip_of(handshake: HandshakeView) -> Option<Seq<char>> {
    let first = match handshake.forwarded_for {
        Some(list) => non_blank(Some(strings::split_of(list, ',')[0])),
        None => None,
    };
    match first {
        Some(ip) => Some(ip),
        None => non_blank(handshake.real_ip),
    }
}

/// The client address that the proxies in front name.
pub fn client_ip(handshake: &HandshakeHeaders) -> (ip: Option<String>)
    ensures
        strings::option_text(ip) == client_ip_of(handshake@),
{
    let first = match handshake.forwarded_for.text() {
        Some(list) => {
            let pieces = strings::split(list, ',');
            proof {
                strings::lemma_split_head(list@, ',');
            }
            trimmed_unless_blank(Some(pieces[0]))
        },
        None => None,
    };
    match first {
        Some(ip) => Some(ip.to_owned()),
        None => match trimmed_unless_blank(handshake.real_ip.text()) {
            Some(ip) => Some(ip.to_owned()),
            None => None,
        },
    }
}

// ── Laws ────────────────────────────────────────────────────────────────

/// An origin that may open a terminal names the requested host, up to the
/// case of its letters, and where it names a port that is the requested one:
/// the port of `Host`, or the default of the origin's scheme where `Host` has
/// none. (Ports that are no numbers are held against each other as part of the
/// whole authority, which leaves the case of letters open.)
pub proof fn law_allowed_origin_names_the_host(
    scheme: Seq<char>,
    authority: Seq<char>,
    host: Seq<char>,
)
    requires
        authority_matches(scheme, authority, host),
    ensures
        same_ignoring_case(split_port_of(authority).0, split_port_of(host).0),
        match (split_port_of(authority).1, split_port_of(host).1) {
            (None, _) => true,
            (Some(a), Some(b)) => {
                &&& same_ignoring_case(a, b)
                &&& strings::is_digits(a) || strings::is_digits(b) ==> a == b
            },
            (Some(port), None) => {
                &&& default_port_of(scheme) is Some
                &&& strings::u16_of(port) == default_port_of(scheme)
            },
        },
{
    if same_ignoring_case(authority, host) {
        strings::lemma_last_index_ignores_case(authority, host, ':');
        let i = strings::last_index(authority, ':');
        let a = strings::lower_of(authority);
        let b = strings::lower_of(host);
        if authority.len() > 0 {
            assert(a.last() == strings::lower_char(authority.last()));
            assert(b.last() == strings::lower_char(host.last()));
        }
        if i >= 0 {
            assert(strings::lower_of(authority.take(i)) =~= a.take(i));
            assert(strings::lower_of(host.take(i)) =~= b.take(i));
            assert(strings::lower_of(authority.skip(i + 1)) =~= a.skip(i + 1));
            assert(strings::lower_of(host.skip(i + 1)) =~= b.skip(i + 1));
            let port = authority.skip(i + 1);
            let other = host.skip(i + 1);
            if strings::is_digits(port) {
                strings::lemma_digits_have_no_case(port, other);
            } else if strings::is_digits(other) {
                strings::lemma_digits_have_no_case(other, port);
            }
        }
    }
}

/// Scheme and authority of an `Origin` header, where it has them.
pub open spec fn readable_parts(origin: Option<Option<Seq<char>>>) -> Option<
    (Seq<char>, Seq<char>),
> {
    match origin {
        Some(Some(text)) => origin_parts_of(text),
        _ => None,
    }
}

/// A request with an `Origin` that is malformed, or without a `Host` to hold
/// it against, is refused; one without an `Origin` is not checked.
pub proof fn law_only_a_missing_origin_is_unchecked(
    origin: Option<Option<Seq<char>>>,
    host: Option<Seq<char>>,
)
    ensures
        origin is None ==> origin_allowed(origin, host),
        origin is Some && origin_allowed(origin, host) ==> host is Some && readable_parts(origin)
            is Some,
{
}

/// The credential transports in their order: a token that is not blank beats
/// the API key, and a subprotocol token, even a blank one, hides the query
/// parameter.
pub proof fn law_credential_precedence(handshake: HandshakeView, query_token: Option<Seq<char>>)
    ensures
        match subprotocol_token_of(handshake.protocols) {
            Some(token) => handshake_credential_of(handshake, query_token)
                == handshake_credential_of(handshake, Some(token)),
            None => non_blank(query_token) is Some ==> handshake_credential_of(
                handshake,
                query_token,
            ) == Some(CredentialView::Bearer(non_blank(query_token)->0)),
        },
        non_blank(handshake_token_of(handshake, query_token)) is None
            ==> handshake_credential_of(handshake, query_token) == (match non_blank(
            handshake.api_key,
        ) {
            Some(key) => Some(CredentialView::ApiKey(key)),
            None => None,
        }),
{
}

/// The token is all that stands behind `cube-terminal.` in the first entry of
/// the header that begins so, and there is none exactly where no entry does.
pub proof fn law_token_is_behind_the_prefix(list: Seq<char>)
    ensures
        subprotocol_token_of(None) is None,
        ({
            let entries = strings::split_of(list, ',');
            match subprotocol_token_of(Some(list)) {
                Some(token) => exists|i: int|
                    {
                        &&& 0 <= i < entries.len()
                        &&& strings::trim_of(#[trigger] entries[i]) == "cube-terminal."@ + token
                        &&& forall|j: int|
                            0 <= j < i ==> !"cube-terminal."@.is_prefix_of(
                                strings::trim_of(#[trigger] entries[j]),
                            )
                    },
                None => forall|j: int|
                    0 <= j < entries.len() ==> !"cube-terminal."@.is_prefix_of(
                        strings::trim_of(#[trigger] entries[j]),
                    ),
            }
        }),
{
    let prefix = "cube-terminal."@;
    let entries = strings::split_of(list, ',');
    let trimmed = entries_of(list);
    lemma_find_prefixed(trimmed, prefix);
    match find_prefixed(trimmed, prefix) {
        Some(token) => {
            let i = choose|i: int|
                0 <= i < trimmed.len() && #[trigger] trimmed[i] == prefix + token && forall|j: int|
                    0 <= j < i ==> !prefix.is_prefix_of(#[trigger] trimmed[j]);
            assert(strings::trim_of(entries[i]) == prefix + token);
            assert forall|j: int| 0 <= j < i implies !prefix.is_prefix_of(
                strings::trim_of(#[trigger] entries[j]),
            ) by {
                assert(trimmed[j] == strings::trim_of(entries[j]));
            }
        },
        None => {
            assert forall|j: int| 0 <= j < entries.len() implies !prefix.is_prefix_of(
                strings::trim_of(#[trigger] entries[j]),
            ) by {
                assert(trimmed[j] == strings::trim_of(entries[j]));
            }
        },
    }
}

proof fn lemma_find_prefixed(entries: Seq<Seq<char>>, prefix: Seq<char>)
    ensures
        match find_prefixed(entries, prefix) {
            Some(token) => exists|i: int|
                0 <= i < entries.len() && #[trigger] entries[i] == prefix + token && forall|j: int|
                    0 <= j < i ==> !prefix.is_prefix_of(#[trigger] entries[j]),
            None => forall|j: int|
                0 <= j < entries.len() ==> !prefix.is_prefix_of(#[trigger] entries[j]),
        },
    decreases entries.len(),
{
    if entries.len() > 0 {
        if prefix.is_prefix_of(entries[0]) {
            let token = entries[0].skip(prefix.len() as int);
            assert(entries[0] =~= prefix + token);
        } else {
            let rest = entries.skip(1);
            lemma_find_prefixed(rest, prefix);
            match find_prefixed(rest, prefix) {
                Some(token) => {
                    let i = choose|i: int|
                        {
                            &&& 0 <= i < rest.len()
                            &&& #[trigger] rest[i] == prefix + token
                            &&& forall|j: int|
                                0 <= j < i ==> !prefix.is_prefix_of(#[trigger] rest[j])
                        };
                    assert(entries[i + 1] == prefix + token);
                    assert forall|j: int| 0 <= j < i + 1 implies !prefix.is_prefix_of(
                        #[trigger] entries[j],
                    ) by {
                        if j > 0 {
                            assert(rest[j - 1] == entries[j]);
                        }
                    }
                },
                None => {
                    assert forall|j: int| 0 <= j < entries.len() implies !prefix.is_prefix_of(
                        #[trigger] entries[j],
                    ) by {
                        if j > 0 {
                            assert(rest[j - 1] == entries[j]);
                        }
                    }
                },
            }
        }
    }
}

/// A token that a browser offers beside the base subprotocol is read whole,
/// whatever it is made of.
pub proof fn law_offered_token_is_read_whole(token: Seq<char>)
    requires
        !token.contains(','),
        strings::has_no_padding(token),
    ensures
        subprotocol_token_of(Some("cube-terminal, cube-terminal."@ + token)) == Some(token),
        offers_base(Some("cube-terminal, cube-terminal."@ + token)),
{
    let base = "cube-terminal"@;
    let prefix = "cube-terminal."@;
    let list = "cube-terminal, cube-terminal."@ + token;
    let second = seq![' '] + prefix + token;
    let pieces = seq![base, second];
    reveal_strlit("cube-terminal");
    assert forall|i: int| 0 <= i < 13 implies "cube-terminal"@[i] != ',' by {}
    reveal_strlit("cube-terminal.");
    assert forall|i: int| 0 <= i < 14 implies "cube-terminal."@[i] != ',' by {}
    reveal_strlit("cube-terminal, cube-terminal.");
    assert forall|k: int| 0 <= k < pieces.len() implies !(#[trigger] pieces[k]).contains(',') by {
        assert forall|i: int| 0 <= i < second.len() implies second[i] != ',' by {
            if i > prefix.len() {
                assert(second[i] == token[i - prefix.len() - 1]);
                assert(token.contains(token[i - prefix.len() - 1]));
            } else if i > 0 {
                assert(second[i] == prefix[i - 1]);
            }
        }
    }
    assert(pieces.skip(1) =~= seq![second]);
    assert(strings::joined(pieces.skip(1), ',') == second);
    assert(strings::joined(pieces, ',') =~= base + seq![','] + second);
    assert("cube-terminal, cube-terminal."@ =~= base + seq![','] + seq![' '] + prefix);
    assert(list =~= strings::joined(pieces, ','));
    strings::law_join_and_split(pieces, ',');
    strings::lemma_nothing_to_trim(base);
    let none = Seq::<char>::empty();
    let text = prefix + token;
    assert(text.last() == (if token.len() == 0 {
        '.'
    } else {
        token.last()
    }));
    strings::law_trim_takes_the_padding(seq![' '], text, none);
    assert(seq![' '] + text + none =~= second);
    let entries = entries_of(list);
    assert(entries[0] == base);
    assert(entries[1] == text);
    assert(entries.contains(entries[0]));
    assert(!prefix.is_prefix_of(base));
    assert(entries.skip(1)[0] == text);
    assert(text.skip(prefix.len() as int) =~= token);
    assert(prefix.is_prefix_of(text)) by {
        assert(text.take(prefix.len() as int) =~= prefix);
    }
    reveal_with_fuel(find_prefixed, 3);
}

/// The base subprotocol is offered exactly where an entry of the header is
/// `cube-terminal`, whitespace around it aside.
pub proof fn law_base_is_offered_by_an_entry(list: Seq<char>)
    ensures
        !offers_base(None),
        offers_token(Some(list)) <==> subprotocol_token_of(Some(list)) is Some,
        offers_base(Some(list)) <==> exists|i: int|
            0 <= i < strings::split_of(list, ',').len() && strings::trim_of(
                #[trigger] strings::split_of(list, ',')[i],
            ) == "cube-terminal"@,
{
    let entries = entries_of(list);
    let pieces = strings::split_of(list, ',');
    if offers_base(Some(list)) {
        let i = choose|i: int| 0 <= i < entries.len() && entries[i] == "cube-terminal"@;
        assert(entries[i] == strings::trim_of(pieces[i]));
    }
    if exists|i: int|
        0 <= i < pieces.len() && strings::trim_of(#[trigger] pieces[i]) == "cube-terminal"@ {
        let i = choose|i: int|
            0 <= i < pieces.len() && strings::trim_of(#[trigger] pieces[i]) == "cube-terminal"@;
        assert(entries[i] == "cube-terminal"@);
    }
}

/// The token of the handshake is the subprotocol's, else the query
/// parameter's; without the whitespace around it and unless nothing is left,
/// it is the credential, whole. Else the API key is, in the same way.
pub proof fn law_credential_is_read_whole(
    handshake: HandshakeView,
    query_token: Option<Seq<char>>,
    credential: Seq<char>,
)
    ensures
        ({
            let offered = subprotocol_token_of(handshake.protocols);
            let token = if offered is Some {
                offered
            } else {
                query_token
            };
            let is_token = token is Some && strings::trim_of(token->0) == credential;
            let is_key = handshake.api_key is Some && strings::trim_of(handshake.api_key->0)
                == credential;
            let no_token = token is None || strings::trim_of(token->0).len() == 0;
            let read = handshake_credential_of(handshake, query_token);
            &&& read == Some(CredentialView::Bearer(credential)) <==> is_token && credential.len()
                > 0
            &&& read == Some(CredentialView::ApiKey(credential)) <==> no_token && is_key
                && credential.len() > 0
            &&& read is None <==> no_token && (handshake.api_key is None || strings::trim_of(
                handshake.api_key->0,
            ).len() == 0)
        }),
        CredentialView::Bearer(credential).secret() == credential,
        CredentialView::ApiKey(credential).secret() == credential,
{
}

/// Default ports: 80 for `http` and `ws`, 443 for `https` and `wss`, in any
/// case of the letters, and none for any other scheme.
pub proof fn law_default_ports(scheme: Seq<char>)
    ensures
        default_port_of(scheme) == Some(80u16) <==> same_ignoring_case(scheme, "http"@)
            || same_ignoring_case(scheme, "ws"@),
        default_port_of(scheme) == Some(443u16) <==> same_ignoring_case(scheme, "https"@)
            || same_ignoring_case(scheme, "wss"@),
        default_port_of(scheme) matches Some(port) ==> port == 80 || port == 443,
{
    let s = strings::lower_of(scheme);
    reveal_strlit("http");
    reveal_strlit("ws");
    reveal_strlit("https");
    reveal_strlit("wss");
    assert(s.len() == scheme.len());
    assert(strings::lower_of("http"@).len() == 4);
    assert(strings::lower_of("ws"@).len() == 2);
    assert(strings::lower_of("https"@).len() == 5);
    assert(strings::lower_of("wss"@).len() == 3);
}

/// `scheme://authority`, with or without a path behind it, is cut into scheme
/// and authority, each whole.
pub proof fn law_origin_is_cut(scheme: Seq<char>, authority: Seq<char>, path: Seq<char>)
    requires
        !scheme.contains(':'),
        !authority.contains('/'),
        path.len() > 0 ==> path[0] == '/',
    ensures
        origin_parts_of(scheme + "://"@ + authority + path) == (if authority.len() > 0 {
            Some((scheme, authority))
        } else {
            None
        }),
{
    reveal_strlit("://");
    let sep = "://"@;
    let origin = scheme + sep + authority + path;
    let n = scheme.len() as int;
    assert(origin.subrange(n, n + sep.len()) =~= sep);
    assert forall|j: int| 0 <= j < n implies !strings::occurs_at(origin, sep, j) by {
        assert(scheme.contains(scheme[j]));
        if strings::occurs_at(origin, sep, j) {
            assert(origin.subrange(j, j + sep.len())[0] == origin[j]);
            assert(origin[j] == scheme[j]);
        }
    }
    assert(strings::first_occurrence(origin, sep, n));
    strings::lemma_split_once_is(origin, sep, n);
    let rest = authority + path;
    assert(origin.take(n) =~= scheme);
    assert(origin.skip(n + sep.len()) =~= rest);
    assert forall|j: int| 0 <= j < authority.len() implies rest[j] != '/' by {
        assert(authority.contains(authority[j]));
    }
    strings::lemma_first_index_is(rest, '/', authority.len() as int);
    assert(rest.take(authority.len() as int) =~= authority);
}

/// An origin without `://` is malformed.
pub proof fn law_origin_needs_a_scheme(origin: Seq<char>)
    requires
        forall|i: int|
            0 <= i <= origin.len() - 3 ==> #[trigger] origin.subrange(i, i + 3) != "://"@,
    ensures
        origin_parts_of(origin) is None,
{
    reveal_strlit("://");
    if exists|i: int| strings::first_occurrence(origin, "://"@, i) {
        let i = choose|i: int| strings::first_occurrence(origin, "://"@, i);
        assert(origin.subrange(i, i + 3) == "://"@);
    }
}

/// Whether a host is written without a port: it holds no colon, or is a
/// bracketed IPv6 literal.
pub open spec fn names_no_port(host: Seq<char>) -> bool {
    !host.contains(':') || (host.len() > 0 && host.last() == ']')
}

/// A host with a port behind it, if there is one.
pub open spec fn with_port(host: Seq<char>, port: Option<Seq<char>>) -> Seq<char> {
    match port {
        Some(p) => host + seq![':'] + p,
        None => host,
    }
}

/// Whether a text can stand behind a host as its port.
pub open spec fn can_be_port(port: Option<Seq<char>>) -> bool {
    port matches Some(p) ==> !p.contains(':') && (p.len() > 0 ==> p.last() != ']')
}

/// Host and port of an authority are told apart, each whole.
pub proof fn law_port_is_cut(host: Seq<char>, port: Option<Seq<char>>)
    requires
        port is None ==> names_no_port(host),
        can_be_port(port),
    ensures
        split_port_of(with_port(host, port)) == (host, port),
{
    let authority = with_port(host, port);
    match port {
        Some(p) => {
            let i = host.len() as int;
            assert forall|j: int| i < j < authority.len() implies authority[j] != ':' by {
                assert(authority[j] == p[j - i - 1]);
                assert(p.contains(p[j - i - 1]));
            }
            strings::lemma_last_index_is(authority, ':', i);
            assert(authority.last() == (if p.len() == 0 {
                ':'
            } else {
                p.last()
            }));
            assert(authority.take(i) =~= host);
            assert(authority.skip(i + 1) =~= p);
        },
        None => {
            if !host.contains(':') {
                assert forall|j: int| -1 < j < host.len() implies host[j] != ':' by {
                    assert(host.contains(host[j]));
                }
                strings::lemma_last_index_is(host, ':', -1);
            }
        },
    }
}

/// The origin rule, for every scheme: an origin may open a terminal where its
/// host is the requested one up to ASCII case, and it names no port, or the
/// port of `Host`, or the default port of its scheme where `Host` has none.
pub proof fn law_matching_origin_is_allowed(
    scheme: Seq<char>,
    origin_host: Seq<char>,
    origin_port: Option<Seq<char>>,
    host: Seq<char>,
    port: Option<Seq<char>>,
)
    requires
        origin_port is None ==> names_no_port(origin_host),
        port is None ==> names_no_port(host),
        can_be_port(origin_port),
        can_be_port(port),
        strings::lower_of(origin_host) == strings::lower_of(host),
        origin_port is None || origin_port == port || (port is None && default_port_of(scheme)
            is Some && strings::u16_of(origin_port->0) == default_port_of(scheme)),
    ensures
        authority_matches(scheme, with_port(origin_host, origin_port), with_port(host, port)),
{
    law_port_is_cut(origin_host, origin_port);
    law_port_is_cut(host, port);
}

/// No other origin may: with another host, or with a port that is neither that
/// of `Host` nor, where `Host` has none, the default of the scheme, it is
/// refused. (Where two ports are no numbers and differ in the case of letters
/// alone, origin and `Host` agree as a whole.)
pub proof fn law_other_origin_is_refused(
    scheme: Seq<char>,
    origin_host: Seq<char>,
    origin_port: Option<Seq<char>>,
    host: Seq<char>,
    port: Option<Seq<char>>,
)
    requires
        origin_port is None ==> names_no_port(origin_host),
        port is None ==> names_no_port(host),
        can_be_port(origin_port),
        can_be_port(port),
        strings::lower_of(origin_host) != strings::lower_of(host) || (origin_port is Some && (
        strings::is_digits(origin_port->0) || port is None || strings::lower_of(origin_port->0)
            != strings::lower_of(port->0)) && origin_port != port && !(port is None
            && default_port_of(scheme) is Some && strings::u16_of(origin_port->0)
            == default_port_of(scheme))),
    ensures
        !authority_matches(scheme, with_port(origin_host, origin_port), with_port(host, port)),
{
    let authority = with_port(origin_host, origin_port);
    law_port_is_cut(origin_host, origin_port);
    law_port_is_cut(host, port);
    if authority_matches(scheme, authority, with_port(host, port)) {
        law_allowed_origin_names_the_host(scheme, authority, with_port(host, port));
    }
}

/// An `Origin` header that names scheme and authority is allowed exactly where
/// these may open a terminal on the host of the `Host` header.
pub proof fn law_origin_header_is_checked(
    scheme: Seq<char>,
    authority: Seq<char>,
    path: Seq<char>,
    host: Seq<char>,
)
    requires
        !scheme.contains(':'),
        !authority.contains('/'),
        authority.len() > 0,
        path.len() > 0 ==> path[0] == '/',
    ensures
        origin_allowed(Some(Some(scheme + "://"@ + authority + path)), Some(host))
            == authority_matches(scheme, authority, host),
        !origin_allowed(Some(Some(scheme + "://"@ + authority + path)), None),
        !origin_allowed(Some(None), Some(host)),
        origin_allowed(None, Some(host)),
        origin_allowed(None, None),
{
    law_origin_is_cut(scheme, authority, path);
}

/// The client is the first entry of `X-Forwarded-For`, or `X-Real-IP` where
/// that is blank or missing, each whole but for whitespace around it.
pub proof fn law_client_address(handshake: HandshakeView, first: Seq<char>, rest: Seq<char>)
    requires
        !first.contains(','),
    ensures
        ({
            let real_ip = match handshake.real_ip {
                Some(ip) => if strings::trim_of(ip).len() > 0 {
                    Some(strings::trim_of(ip))
                } else {
                    None
                },
                None => None,
            };
            let forwarded = handshake.forwarded_for;
            &&& forwarded == Some(first) || forwarded == Some(first + seq![','] + rest)
                ==> client_ip_of(handshake) == (if strings::trim_of(first).len() > 0 {
                Some(strings::trim_of(first))
            } else {
                real_ip
            })
            &&& forwarded is None ==> client_ip_of(handshake) == real_ip
        }),
{
    let list = first + seq![','] + rest;
    assert forall|j: int| 0 <= j < first.len() implies first[j] != ',' by {
        assert(first.contains(first[j]));
    }
    strings::lemma_first_index_is(first, ',', first.len() as int);
    strings::lemma_first_index_is(list, ',', first.len() as int);
    assert(list.take(first.len() as int) =~= first);
}

/// A credential says exactly what it holds.
pub proof fn law_credential_says_what_it_holds(text: String)
    ensures
        TerminalCredential::Bearer(text)@ == CredentialView::Bearer(text@),
        TerminalCredential::ApiKey(text)@ == CredentialView::ApiKey(text@),
        credential_option(Some(TerminalCredential::Bearer(text))) == Some(
            CredentialView::Bearer(text@),
        ),
        credential_option(Some(TerminalCredential::ApiKey(text))) == Some(
            CredentialView::ApiKey(text@),
        ),
        credential_option(None) is None,
{
}

} // verus!
