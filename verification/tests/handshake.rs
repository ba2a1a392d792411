//! Reading a terminal handshake.

use axum::http::{HeaderMap, HeaderName, HeaderValue};
use cube_terminal::handshake::{
    client_ip, handshake_credential, handshake_token, offered_base_subprotocol,
    offered_token_subprotocol, origin_matches_host, origin_parts, scheme_default_port,
    subprotocol_token, TerminalCredential,
};
use cube_terminal::headers::{HandshakeHeaders, HeaderText};

fn handshake(headers: &[(&str, &str)]) -> HandshakeHeaders {
    let mut map = HeaderMap::new();
    for (name, value) in headers {
        map.append(
            HeaderName::from_bytes(name.as_bytes()).unwrap(),
            HeaderValue::from_str(value).unwrap(),
        );
    }
    HandshakeHeaders::read(&map)
}

#[test]
fn origin_host_matching_rules() {
    let check = |origin: Option<&str>, host: &str| {
        let mut headers = HeaderMap::new();
        headers.insert("host", HeaderValue::from_str(host).unwrap());
        if let Some(o) = origin {
            headers.insert("origin", HeaderValue::from_str(o).unwrap());
        }
        origin_matches_host(&HandshakeHeaders::read(&headers))
    };

    // Exact match, case-insensitive host.
    assert!(check(Some("http://example.com:8443"), "example.com:8443"));
    assert!(check(Some("https://EXAMPLE.com"), "example.com"));
    // Port-less Origin (scheme default) matches on hostname alone.
    assert!(check(Some("http://example.com"), "example.com:3000"));
    // An explicit port equal to the scheme default is the same as
    // port-less, even against a port-less Host.
    assert!(check(Some("http://example.com:80"), "example.com"));
    assert!(check(Some("https://example.com:443"), "example.com"));
    // An explicit non-default Origin port vs a port-less Host must NOT
    // match: a proxy that strips the port (`proxy_set_header Host
    // $host`) must not widen the check to other same-host services.
    // Such proxies must forward the full authority (`Host $http_host`).
    assert!(!check(Some("http://example.com:12088"), "example.com"));
    assert!(!check(Some("https://example.com:80"), "example.com"));
    // Both ported: ports must agree.
    assert!(!check(Some("http://example.com:12088"), "example.com:3000"));
    assert!(check(Some("http://example.com:12088"), "example.com:12088"));
    // Different hostnames never match, even port-less.
    assert!(!check(Some("http://evil.com"), "example.com"));
    assert!(!check(Some("http://example.com.evil.com"), "example.com"));
    // No Origin header: not a browser, skip the check.
    assert!(check(None, "example.com"));
    // Malformed Origin: reject.
    assert!(!check(Some("not-a-url"), "example.com"));
    // Bracketed IPv6 without a port is not misparsed as host+port.
    assert!(check(Some("http://[::1]"), "[::1]"));
}

#[test]
fn origin_without_host_is_rejected() {
    assert!(!origin_matches_host(&handshake(&[("origin", "http://example.com")])));
    assert!(origin_matches_host(&handshake(&[])));
}

#[test]
fn origin_port_needs_a_scheme_with_a_default() {
    let check = |origin: &str, host: &str| {
        origin_matches_host(&handshake(&[("origin", origin), ("host", host)]))
    };
    // No default port to hold the explicit one against.
    assert!(!check("ftp://example.com:21", "example.com"));
    assert!(!check("ftp://example.com:x", "example.com"));
    assert!(!check("http://example.com:", "example.com"));
    assert!(!check("http://example.com:65616", "example.com"));
    assert!(check("WSS://example.com:443", "EXAMPLE.com"));
    assert!(check("ws://example.com:0080", "example.com"));
    // A bracketed literal with a port.
    assert!(check("http://[::1]:3000", "[::1]:3000"));
    assert!(!check("http://[::1]:3000", "[::1]"));
}

#[test]
fn unreadable_origin_is_rejected() {
    let mut map = HeaderMap::new();
    map.insert("host", HeaderValue::from_static("example.com"));
    map.insert("origin", HeaderValue::from_bytes(b"http://example.com\xff").unwrap());
    let headers = HandshakeHeaders::read(&map);
    assert_eq!(headers.origin, HeaderText::Opaque);
    assert!(!origin_matches_host(&headers));
}

#[test]
fn default_ports_of_schemes() {
    assert_eq!(scheme_default_port("http"), Some(80));
    assert_eq!(scheme_default_port("WS"), Some(80));
    assert_eq!(scheme_default_port("Https"), Some(443));
    assert_eq!(scheme_default_port("wss"), Some(443));
    assert_eq!(scheme_default_port("ftp"), None);
    assert_eq!(scheme_default_port(""), None);
}

#[test]
fn origin_is_cut_into_scheme_and_authority() {
    assert_eq!(origin_parts("http://a.b:1/path/x"), Some(("http", "a.b:1")));
    assert_eq!(origin_parts("a://b://c"), Some(("a", "b:")));
    assert_eq!(origin_parts("://host"), Some(("", "host")));
    assert_eq!(origin_parts("http:///path"), None);
    assert_eq!(origin_parts("http://"), None);
    assert_eq!(origin_parts("null"), None);
}

#[test]
fn headers_are_read_whatever_their_case() {
    let headers = handshake(&[
        ("Host", "h"),
        ("X-API-Key", "k"),
        ("X-Real-IP", "1.2.3.4"),
        ("Sec-WebSocket-Protocol", "cube-terminal"),
    ]);
    assert_eq!(headers.host, HeaderText::Text("h".to_string()));
    assert_eq!(headers.api_key, HeaderText::Text("k".to_string()));
    assert_eq!(headers.real_ip, HeaderText::Text("1.2.3.4".to_string()));
    assert_eq!(headers.protocols, HeaderText::Text("cube-terminal".to_string()));
    assert_eq!(headers.origin, HeaderText::Absent);
    assert_eq!(headers.forwarded_for, HeaderText::Absent);
}

#[test]
fn first_value_of_a_repeated_header_counts() {
    let headers = handshake(&[("x-api-key", "first"), ("x-api-key", "second")]);
    assert_eq!(headers.api_key.text(), Some("first"));
}

#[test]
fn credential_transports_in_their_order() {
    let bearer = |s: &str| Some(TerminalCredential::Bearer(s.to_string()));
    let all = handshake(&[
        ("sec-websocket-protocol", "cube-terminal, cube-terminal.sub"),
        ("x-api-key", "key"),
    ]);
    assert_eq!(handshake_credential(&all, Some("query".to_string())), bearer("sub"));
    let key = handshake(&[("x-api-key", " key ")]);
    assert_eq!(handshake_credential(&key, Some(" query\t".to_string())), bearer("query"));
    let api_key = Some(TerminalCredential::ApiKey("key".to_string()));
    assert_eq!(handshake_credential(&key, None), api_key);
    assert_eq!(handshake_credential(&key, Some("  ".to_string())), api_key);
    // A blank subprotocol token hides the query parameter.
    let blank = handshake(&[
        ("sec-websocket-protocol", "cube-terminal, cube-terminal."),
        ("x-api-key", "key"),
    ]);
    assert_eq!(handshake_token(&blank, Some("query".to_string())), Some(String::new()));
    assert_eq!(handshake_credential(&blank, Some("query".to_string())), api_key);
    let nothing = handshake(&[("x-api-key", " ")]);
    assert_eq!(handshake_credential(&nothing, None), None);
}

#[test]
fn secret_is_the_raw_credential() {
    assert_eq!(TerminalCredential::Bearer("tok".to_string()).secret(), "tok");
    assert_eq!(TerminalCredential::ApiKey("key".to_string()).secret(), "key");
}

#[test]
fn offered_subprotocols_are_recognised() {
    let offers = |list: &str| {
        let headers = handshake(&[("sec-websocket-protocol", list)]);
        (offered_base_subprotocol(&headers), offered_token_subprotocol(&headers))
    };
    assert_eq!(offers("cube-terminal"), (true, false));
    assert_eq!(offers("cube-terminal.tok"), (false, true));
    assert_eq!(offers("x ,  cube-terminal.tok, cube-terminal "), (true, true));
    assert_eq!(offers("cube-terminals, Cube-Terminal"), (false, false));
    assert_eq!(offers(""), (false, false));
    let none = handshake(&[]);
    assert!(!offered_base_subprotocol(&none));
    assert!(!offered_token_subprotocol(&none));
}

#[test]
fn first_token_subprotocol_counts() {
    assert_eq!(subprotocol_token(Some("a, cube-terminal.one, cube-terminal.two")), Some("one"));
    assert_eq!(subprotocol_token(Some("cube-terminal")), None);
    assert_eq!(subprotocol_token(None), None);
}

#[test]
fn client_address_from_proxy_headers() {
    assert_eq!(
        client_ip(&handshake(&[("x-forwarded-for", " 10.0.0.1 , 10.0.0.2"), ("x-real-ip", "9.9.9.9")])),
        Some("10.0.0.1".to_string())
    );
    assert_eq!(
        client_ip(&handshake(&[("x-forwarded-for", " , 10.0.0.2"), ("x-real-ip", " 9.9.9.9 ")])),
        Some("9.9.9.9".to_string())
    );
    assert_eq!(client_ip(&handshake(&[("x-real-ip", "  ")])), None);
    assert_eq!(client_ip(&handshake(&[])), None);
}
