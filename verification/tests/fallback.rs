use edge_gateway::fallback::{
    can_prepare, check_trust_anchors, connection_named_headers, drop_host_header,
    handshake_name_from, http1_target, http1_target_from, http2_uri, http2_uri_from,
    is_http1_upgrade, on_fallback_event, on_http1_response, on_response, prepare,
    remove_connection_named_headers, request_authority, rewrite, sanitize_request_headers,
    sanitize_response_headers, sanitize_upgrade_headers, strip_port, tls_handshake_name,
    FallbackAction, FallbackConfig, FallbackEvent, FallbackPhase, FallbackRefusal,
    FallbackScheme, FallbackTlsServerName, FallbackTransport,
};
use edge_gateway::http::request::{HttpVersion, Method, RequestHead};
use edge_gateway::net::{IpAddr, SocketAddr};
use hyper::header::{HeaderMap, HeaderName, HeaderValue};

fn headers(entries: &[(&str, &str)]) -> HeaderMap<HeaderValue> {
    let mut map = HeaderMap::new();
    for (name, value) in entries {
        map.append(
            HeaderName::from_bytes(name.as_bytes()).unwrap(),
            HeaderValue::from_str(value).unwrap(),
        );
    }
    map
}

fn request(version: HttpVersion, entries: &[(&str, &str)]) -> RequestHead {
    RequestHead {
        version,
        method: Method::Get,
        path: "/a".to_owned(),
        query: None,
        protocol: None,
        headers: headers(entries),
    }
}

fn config(scheme: FallbackScheme, preserve_host: bool) -> FallbackConfig {
    FallbackConfig {
        backend: "nginx".to_owned(),
        address: SocketAddr::new(IpAddr::V4([127, 0, 0, 1]), 8443),
        scheme,
        preserve_host,
        tls_server_name: FallbackTlsServerName::RequestHost,
        ca_file: None,
    }
}

#[test]
fn strips_host_ports_without_damaging_ipv6() {
    assert_eq!(strip_port("api.trip2w.com:443"), "api.trip2w.com");
    assert_eq!(strip_port("api.trip2w.com"), "api.trip2w.com");
    assert_eq!(strip_port("[::1]:443"), "::1");
}

#[test]
fn odd_authorities_lose_what_follows_the_last_colon() {
    assert_eq!(strip_port("a:b:c"), "a:b");
    assert_eq!(strip_port(":1"), "");
    assert_eq!(strip_port("[::1"), "::1");
    assert_eq!(strip_port("[]x"), "");
    assert_eq!(strip_port(""), "");
}

#[test]
fn headers_named_by_connection() {
    let map = headers(&[
        ("connection", "X-One, close"),
        ("connection", " x-two ,, bad name"),
        ("x-one", "1"),
        ("x-two", "2"),
        ("x-three", "3"),
    ]);
    assert_eq!(connection_named_headers(&map), vec!["x-one", "close", "x-two"]);
    let mut map = map;
    remove_connection_named_headers(&mut map);
    assert_eq!(
        map,
        headers(&[
            ("connection", "X-One, close"),
            ("connection", " x-two ,, bad name"),
            ("x-three", "3"),
        ])
    );
}

#[test]
fn requests_lose_what_concerns_one_connection() {
    let entries = [
        ("connection", "x-one"),
        ("x-one", "1"),
        ("transfer-encoding", "chunked"),
        ("upgrade", "h2c"),
        ("proxy-connection", "x"),
        ("keep-alive", "1"),
        ("te", " Trailers "),
        ("accept", "*/*"),
    ];
    let mut map = headers(&entries);
    sanitize_request_headers(&mut map, HttpVersion::Http11);
    assert_eq!(map, headers(&[("accept", "*/*")]));
    let mut map = headers(&entries);
    sanitize_request_headers(&mut map, HttpVersion::Http2);
    assert_eq!(map, headers(&[("te", " Trailers "), ("accept", "*/*")]));
    let mut map = headers(&[("te", "gzip")]);
    sanitize_request_headers(&mut map, HttpVersion::Http2);
    assert_eq!(map, headers(&[]));
    let mut map = headers(&entries);
    sanitize_response_headers(&mut map);
    assert_eq!(map, headers(&[("accept", "*/*")]));
}

#[test]
fn upgrades_keep_their_upgrade_header() {
    let mut map = headers(&[
        ("connection", "Upgrade, x-one"),
        ("x-one", "1"),
        ("upgrade", "websocket"),
        ("te", "trailers"),
        ("transfer-encoding", "chunked"),
        ("proxy-connection", "x"),
        ("keep-alive", "1"),
        ("accept", "*/*"),
    ]);
    assert!(can_prepare(&map));
    sanitize_upgrade_headers(&mut map);
    assert_eq!(
        map,
        headers(&[("connection", "upgrade"), ("upgrade", "websocket"), ("accept", "*/*")])
    );
}

#[test]
fn the_authority_of_a_request() {
    let host = headers(&[("host", "Example.com")]);
    let none = headers(&[]);
    assert_eq!(request_authority(None, &host), Ok("Example.com".to_owned()));
    assert_eq!(
        request_authority(Some("example.COM"), &host),
        Ok("example.COM".to_owned())
    );
    assert_eq!(request_authority(Some("a"), &none), Ok("a".to_owned()));
    assert_eq!(
        request_authority(Some("a"), &host),
        Err("request URI authority and Host header do not match")
    );
    assert_eq!(request_authority(None, &none), Err("missing Host/authority"));
    assert_eq!(
        request_authority(None, &headers(&[("host", "")])),
        Err("Host/authority is empty")
    );
    let mut opaque = HeaderMap::new();
    opaque.insert("host", HeaderValue::from_bytes(b"\xff").unwrap());
    assert_eq!(
        request_authority(Some("a"), &opaque),
        Err("Host header is not valid ASCII")
    );
}

#[test]
fn upgrades_of_http1_are_recognised() {
    let entries = [("connection", "keep-alive, UPGRADE"), ("upgrade", "websocket")];
    assert!(is_http1_upgrade(&request(HttpVersion::Http11, &entries)));
    assert!(!is_http1_upgrade(&request(HttpVersion::Http10, &entries)));
    assert!(!is_http1_upgrade(&request(HttpVersion::Http11, &entries[..1])));
    assert!(!is_http1_upgrade(&request(HttpVersion::Http11, &entries[1..])));
    assert!(!is_http1_upgrade(&request(
        HttpVersion::Http11,
        &[("connection", "close"), ("upgrade", "x")],
    )));
}

#[test]
fn the_server_name_of_the_upstream() {
    let http = config(FallbackScheme::Http, true);
    assert_eq!(http.resolve_tls_server_name(Some("sni"), "host:1"), Ok(None));
    let https = config(FallbackScheme::Https, true);
    assert_eq!(
        https.resolve_tls_server_name(Some("sni"), "host:1"),
        Ok(Some("sni".to_owned()))
    );
    assert_eq!(
        https.resolve_tls_server_name(None, "host:1"),
        Ok(Some("host".to_owned()))
    );
    assert_eq!(
        https.resolve_tls_server_name(None, ":1"),
        Err("fallback TLS server name is empty")
    );
    let mut literal = config(FallbackScheme::Https, true);
    literal.tls_server_name = FallbackTlsServerName::Literal("fixed".to_owned());
    assert_eq!(
        literal.resolve_tls_server_name(Some("sni"), "host"),
        Ok(Some("fixed".to_owned()))
    );
}

#[test]
fn a_request_is_prepared() {
    let mut head = request(
        HttpVersion::Http11,
        &[("host", "example.com"), ("connection", "close"), ("accept", "*/*")],
    );
    let Ok(plan) = prepare(
        &config(FallbackScheme::Https, true),
        false,
        &mut head,
        None,
        None,
    ) else {
        panic!("the request should be passed on");
    };
    assert_eq!(plan.transport, FallbackTransport::Http1);
    assert!(!plan.is_upgrade);
    assert_eq!(plan.tls_name.as_deref(), Some("example.com"));
    assert_eq!(plan.authority, "example.com");
    assert_eq!(head.headers, headers(&[("host", "example.com"), ("accept", "*/*")]));

    let mut head = request(HttpVersion::Http2, &[]);
    let Ok(plan) = prepare(
        &config(FallbackScheme::Http, false),
        false,
        &mut head,
        Some("example.com"),
        Some("sni"),
    ) else {
        panic!("the request should be passed on");
    };
    assert_eq!(plan.transport, FallbackTransport::Http2);
    assert_eq!(plan.tls_name, None);
    assert_eq!(plan.authority, "127.0.0.1:8443");
    assert_eq!(head.headers, headers(&[("host", "127.0.0.1:8443")]));

    let mut head = request(
        HttpVersion::Http11,
        &[("host", "h"), ("connection", "upgrade"), ("upgrade", "websocket")],
    );
    let Ok(plan) = prepare(&config(FallbackScheme::Http, true), false, &mut head, None, None)
    else {
        panic!("the request should be passed on");
    };
    assert!(plan.is_upgrade);
    assert_eq!(
        head.headers,
        headers(&[("host", "h"), ("connection", "upgrade"), ("upgrade", "websocket")])
    );
}

#[test]
fn requests_are_refused_with_an_answer() {
    fn refusal(
        config: &FallbackConfig,
        shutting_down: bool,
        mut head: RequestHead,
        authority: Option<&str>,
    ) -> FallbackRefusal {
        match prepare(config, shutting_down, &mut head, authority, None) {
            Ok(_) => panic!("the request should be refused"),
            Err(failure) => failure.refusal,
        }
    }
    let https = config(FallbackScheme::Https, true);
    let host = [("host", "example.com")];
    for (found, expected, status, body) in [
        (
            refusal(&https, true, request(HttpVersion::Http11, &host), None),
            FallbackRefusal::ShuttingDown,
            503,
            "gateway shutting down\n",
        ),
        (
            refusal(&https, false, request(HttpVersion::Http11, &[]), None),
            FallbackRefusal::NoAuthority,
            400,
            "host/authority required\n",
        ),
        (
            refusal(&https, false, request(HttpVersion::Http11, &[]), Some(":1")),
            FallbackRefusal::NoServerName,
            502,
            "fallback TLS name invalid\n",
        ),
        (
            refusal(
                &config(FallbackScheme::Http, true),
                false,
                request(HttpVersion::Http11, &[]),
                Some("a\u{7f}b"),
            ),
            FallbackRefusal::InvalidHost,
            400,
            "invalid host/authority\n",
        ),
        (
            refusal(&https, false, request(HttpVersion::Http3, &host), None),
            FallbackRefusal::UpstreamUnavailable,
            502,
            "fallback upstream unavailable\n",
        ),
    ] {
        assert_eq!(found, expected);
        let reply = found.response();
        assert_eq!((reply.status, reply.body), (status, body));
        assert_eq!(reply.headers, vec![("content-type", "text/plain; charset=utf-8")]);
    }
    let reply = FallbackRefusal::InvalidConfiguration.response();
    assert_eq!((reply.status, reply.body), (502, "fallback configuration invalid\n"));
}

#[test]
fn targets_are_rewritten() {
    assert_eq!(http1_target(Some("/a?b=c")), Ok("/a?b=c".to_owned()));
    assert_eq!(http1_target(None), Ok("/".to_owned()));
    assert_eq!(
        http1_target_from(Err("odd".to_owned())),
        Err("failed to construct fallback HTTP/1 request target")
    );
    assert_eq!(
        http2_uri(FallbackScheme::Https, "example.com", Some("/a?b")),
        Ok("https://example.com/a?b".to_owned())
    );
    assert_eq!(
        http2_uri(FallbackScheme::Http, "example.com:80", None),
        Ok("http://example.com:80/".to_owned())
    );
    assert_eq!(
        http2_uri(FallbackScheme::Http, "exa mple", None),
        Err("failed to construct fallback HTTP/2 URI")
    );
    assert_eq!(
        http2_uri_from(Err("odd".to_owned())),
        Err("failed to construct fallback HTTP/2 URI")
    );
    let mut map = headers(&[("host", "a"), ("accept", "b")]);
    drop_host_header(&mut map);
    assert_eq!(map, headers(&[("accept", "b")]));
}

#[test]
fn names_for_the_handshake() {
    assert_eq!(
        tls_handshake_name(Some("example.com".to_owned())),
        Ok("example.com".to_owned())
    );
    assert_eq!(
        tls_handshake_name(Some("127.0.0.1".to_owned())),
        Ok("127.0.0.1".to_owned())
    );
    assert_eq!(
        tls_handshake_name(Some("not a name".to_owned())),
        Err("invalid fallback TLS server name \"not a name\"".to_owned())
    );
    assert_eq!(
        tls_handshake_name(None),
        Err("fallback HTTPS requires a TLS server name".to_owned())
    );
    assert_eq!(
        handshake_name_from(Some("a".to_owned()), false),
        Err("invalid fallback TLS server name \"a\"".to_owned())
    );
    assert_eq!(handshake_name_from(Some("a".to_owned()), true), Ok("a".to_owned()));
}

#[test]
fn responses_of_http1() {
    let entries = [("connection", "upgrade, x-one"), ("upgrade", "websocket"), ("x-one", "1")];
    let mut map = headers(&entries);
    assert!(on_http1_response(&mut map, 101, true));
    assert_eq!(map, headers(&[("connection", "upgrade"), ("upgrade", "websocket")]));
    let mut map = headers(&entries);
    assert!(!on_http1_response(&mut map, 101, false));
    assert_eq!(map, headers(&[("connection", "upgrade"), ("upgrade", "websocket")]));
    let mut map = headers(&entries);
    assert!(!on_http1_response(&mut map, 200, true));
    assert_eq!(map, headers(&[]));
}

#[test]
fn a_ca_file_has_to_be_of_use() {
    assert_eq!(check_trust_anchors("ca.pem", 1, 0), Ok(None));
    assert_eq!(check_trust_anchors("ca.pem", 1, 2), Ok(Some(2)));
    assert_eq!(
        check_trust_anchors("ca.pem", 0, 2),
        Err("fallback CA file ca.pem contains no usable CA certificates".to_owned())
    );
}

#[test]
fn a_request_on_its_way() {
    let https = config(FallbackScheme::Https, true);
    let mut phase = FallbackPhase::ConnectingTcp;
    let mut step = |phase: &mut FallbackPhase| {
        on_fallback_event(&https, FallbackTransport::Http2, phase, FallbackEvent::Succeeded)
    };
    assert!(matches!(step(&mut phase), FallbackAction::ConnectTls("h2")));
    assert!(matches!(step(&mut phase), FallbackAction::Handshake));
    assert!(matches!(step(&mut phase), FallbackAction::Send));
    assert!(matches!(step(&mut phase), FallbackAction::Respond));
    assert_eq!(phase, FallbackPhase::Done);
    let mut phase = FallbackPhase::ConnectingTcp;
    assert!(matches!(
        on_fallback_event(
            &config(FallbackScheme::Http, true),
            FallbackTransport::Http1,
            &mut phase,
            FallbackEvent::Succeeded,
        ),
        FallbackAction::Handshake
    ));
}

#[test]
fn failures_on_the_way_are_spelled_out() {
    let https = config(FallbackScheme::Https, true);
    for (phase, event, transport, text) in [
        (
            FallbackPhase::ConnectingTcp,
            FallbackEvent::TimedOut,
            FallbackTransport::Http1,
            "fallback TCP connect to 127.0.0.1:8443 timed out",
        ),
        (
            FallbackPhase::ConnectingTcp,
            FallbackEvent::Failed,
            FallbackTransport::Http1,
            "failed to connect to fallback nginx",
        ),
        (
            FallbackPhase::ConnectingTcp,
            FallbackEvent::SetupFailed,
            FallbackTransport::Http1,
            "failed to enable TCP_NODELAY for fallback upstream",
        ),
        (
            FallbackPhase::ConnectingTls,
            FallbackEvent::TimedOut,
            FallbackTransport::Http1,
            "fallback TLS handshake timed out",
        ),
        (
            FallbackPhase::ConnectingTls,
            FallbackEvent::Failed,
            FallbackTransport::Http1,
            "fallback TLS handshake failed",
        ),
        (
            FallbackPhase::Handshaking,
            FallbackEvent::TimedOut,
            FallbackTransport::Http1,
            "fallback HTTP/1 handshake timed out",
        ),
        (
            FallbackPhase::Handshaking,
            FallbackEvent::Failed,
            FallbackTransport::Http2,
            "fallback HTTP/2 handshake failed",
        ),
        (
            FallbackPhase::Sending,
            FallbackEvent::Failed,
            FallbackTransport::Http2,
            "fallback HTTP/2 request failed",
        ),
    ] {
        let mut at = phase;
        match on_fallback_event(&https, transport, &mut at, event) {
            FallbackAction::Fail(found) => assert_eq!(found, text),
            _ => panic!("the request should fail"),
        }
        assert_eq!(at, FallbackPhase::Done);
    }
}

#[test]
fn refusals_tell_the_operator_why() {
    fn reason(config: &FallbackConfig, mut head: RequestHead, authority: Option<&str>) -> String {
        match prepare(config, false, &mut head, authority, None) {
            Ok(_) => panic!("the request should be refused"),
            Err(failure) => failure.reason,
        }
    }
    let https = config(FallbackScheme::Https, true);
    assert_eq!(
        reason(&https, request(HttpVersion::Http11, &[]), None),
        "missing Host/authority"
    );
    assert_eq!(
        reason(&https, request(HttpVersion::Http11, &[]), Some(":1")),
        "fallback TLS server name is empty"
    );
    assert_eq!(
        reason(
            &config(FallbackScheme::Http, true),
            request(HttpVersion::Http11, &[]),
            Some("a\u{7f}b"),
        ),
        "failed to parse header value"
    );
    assert_eq!(
        reason(&https, request(HttpVersion::Http3, &[("host", "a")]), None),
        "fallback supports downstream HTTP/1.x and HTTP/2 only"
    );
}

#[test]
fn requests_and_responses_are_fitted_to_the_transport() {
    let sent = headers(&[("host", "example.com"), ("x-one", "1")]);
    let mut map = sent.clone();
    let http1 = FallbackTransport::Http1;
    let http2 = FallbackTransport::Http2;
    let https = FallbackScheme::Https;
    assert_eq!(
        rewrite(http1, https, "example.com", Some("/a?b"), &mut map),
        Ok("/a?b".to_owned())
    );
    assert_eq!(map, sent);
    assert_eq!(
        rewrite(http2, https, "exa mple", Some("/a"), &mut map),
        Err("failed to construct fallback HTTP/2 URI")
    );
    assert_eq!(map, sent);
    assert_eq!(
        rewrite(http2, https, "example.com", Some("/a?b"), &mut map),
        Ok("https://example.com/a?b".to_owned())
    );
    assert_eq!(map, headers(&[("x-one", "1")]));

    let received = headers(&[("connection", "upgrade"), ("upgrade", "x"), ("x-one", "1")]);
    let mut map = received.clone();
    assert!(!on_response(http2, &mut map, 101, true));
    assert_eq!(map, headers(&[("x-one", "1")]));
    let mut map = received.clone();
    assert!(on_response(http1, &mut map, 101, true));
    assert_eq!(map, received);
    assert!(!on_response(http1, &mut map, 200, true));
    assert_eq!(map, headers(&[("x-one", "1")]));
}
