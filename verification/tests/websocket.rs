use edge_gateway::config::observability::{FileObservabilityConfig, FileObservabilityMode};
use edge_gateway::gateway::websocket::{
    backend_handshake, backend_handshake_with_key, on_downstream_upgrade, validate_downstream_handshake,
    AcceptAction, AcceptError, AcceptSession, BackendHandshakeMetadata, BackendOutcome,
    DownstreamHandshake, UpgradeOutcome,
};
use edge_gateway::http::request::{HttpVersion, Method, RequestHead};
use edge_gateway::net::{IpAddr, SocketAddr};
use edge_gateway::observability::RuntimeObservability;
use edge_gateway::routes::{RouteSpec, RouteTable};
use hyper::header::{HeaderMap, HeaderName, HeaderValue};

fn diagnostic() -> RuntimeObservability {
    let file = FileObservabilityConfig {
        mode: FileObservabilityMode::Diagnostic,
        summary_interval_seconds: 300,
        summary_file: "summary.jsonl".to_owned(),
        diagnostic_interval_seconds: 60,
        diagnostic_file: "diagnostic.jsonl".to_owned(),
        connection_event_logs_enabled: false,
    };
    match file.validate("/var") {
        Ok(config) => RuntimeObservability::start(&config).0,
        Err(error) => panic!("{}", error.message()),
    }
}

fn request(
    version: HttpVersion,
    method: Method,
    protocol: Option<&str>,
    entries: &[(&str, &str)],
) -> RequestHead {
    let mut headers = HeaderMap::new();
    for (name, value) in entries {
        headers.append(
            HeaderName::from_bytes(name.as_bytes()).unwrap(),
            HeaderValue::from_str(value).unwrap(),
        );
    }
    RequestHead {
        version,
        method,
        path: "/ws".to_owned(),
        query: None,
        protocol: protocol.map(str::to_owned),
        headers,
    }
}

fn upgrade_request() -> RequestHead {
    request(
        HttpVersion::Http11,
        Method::Get,
        None,
        &[("connection", "keep-alive, Upgrade"), ("upgrade", "WebSocket"), ("cf-ray", "abc")],
    )
}

fn connect_request() -> RequestHead {
    request(
        HttpVersion::Http2,
        Method::Connect,
        Some("WebSocket"),
        &[("sec-websocket-version", "13")],
    )
}

#[test]
fn handshakes_are_recognised() {
    assert!(matches!(
        validate_downstream_handshake(&upgrade_request()),
        Ok(DownstreamHandshake::Http1Upgrade)
    ));
    assert!(matches!(
        validate_downstream_handshake(&connect_request()),
        Ok(DownstreamHandshake::Http2ExtendedConnect)
    ));
    assert_eq!(DownstreamHandshake::Http1Upgrade.as_str(), "http1_upgrade");
    assert_eq!(
        DownstreamHandshake::Http2ExtendedConnect.as_str(),
        "rfc8441_extended_connect"
    );
}

#[test]
fn other_requests_are_refused() {
    let upgrade = [("connection", "upgrade"), ("upgrade", "websocket")];
    for bad in [
        request(HttpVersion::Http11, Method::Post, None, &upgrade),
        request(HttpVersion::Http11, Method::Get, None, &upgrade[..1]),
        request(HttpVersion::Http11, Method::Get, None, &upgrade[1..]),
        request(
            HttpVersion::Http11,
            Method::Get,
            None,
            &[("connection", "close"), ("upgrade", "websocket")],
        ),
    ] {
        assert!(matches!(
            validate_downstream_handshake(&bad),
            Err(AcceptError::Http1UpgradeRequired)
        ));
    }
    let version = [("sec-websocket-version", "13")];
    for bad in [
        request(HttpVersion::Http2, Method::Get, Some("websocket"), &version),
        request(HttpVersion::Http2, Method::Connect, None, &version),
        request(HttpVersion::Http2, Method::Connect, Some("h2"), &version),
        request(HttpVersion::Http2, Method::Connect, Some("websocket"), &[]),
        request(
            HttpVersion::Http2,
            Method::Connect,
            Some("websocket"),
            &[("sec-websocket-version", "12")],
        ),
    ] {
        assert!(matches!(
            validate_downstream_handshake(&bad),
            Err(AcceptError::Http2ExtendedConnectRequired)
        ));
    }
    for version in [HttpVersion::Http09, HttpVersion::Http10, HttpVersion::Http3] {
        assert!(matches!(
            validate_downstream_handshake(&request(version, Method::Get, None, &upgrade)),
            Err(AcceptError::UnsupportedHttpVersion)
        ));
    }
}

#[test]
fn refusals_are_answered() {
    for (error, status, public, message, backend) in [
        (
            AcceptError::Http1UpgradeRequired,
            426,
            "HTTP/1.1 websocket upgrade required\n",
            "HTTP/1.1 request is not a supported WebSocket upgrade",
            false,
        ),
        (
            AcceptError::Http2ExtendedConnectRequired,
            400,
            "HTTP/2 RFC 8441 websocket extended CONNECT required\n",
            "HTTP/2 request is not an RFC 8441 WebSocket extended CONNECT",
            false,
        ),
        (
            AcceptError::UnsupportedHttpVersion,
            505,
            "unsupported websocket HTTP version\n",
            "HTTP version does not support this WebSocket endpoint",
            false,
        ),
        (
            AcceptError::InvalidHandshake("why".to_owned()),
            400,
            "invalid websocket handshake\n",
            "invalid WebSocket handshake: why",
            false,
        ),
        (
            AcceptError::InvalidInternalState,
            500,
            "internal websocket state error\n",
            "gateway entered an invalid WebSocket handshake state",
            false,
        ),
        (
            AcceptError::ShuttingDown,
            503,
            "gateway is shutting down\n",
            "gateway is shutting down",
            false,
        ),
        (
            AcceptError::BackendTimeout,
            502,
            "backend unavailable\n",
            "WebSocket backend connection timed out",
            true,
        ),
        (
            AcceptError::Backend("why".to_owned()),
            502,
            "backend unavailable\n",
            "WebSocket backend connection failed: why",
            true,
        ),
    ] {
        assert_eq!(error.status(), status);
        assert_eq!(error.public_message(), public);
        assert_eq!(error.message(), message);
        assert_eq!(error.is_backend_failure(), backend);
        assert_eq!(error.should_advertise_http1_upgrade(), status == 426);
        let reply = error.response();
        assert_eq!((reply.status, reply.body), (status, public));
        let mut headers = vec![("content-type", "text/plain; charset=utf-8")];
        if status == 426 {
            headers.push(("upgrade", "websocket"));
        }
        assert_eq!(reply.headers, headers);
    }
}

#[test]
fn an_upgrade_is_accepted() {
    let mut observability = diagnostic();
    let Ok((mut session, action)) =
        AcceptSession::begin(false, &upgrade_request(), &mut observability)
    else {
        panic!("the request should be accepted");
    };
    assert_eq!(action, AcceptAction::PrepareUpgrade);
    assert_eq!(session.handshake(), DownstreamHandshake::Http1Upgrade);
    assert_eq!(session.connection_id(), 1);
    assert_eq!(session.downstream_http_version(), "HTTP/1.1");
    assert!(matches!(
        session.on_upgrade_prepared(None),
        Ok(AcceptAction::ConnectBackend)
    ));
    assert!(matches!(
        session.on_backend(BackendOutcome::Connected, &mut observability),
        Ok(AcceptAction::AnswerUpgrade)
    ));
    let metadata = session.metadata(9, SocketAddr::new(IpAddr::V4([10, 0, 0, 1]), 80));
    assert_eq!(metadata.transport_connection_id, 9);
    assert_eq!(metadata.connection_id, 1);
    assert_eq!(metadata.cf_ray.as_deref(), Some("abc"));
    assert_eq!(metadata.downstream_http_version, "HTTP/1.1");
    assert_eq!(metadata.downstream_handshake, "http1_upgrade");
    let Ok((second, action)) = AcceptSession::begin(false, &connect_request(), &mut observability)
    else {
        panic!("the request should be accepted");
    };
    assert_eq!(action, AcceptAction::ConnectBackend);
    assert_eq!(second.connection_id(), 2);
}

#[test]
fn an_extended_connect_is_answered_without_an_upgrade() {
    let mut observability = diagnostic();
    let Ok((mut session, _)) = AcceptSession::begin(false, &connect_request(), &mut observability)
    else {
        panic!("the request should be accepted");
    };
    assert!(matches!(
        session.on_backend(BackendOutcome::Connected, &mut observability),
        Ok(AcceptAction::AnswerOk)
    ));
}

#[test]
fn acceptance_can_fail() {
    let mut observability = diagnostic();
    assert!(matches!(
        AcceptSession::begin(true, &upgrade_request(), &mut observability),
        Err(AcceptError::ShuttingDown)
    ));
    assert_eq!(observability.next_websocket_connection_id, 1);
    let Ok((mut session, _)) = AcceptSession::begin(false, &upgrade_request(), &mut observability)
    else {
        panic!("the request should be accepted");
    };
    assert!(matches!(
        session.on_upgrade_prepared(Some("no key".to_owned())),
        Err(AcceptError::InvalidHandshake(reason)) if reason == "no key"
    ));
    for (outcome, status) in [
        (BackendOutcome::Failed("refused".to_owned()), 502),
        (BackendOutcome::TimedOut, 502),
        (BackendOutcome::ShuttingDown, 503),
    ] {
        let Ok((mut session, _)) =
            AcceptSession::begin(false, &connect_request(), &mut observability)
        else {
            panic!("the request should be accepted");
        };
        match session.on_backend(outcome, &mut observability) {
            Ok(_) => panic!("the request should be refused"),
            Err(error) => assert_eq!(error.status(), status),
        }
    }
    assert_eq!(observability.counters.websocket_backend_connect_failures_total, 1);
    assert_eq!(observability.counters.websocket_backend_connect_timeouts_total, 1);
}

#[test]
fn only_the_backends_of_uat_routes_are_told_of_the_client() {
    let spec = |id: &str, path: &str| RouteSpec {
        id: id.to_owned(),
        path: path.to_owned(),
        backend: "ws://127.0.0.1:9000/socket".to_owned(),
        enabled: true,
    };
    let Ok(table) = RouteTable::build(vec![spec("uat", "/api/uat/a"), spec("pc", "/api/pc/a")])
    else {
        panic!("the table should be accepted");
    };
    let metadata = BackendHandshakeMetadata {
        transport_connection_id: 4,
        connection_id: 7,
        peer: SocketAddr::new(IpAddr::V4([10, 0, 0, 1]), 5000),
        cf_ray: Some("abc".to_owned()),
        downstream_http_version: "HTTP/2",
        downstream_handshake: "rfc8441_extended_connect",
    };
    let headers = |path: &str, metadata: &BackendHandshakeMetadata| {
        let Some(route) = table.resolve(path) else {
            panic!("the route should be found");
        };
        let Some(endpoint) = route.backend().websocket() else {
            panic!("a WebSocket backend is expected");
        };
        let handshake = backend_handshake_with_key(&route, endpoint, metadata, "key");
        assert_eq!(handshake.method, "GET");
        assert_eq!(handshake.target, "/socket");
        handshake
            .headers
            .into_iter()
            .map(|(name, value)| format!("{name}: {value}"))
            .collect::<Vec<_>>()
    };
    let Some(pc) = table.resolve("/api/pc/a") else {
        panic!("the route should be found");
    };
    let Some(endpoint) = pc.backend().websocket() else {
        panic!("a WebSocket backend is expected");
    };
    let handshake = backend_handshake(&pc, endpoint, &metadata);
    assert_eq!(handshake.method, "GET");
    assert_eq!(handshake.target, "/socket");
    let with_own_key = handshake.headers;
    assert_eq!(with_own_key.len(), 5);
    assert_eq!(with_own_key[0], ("host".to_owned(), "127.0.0.1:9000".to_owned()));
    let (name, key) = &with_own_key[3];
    assert_eq!(name, "sec-websocket-key");
    assert_eq!(key.len(), 24);
    assert!(key.ends_with("==") && !key[..22].contains('='));
    assert_ne!(key, &backend_handshake(&pc, endpoint, &metadata).headers[3].1);
    let base = [
        "host: 127.0.0.1:9000",
        "upgrade: websocket",
        "connection: upgrade",
        "sec-websocket-key: key",
        "sec-websocket-version: 13",
    ];
    let traced = [
        "x-edge-gateway-ingress-transport-id: 4",
        "x-edge-gateway-websocket-id: 7",
        "x-edge-gateway-ingress-peer: 10.0.0.1:5000",
        "x-edge-gateway-downstream-http-version: HTTP/2",
        "x-edge-gateway-downstream-handshake: rfc8441_extended_connect",
    ];
    assert_eq!(headers("/api/pc/a", &metadata), base);
    let mut expected = base.to_vec();
    expected.extend_from_slice(&traced);
    let without_ray = BackendHandshakeMetadata { cf_ray: None, ..metadata };
    assert_eq!(headers("/api/uat/a", &without_ray), expected);
    expected.push("x-edge-gateway-cf-ray: abc");
    let with_ray = BackendHandshakeMetadata { cf_ray: Some("abc".to_owned()), ..without_ray };
    assert_eq!(headers("/api/uat/a", &with_ray), expected);
}

#[test]
fn only_upgraded_clients_are_relayed() {
    let mut observability = diagnostic();
    assert!(on_downstream_upgrade(UpgradeOutcome::Upgraded, &mut observability));
    assert!(!on_downstream_upgrade(UpgradeOutcome::Failed, &mut observability));
    assert!(!on_downstream_upgrade(UpgradeOutcome::TimedOut, &mut observability));
    assert_eq!(observability.counters.websocket_upgrade_failures_total, 1);
    assert_eq!(observability.counters.websocket_upgrade_timeouts_total, 1);
}
