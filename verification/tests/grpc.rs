use edge_gateway::grpc::proxy::{
    can_sanitize, check_admission, grpc_failure_response, is_grpc_content_type, on_call, pass_on,
    remove_connection_specific_headers, request_body_is_over, sanitize_request_headers,
    sanitize_response_headers, BodyPoll, CallAction, CallEvent, CallPhase, GrpcProxyError,
    GrpcUpstreams, Refusal, ResponseStream,
};
use edge_gateway::grpc::routes::{
    is_proto_identifier, validate_grpc_path, validate_id, GrpcBackendEndpoint, GrpcRouteError,
    GrpcRouteSpec, GrpcRouteTable,
};
use edge_gateway::http::reply::Reply;
use edge_gateway::http::request::{HttpVersion, Method, RequestHead};
use hyper::header::{HeaderMap, HeaderName, HeaderValue};

fn headers(entries: &[(&str, &str)]) -> HeaderMap<HeaderValue> {
    let mut map = HeaderMap::new();
    for (name, value) in entries {
        map.append(
            HeaderName::from_bytes(name.as_bytes()).unwrap(),
            HeaderValue::from_str(value).unwrap(),
        );
    }
    map
}

fn request(entries: &[(&str, &str)]) -> RequestHead {
    RequestHead {
        version: HttpVersion::Http2,
        method: Method::Post,
        path: "/pkg.Service/Call".to_owned(),
        query: None,
        protocol: None,
        headers: headers(entries),
    }
}

fn spec(id: &str, path: &str, backend: &str, enabled: bool) -> GrpcRouteSpec {
    GrpcRouteSpec {
        id: id.to_owned(),
        path: path.to_owned(),
        backend: backend.to_owned(),
        enabled,
    }
}

fn table(specs: Vec<GrpcRouteSpec>) -> GrpcRouteTable {
    match GrpcRouteTable::build(specs) {
        Ok(table) => table,
        Err(error) => panic!("{}", error.message()),
    }
}

fn build_error(specs: Vec<GrpcRouteSpec>) -> String {
    match GrpcRouteTable::build(specs) {
        Ok(_) => panic!("the table should be refused"),
        Err(error) => error.message(),
    }
}

fn answer(reply: &Reply) -> (u16, bool, Vec<(&'static str, &'static str)>, &'static str) {
    (reply.status, reply.http2, reply.headers.clone(), reply.body)
}

#[test]
fn grpc_paths_name_a_service_and_a_method() {
    for path in ["/Service/Method", "/pkg.sub_1.Service/Method_2", "/_a/_b"] {
        assert!(validate_grpc_path(path).is_ok(), "{path:?}");
    }
    for path in [
        "", "/", "Service/Method", "/Service", "/Service/", "//Method", "/a/b/c", "/a..b/c",
        "/.a/b", "/1a/b", "/a/1b", "/a/b-c", "/a/b?x", "/a/b#x", "/a\\b/c", "/a /b", "/a/b\u{7}",
        "/\u{e4}/b",
    ] {
        assert!(
            matches!(validate_grpc_path(path), Err(GrpcRouteError::InvalidPath(p)) if p == path),
            "{path:?}"
        );
    }
    let long = format!("/a/{}", "b".repeat(2046));
    assert!(matches!(validate_grpc_path(&long), Err(GrpcRouteError::PathTooLong(_))));
    assert!(validate_grpc_path(&long[..2048]).is_ok());
}

#[test]
fn identifiers() {
    for value in ["a", "_", "A9_z"] {
        assert!(is_proto_identifier(value), "{value:?}");
    }
    for value in ["", "9", "a-b", "a.b", "\u{e4}"] {
        assert!(!is_proto_identifier(value), "{value:?}");
    }
}

#[test]
fn grpc_ids_are_checked() {
    assert!(validate_id("a").is_ok());
    assert!(matches!(validate_id(""), Err(GrpcRouteError::EmptyId)));
    assert!(matches!(validate_id(&"a".repeat(129)), Err(GrpcRouteError::IdTooLong(_))));
    assert!(matches!(validate_id("a\tb"), Err(GrpcRouteError::InvalidId(_))));
}

#[test]
fn grpc_backends() {
    let Ok(endpoint) = GrpcBackendEndpoint::parse("h2c://127.0.0.1:50051") else {
        panic!("the backend should be accepted");
    };
    assert_eq!(endpoint.display(), "h2c://127.0.0.1:50051");
    assert_eq!(endpoint.address().to_string(), "127.0.0.1:50051");
    assert_eq!(endpoint.authority(), "127.0.0.1:50051");
    assert_eq!(endpoint.host_header(), "127.0.0.1:50051");
    for (backend, reason) in [
        ("a b", "invalid uri character"),
        ("http://127.0.0.1:1", "scheme must be h2c"),
        ("/a", "scheme must be h2c"),
        ("h2c://u@127.0.0.1:1", "userinfo is not allowed"),
        ("h2c://example.com:1", "host must be an IPv4 or IPv6 loopback address"),
        ("h2c://8.8.8.8:1", "host must be a loopback address"),
        ("h2c://127.0.0.1", "an explicit port is required"),
        ("h2c://127.0.0.1:1/a", "backend URL must not contain a path or query"),
    ] {
        match GrpcBackendEndpoint::parse(backend) {
            Ok(_) => panic!("{backend:?} should be refused"),
            Err(error) => assert_eq!(
                error.message(),
                format!("invalid gRPC backend {backend:?}: {reason}")
            ),
        }
    }
}

#[test]
fn a_grpc_table_serves_its_enabled_routes() {
    let table = table(vec![
        spec("one", "/a.B/C", "h2c://127.0.0.1:1", true),
        spec("two", "/a.B/D", "h2c://127.0.0.1:1", true),
        spec("three", "/a.B/E", "h2c://127.0.0.1:2", false),
    ]);
    assert_eq!(table.configured_count(), 3);
    assert_eq!(table.enabled_count(), 2);
    assert_eq!(table.enabled_routes().len(), 2);
    let Some(route) = table.resolve("/a.B/D") else {
        panic!("the route should be found");
    };
    assert_eq!(route.id(), "two");
    assert_eq!(route.path(), "/a.B/D");
    assert_eq!(route.backend().display(), "h2c://127.0.0.1:1");
    assert_eq!(route.upstream_uri(), "http://127.0.0.1:1/a.B/D");
    assert!(table.resolve("/a.B/E").is_none());
    assert!(table.resolve("/a.B").is_none());
}

#[test]
fn grpc_refusals_are_spelled_out() {
    let long_id = "i".repeat(129);
    let long_path = format!("/a/{}", "b".repeat(2046));
    for (id, path, message) in [
        ("", "/a/b", "gRPC route id must not be empty".to_owned()),
        (&*long_id, "/a/b", format!("gRPC route id {long_id:?} exceeds 128 bytes")),
        (
            "a b",
            "/a/b",
            "gRPC route id \"a b\" contains control or whitespace characters".to_owned(),
        ),
        (
            "a",
            "/a",
            "gRPC route path \"/a\" must use the exact /{package}.{Service}/{Method} form"
                .to_owned(),
        ),
        ("a", &*long_path, format!("gRPC route path {long_path:?} exceeds 2048 bytes")),
    ] {
        assert_eq!(
            build_error(vec![spec(id, path, "h2c://127.0.0.1:1", true)]),
            message
        );
    }
    assert_eq!(
        build_error(vec![
            spec("one", "/a/b", "h2c://127.0.0.1:1", true),
            spec("one", "/a/c", "h2c://127.0.0.1:1", true),
        ]),
        "duplicate gRPC route id \"one\""
    );
    assert_eq!(
        build_error(vec![
            spec("one", "/a/b", "h2c://127.0.0.1:1", false),
            spec("two", "/a/b", "h2c://127.0.0.1:1", true),
        ]),
        "duplicate gRPC route path \"/a/b\""
    );
}

#[test]
fn content_types_of_grpc() {
    for value in [
        "application/grpc",
        "Application/GRPC; charset=utf-8",
        " application/grpc+proto ;x=y",
        "application/grpc+json",
    ] {
        assert!(is_grpc_content_type(&headers(&[("content-type", value)])), "{value:?}");
    }
    for value in ["", "application/grpc+", "application/grpc-web", "text/plain", "xapplication/grpc"] {
        assert!(!is_grpc_content_type(&headers(&[("content-type", value)])), "{value:?}");
    }
    assert!(!is_grpc_content_type(&headers(&[])));
    let mut opaque = HeaderMap::new();
    opaque.insert("content-type", HeaderValue::from_bytes(b"application/grpc\xff").unwrap());
    assert!(!is_grpc_content_type(&opaque));
}

#[test]
fn requests_are_admitted_in_order_of_the_rules() {
    let good = [("content-type", "application/grpc")];
    assert_eq!(check_admission(false, &request(&good)), None);
    assert_eq!(check_admission(true, &request(&good)), Some(Refusal::ShuttingDown));
    let mut old = request(&good);
    old.version = HttpVersion::Http11;
    assert_eq!(check_admission(false, &old), Some(Refusal::Http2Required));
    let mut get = request(&good);
    get.method = Method::Get;
    assert_eq!(check_admission(false, &get), Some(Refusal::PostRequired));
    let mut query = request(&good);
    query.query = Some(String::new());
    assert_eq!(check_admission(false, &query), Some(Refusal::QueryNotAllowed));
    assert_eq!(check_admission(false, &request(&[])), Some(Refusal::ContentTypeRequired));
}

#[test]
fn refusals_have_their_answers() {
    let text = vec![("content-type", "text/plain; charset=utf-8")];
    let grpc = |status, message| {
        vec![
            ("content-type", "application/grpc"),
            ("grpc-status", status),
            ("grpc-message", message),
        ]
    };
    assert_eq!(
        answer(&Refusal::ShuttingDown.response()),
        (200, true, grpc("14", "gateway%20shutting%20down"), "")
    );
    assert_eq!(
        answer(&Refusal::Http2Required.response()),
        (505, false, text.clone(), "HTTP/2 required\n")
    );
    assert_eq!(
        answer(&Refusal::PostRequired.response()),
        (405, false, text.clone(), "POST required\n")
    );
    assert_eq!(
        answer(&Refusal::QueryNotAllowed.response()),
        (400, false, text.clone(), "query string is not allowed\n")
    );
    assert_eq!(
        answer(&Refusal::ContentTypeRequired.response()),
        (415, false, text, "application/grpc content-type required\n")
    );
    assert_eq!(
        answer(&Refusal::UpstreamUnavailable.response()),
        (200, true, grpc("14", "upstream%20unavailable"), "")
    );
    assert_eq!(
        answer(&Refusal::ConcurrencyLimit.response()),
        (200, true, grpc("8", "upstream%20concurrency%20limit%20reached"), "")
    );
    assert_eq!(
        answer(&grpc_failure_response("2", "unknown")),
        (200, true, grpc("2", "unknown"), "")
    );
}

#[test]
fn request_headers_are_rewritten_for_the_backend() {
    let Ok(endpoint) = GrpcBackendEndpoint::parse("h2c://127.0.0.1:50051") else {
        panic!("the backend should be accepted");
    };
    let mut map = headers(&[
        ("host", "example.com"),
        ("connection", "close"),
        ("te", "gzip"),
        ("te", "deflate"),
        ("transfer-encoding", "chunked"),
        ("upgrade", "h2c"),
        ("keep-alive", "1"),
        ("proxy-connection", "x"),
        ("x-user", "one"),
        ("x-user", "two"),
    ]);
    assert!(can_sanitize(&map));
    sanitize_request_headers(&mut map, &endpoint);
    assert_eq!(
        map,
        headers(&[
            ("host", "127.0.0.1:50051"),
            ("te", "trailers"),
            ("x-user", "one"),
            ("x-user", "two"),
        ])
    );
}

#[test]
fn response_headers_lose_what_concerns_one_connection() {
    let entries = [
        ("connection", "close"),
        ("te", "trailers"),
        ("transfer-encoding", "chunked"),
        ("upgrade", "h2c"),
        ("keep-alive", "1"),
        ("proxy-connection", "x"),
        ("grpc-status", "0"),
    ];
    let mut map = headers(&entries);
    sanitize_response_headers(&mut map);
    assert_eq!(map, headers(&[("grpc-status", "0")]));
    let mut map = headers(&entries);
    remove_connection_specific_headers(&mut map);
    assert_eq!(map, headers(&[("grpc-status", "0")]));
}

#[test]
fn each_backend_has_one_upstream() {
    let table = table(vec![
        spec("one", "/a/b", "h2c://127.0.0.1:1", true),
        spec("two", "/a/c", "h2c://127.0.0.1:2", true),
        spec("three", "/a/d", "h2c://127.0.0.1:1", true),
        spec("four", "/a/e", "h2c://127.0.0.1:3", false),
    ]);
    let upstreams = GrpcUpstreams::new(&table);
    assert_eq!(upstreams.len(), 2);
    for route in table.enabled_routes() {
        let Some(i) = upstreams.find(&route.backend().address()) else {
            panic!("every enabled route has an upstream");
        };
        assert_eq!(upstreams.backend(i).address(), route.backend().address());
    }
    let Ok(other) = GrpcBackendEndpoint::parse("h2c://127.0.0.1:3") else {
        panic!("the backend should be accepted");
    };
    assert_eq!(upstreams.find(&other.address()), None);
}

#[test]
fn a_call_connects_only_after_a_second_look() {
    let mut phase = CallPhase::LookingUp;
    assert!(phase.expects(&CallEvent::NoConnection));
    assert!(matches!(phase.on_event(CallEvent::NoConnection), CallAction::AcquireGate));
    assert!(matches!(phase.on_event(CallEvent::GateOpened), CallAction::LookUp));
    assert!(matches!(phase.on_event(CallEvent::NoConnection), CallAction::Connect));
    assert!(!phase.expects(&CallEvent::Ready));
    assert!(matches!(phase.on_event(CallEvent::Connected), CallAction::KeepConnection));
    assert!(!phase.expects(&CallEvent::Ready));
    assert!(matches!(phase.on_event(CallEvent::ConnectionKept), CallAction::AwaitReady));
    assert_eq!(phase, CallPhase::AwaitingReady);
    assert!(matches!(phase.on_event(CallEvent::Ready), CallAction::Send));
    assert!(matches!(phase.on_event(CallEvent::ResponseReceived), CallAction::Respond));
    assert_eq!(phase, CallPhase::Done);
}

#[test]
fn a_call_uses_a_connection_that_is_there() {
    let mut phase = CallPhase::LookingUp;
    assert!(matches!(phase.on_event(CallEvent::ConnectionFound), CallAction::AwaitReady));
    assert_eq!(phase, CallPhase::AwaitingReady);
}

#[test]
fn calls_fail_with_their_reason() {
    fn failure(start: CallPhase, event: CallEvent) -> String {
        let mut phase = start;
        assert!(phase.expects(&event));
        match phase.on_event(event) {
            CallAction::Fail(error) => error.message(),
            _ => panic!("the call should fail"),
        }
    }
    let reason = || "reason".to_owned();
    assert_eq!(
        failure(CallPhase::AwaitingGate, CallEvent::Shutdown),
        "gateway is shutting down"
    );
    assert_eq!(
        failure(CallPhase::AwaitingGate, CallEvent::GateClosed),
        "gateway is shutting down"
    );
    assert_eq!(
        failure(CallPhase::Connecting, CallEvent::ConnectTimedOut),
        "gRPC upstream connection timed out"
    );
    assert_eq!(
        failure(CallPhase::Connecting, CallEvent::ConnectFailed(reason())),
        "failed to connect to gRPC upstream: reason"
    );
    assert_eq!(
        failure(CallPhase::Connecting, CallEvent::SocketFailed(reason())),
        "failed to configure gRPC upstream socket: reason"
    );
    assert_eq!(
        failure(CallPhase::Connecting, CallEvent::HandshakeFailed(reason())),
        "gRPC upstream HTTP/2 handshake failed: reason"
    );
    assert_eq!(
        failure(CallPhase::AwaitingReady, CallEvent::UpstreamFailed(reason())),
        "gRPC upstream HTTP/2 request failed: reason"
    );
    assert_eq!(
        failure(CallPhase::Sending, CallEvent::Shutdown),
        "gateway is shutting down"
    );
    assert_eq!(GrpcProxyError::ShuttingDown.message(), "gateway is shutting down");
}

#[test]
fn request_bodies_end_with_their_last_frame_or_an_error() {
    assert!(!request_body_is_over(BodyPoll::Pending));
    assert!(!request_body_is_over(BodyPoll::Frame));
    assert!(request_body_is_over(BodyPoll::End));
    assert!(request_body_is_over(BodyPoll::Error));
}

#[test]
fn response_streams_finish_once() {
    let mut stream = ResponseStream::new();
    assert_eq!(stream.on_poll(BodyPoll::Pending), None);
    assert_eq!(stream.on_poll(BodyPoll::Frame), None);
    assert_eq!(stream.on_poll(BodyPoll::End), Some("complete"));
    assert_eq!(stream.on_poll(BodyPoll::End), None);
    assert_eq!(stream.on_drop(), None);
    let mut stream = ResponseStream::new();
    assert_eq!(stream.on_poll(BodyPoll::Error), Some("upstream_error"));
    assert_eq!(stream.finish("again"), None);
    let mut stream = ResponseStream::new();
    assert_eq!(stream.on_drop(), Some("downstream_cancelled"));
}

#[test]
fn a_request_finds_its_upstream() {
    let table = table(vec![
        spec("one", "/a/b", "h2c://127.0.0.1:1", true),
        spec("two", "/a/c", "h2c://127.0.0.1:2", true),
    ]);
    let upstreams = GrpcUpstreams::new(&table);
    let Some(route) = table.resolve("/a/c") else {
        panic!("the route should be found");
    };
    let good = request(&[("content-type", "application/grpc"), ("te", "gzip")]);
    let Ok(i) = upstreams.select(false, &good, &route) else {
        panic!("the request should be taken");
    };
    assert_eq!(upstreams.backend(i).display(), "h2c://127.0.0.1:2");
    assert_eq!(upstreams.select(true, &good, &route), Err(Refusal::ShuttingDown));
    let others = GrpcUpstreams::new(&crate::table(vec![spec(
        "one",
        "/a/b",
        "h2c://127.0.0.1:1",
        true,
    )]));
    assert_eq!(others.select(false, &good, &route), Err(Refusal::UpstreamUnavailable));

    let mut head = request(&[("content-type", "application/grpc"), ("te", "gzip")]);
    head.protocol = Some("x".to_owned());
    assert_eq!(pass_on(&route, &mut head, false), Err(Refusal::ConcurrencyLimit));
    assert_eq!(head.protocol.as_deref(), Some("x"));
    assert_eq!(
        pass_on(&route, &mut head, true),
        Ok("http://127.0.0.1:2/a/c".to_owned())
    );
    assert_eq!(head.version, HttpVersion::Http2);
    assert_eq!(head.protocol, None);
    assert_eq!(
        head.headers,
        headers(&[
            ("content-type", "application/grpc"),
            ("host", "127.0.0.1:2"),
            ("te", "trailers"),
        ])
    );
}

#[test]
fn a_failed_call_is_answered_as_unavailable() {
    let mut map = headers(&[("connection", "close"), ("grpc-status", "0")]);
    let mut version = HttpVersion::Http11;
    assert_eq!(
        on_call(Err(GrpcProxyError::ConnectTimeout), &mut version, &mut map),
        Some(Refusal::UpstreamUnavailable)
    );
    assert_eq!(version, HttpVersion::Http11);
    assert_eq!(map, headers(&[("connection", "close"), ("grpc-status", "0")]));
    assert_eq!(on_call(Ok(()), &mut version, &mut map), None);
    assert_eq!(version, HttpVersion::Http2);
    assert_eq!(map, headers(&[("grpc-status", "0")]));
}
