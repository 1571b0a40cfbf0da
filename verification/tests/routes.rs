use edge_gateway::http::uri::UriParts;
use edge_gateway::net::{IpAddr, SocketAddr};
use edge_gateway::routes::{
    parse_loopback_authority, validate_id, validate_public_path, BackendEndpoint, BackendKind,
    RouteError, RouteNamespace, RouteSpec, RouteTable, TcpBackendEndpoint,
    WebSocketBackendEndpoint,
};

fn spec(id: &str, path: &str, backend: &str, enabled: bool) -> RouteSpec {
    RouteSpec {
        id: id.to_owned(),
        path: path.to_owned(),
        backend: backend.to_owned(),
        enabled,
    }
}

fn build_error(specs: Vec<RouteSpec>) -> String {
    match RouteTable::build(specs) {
        Ok(_) => panic!("the table should be refused"),
        Err(error) => error.message(),
    }
}

fn backend_error(backend: &str) -> String {
    match BackendEndpoint::parse(backend) {
        Ok(_) => panic!("{backend:?} should be refused"),
        Err(error) => error.message(),
    }
}

#[test]
fn custom_absolute_paths_are_allowed() {
    assert!(matches!(
        validate_public_path("/hsin_tiao"),
        Ok(RouteNamespace::Custom)
    ));
    assert!(matches!(
        validate_public_path("/api/wechat-ws"),
        Ok(RouteNamespace::Custom)
    ));
    assert!(matches!(
        validate_public_path("/api/pc/socket"),
        Ok(RouteNamespace::Pc)
    ));
}

#[test]
fn unsafe_or_ambiguous_paths_remain_rejected() {
    for path in ["relative", "/a//b", "/a/../b", "/a/./b", "/a?x=1", "/a#frag", "/a\\b"] {
        assert!(
            validate_public_path(path).is_err(),
            "{path:?} should be rejected"
        );
    }
}

#[test]
fn websocket_backend_remains_supported() {
    let parsed = BackendEndpoint::parse("ws://127.0.0.1:9000/socket");
    assert!(parsed.is_ok());
    let Ok(backend) = parsed else {
        return;
    };
    assert_eq!(backend.kind(), BackendKind::WebSocket);
    assert_eq!(backend.address().to_string(), "127.0.0.1:9000");
    assert_eq!(
        backend.websocket().map(|endpoint| endpoint.request_target().to_string()),
        Some("/socket".to_owned())
    );
}

#[test]
fn tcp_backend_is_supported_without_protocol_rewrapping() {
    let parsed = BackendEndpoint::parse("tcp://127.0.0.1:33301");
    assert!(parsed.is_ok());
    let Ok(backend) = parsed else {
        return;
    };
    assert_eq!(backend.kind(), BackendKind::Tcp);
    assert_eq!(backend.address().to_string(), "127.0.0.1:33301");
    assert!(backend.websocket().is_none());
}

#[test]
fn tcp_backend_requires_loopback_explicit_port_and_no_path() {
    for backend in [
        "tcp://127.0.0.1",
        "tcp://10.0.0.1:33301",
        "tcp://127.0.0.1:33301/path",
        "tcp://127.0.0.1:33301/?x=1",
    ] {
        assert!(
            BackendEndpoint::parse(backend).is_err(),
            "{backend:?} should be rejected"
        );
    }
}

#[test]
fn namespaces_follow_the_prefix() {
    for (path, namespace, name) in [
        ("/api/pc/a", RouteNamespace::Pc, "pc"),
        ("/api/mob/a", RouteNamespace::Mobile, "mob"),
        ("/api/uat/a", RouteNamespace::Uat, "uat"),
        ("/api/pc", RouteNamespace::Custom, "custom"),
    ] {
        let Ok(found) = validate_public_path(path) else {
            panic!("{path:?} should be accepted");
        };
        assert_eq!(found, namespace);
        assert_eq!(found.as_str(), name);
    }
}

#[test]
fn ids_are_checked() {
    assert!(validate_id("a.b_c-9").is_ok());
    assert!(matches!(validate_id(""), Err(RouteError::EmptyId)));
    assert!(matches!(validate_id("   "), Err(RouteError::InvalidId(_))));
    let long = "a".repeat(129);
    assert!(matches!(validate_id(&long), Err(RouteError::IdTooLong(id)) if id == long));
    assert!(validate_id(&"a".repeat(128)).is_ok());
    assert!(matches!(validate_id("a b"), Err(RouteError::InvalidId(id)) if id == "a b"));
    assert!(matches!(validate_id("a\u{7}"), Err(RouteError::InvalidId(_))));
    assert!(validate_id("\u{e4}").is_ok());
    // The limit is one on bytes.
    assert!(matches!(validate_id(&"\u{e4}".repeat(65)), Err(RouteError::IdTooLong(_))));
}

#[test]
fn long_paths_are_refused() {
    let longest = format!("/{}", "a".repeat(2047));
    assert!(validate_public_path(&longest).is_ok());
    let longer = format!("/{}", "a".repeat(2048));
    assert!(matches!(validate_public_path(&longer), Err(RouteError::PathTooLong(_))));
}

#[test]
fn a_websocket_backend_without_port_uses_the_default_port() {
    let Ok(backend) = BackendEndpoint::parse("ws://127.0.0.1/a?b=c") else {
        panic!("the backend should be accepted");
    };
    assert_eq!(backend.address().to_string(), "127.0.0.1:80");
    assert_eq!(backend.display(), "ws://127.0.0.1/a?b=c");
    let Some(endpoint) = backend.websocket() else {
        panic!("a WebSocket backend is expected");
    };
    assert_eq!(endpoint.request_target(), "/a?b=c");
    assert_eq!(endpoint.host_header(), "127.0.0.1");
    assert_eq!(endpoint.display(), "ws://127.0.0.1/a?b=c");
    assert_eq!(endpoint.address().to_string(), "127.0.0.1:80");
}

#[test]
fn a_tcp_backend_keeps_its_text_and_address() {
    let Ok(backend) = BackendEndpoint::parse("tcp://127.8.9.10:7000/") else {
        panic!("the backend should be accepted");
    };
    let BackendEndpoint::Tcp(endpoint) = &backend else {
        panic!("a TCP backend is expected");
    };
    assert_eq!(endpoint.display(), "tcp://127.8.9.10:7000/");
    assert_eq!(backend.display(), "tcp://127.8.9.10:7000/");
    assert_eq!(endpoint.address().to_string(), "127.8.9.10:7000");
}

#[test]
fn backend_refusals_name_their_reason() {
    for (backend, reason) in [
        ("not a uri", "invalid uri character"),
        ("http://127.0.0.1:1/", "unsupported scheme \"http\"; expected ws or tcp"),
        ("/path", "scheme is required; expected ws or tcp"),
        ("ws://10.1.2.3:80/", "host must be a loopback address"),
        ("ws://localhost:80/", "host must be an IPv4 or IPv6 loopback address"),
        ("ws://[::1]:80/", "host must be an IPv4 or IPv6 loopback address"),
        ("tcp://127.0.0.1", "an explicit port is required"),
        ("tcp://127.0.0.1:1/a", "tcp backend URL must not contain a path or query"),
        ("ws://user@127.0.0.1:80/", "userinfo is not allowed"),
    ] {
        assert_eq!(
            backend_error(backend),
            format!("invalid backend {backend:?}: {reason}")
        );
    }
}

#[test]
fn refusals_of_routes_are_spelled_out() {
    let long_id = "a".repeat(129);
    let long_path = format!("/{}", "a".repeat(2048));
    for (id, path, message) in [
        ("", "/a", "route id must not be empty".to_owned()),
        (&*long_id, "/a", format!("route id {long_id:?} exceeds 128 bytes")),
        ("a b", "/a", "route id \"a b\" contains control or whitespace characters".to_owned()),
        (
            "a",
            "a",
            "route path \"a\" must be an exact absolute path without empty/dot segments, query, \
             fragment, backslash, whitespace, or control characters"
                .to_owned(),
        ),
        ("a", &*long_path, format!("route path {long_path:?} exceeds 2048 bytes")),
    ] {
        assert_eq!(
            build_error(vec![spec(id, path, "ws://127.0.0.1:1/", true)]),
            message
        );
    }
    assert_eq!(
        build_error(vec![
            spec("one", "/one", "ws://127.0.0.1:1/", true),
            spec("one", "/two", "ws://127.0.0.1:1/", true),
        ]),
        "duplicate route id \"one\""
    );
    assert_eq!(
        build_error(vec![
            spec("one", "/\u{e4}\"", "ws://127.0.0.1:1/", true),
            spec("two", "/\u{e4}\"", "ws://127.0.0.1:1/", true),
        ]),
        format!("duplicate route path {:?}", "/\u{e4}\"")
    );
}

#[test]
fn the_root_path_is_a_custom_path() {
    assert!(matches!(validate_public_path("/"), Ok(RouteNamespace::Custom)));
    assert!(validate_public_path("/a/").is_err());
}

#[test]
fn parsed_parts_are_enough_for_a_backend() {
    let uri = UriParts {
        scheme: Some("tcp".to_owned()),
        authority: Some("127.0.0.1:9".to_owned()),
        host: Some("127.0.0.1".to_owned()),
        port: Some(9),
        path_and_query: None,
        text: "tcp://127.0.0.1:9".to_owned(),
    };
    let Ok(endpoint) = TcpBackendEndpoint::from_uri("tcp://127.0.0.1:9", &uri) else {
        panic!("the backend should be accepted");
    };
    assert_eq!(
        endpoint.address(),
        SocketAddr::new(IpAddr::V4([127, 0, 0, 1]), 9)
    );
    assert!(BackendEndpoint::from_uri("tcp://127.0.0.1:9", &uri).is_ok());
    let Ok((address, authority)) =
        parse_loopback_authority("tcp://127.0.0.1:9", &uri, None, true)
    else {
        panic!("the authority should be accepted");
    };
    assert_eq!(address.to_string(), "127.0.0.1:9");
    assert_eq!(authority, "127.0.0.1:9");
    assert!(WebSocketBackendEndpoint::from_uri("tcp://127.0.0.1:9", &uri).is_ok());
}

#[test]
fn a_table_serves_its_enabled_routes() {
    let Ok(table) = RouteTable::build(vec![
        spec("one", "/one", "ws://127.0.0.1:1/", true),
        spec("two", "/two", "tcp://127.0.0.1:2", false),
        spec("three", "/api/uat/three", "tcp://127.0.0.1:3", true),
    ]) else {
        panic!("the table should be accepted");
    };
    assert_eq!(table.configured_count(), 3);
    assert_eq!(table.enabled_count(), 2);
    let Some(route) = table.resolve("/one") else {
        panic!("the route should be found");
    };
    assert_eq!(route.id(), "one");
    assert_eq!(route.path(), "/one");
    assert_eq!(route.namespace(), RouteNamespace::Custom);
    assert_eq!(route.backend().kind(), BackendKind::WebSocket);
    assert!(table.resolve("/two").is_none());
    assert!(table.resolve("/one/").is_none());
    assert_eq!(
        table.resolve("/api/uat/three").map(|route| route.namespace()),
        Some(RouteNamespace::Uat)
    );
}

#[test]
fn a_disabled_route_is_still_checked() {
    let message = build_error(vec![spec("one", "one", "ws://127.0.0.1:1/", false)]);
    assert!(message.contains("one"), "{message}");
}

#[test]
fn ids_and_paths_occur_once() {
    assert!(matches!(
        RouteTable::build(vec![
            spec("one", "/one", "ws://127.0.0.1:1/", true),
            spec("one", "/two", "ws://127.0.0.1:1/", true),
        ]),
        Err(RouteError::DuplicateId(id)) if id == "one"
    ));
    assert!(matches!(
        RouteTable::build(vec![
            spec("one", "/one", "ws://127.0.0.1:1/", false),
            spec("two", "/one", "ws://127.0.0.1:1/", true),
        ]),
        Err(RouteError::DuplicatePath(path)) if path == "/one"
    ));
}
