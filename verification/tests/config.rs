use edge_gateway::config::acme::{
    default_acme_check_interval_hours, default_acme_fallback_renew_before_days,
    default_acme_http01_listen, default_acme_state_dir, AcmeConfig, AcmeEnvironment,
    FileAcmeCertificateConfig, FileAcmeConfig, FileAcmeEnvironment,
};
use edge_gateway::config::domain::normalize_domain;
use edge_gateway::config::error::{
    resolve_config_path, validate_certificate_id, validate_count, validate_path,
    validate_seconds, validate_size, validate_suffix, ConfigError,
};
use edge_gateway::config::observability::{
    FileObservabilityConfig, FileObservabilityMode, ObservabilityConfig, ObservabilityMode,
};
use edge_gateway::config::server::{
    default_backend_connect_timeout_seconds, default_max_grpc_concurrent_streams_per_backend,
    default_max_websocket_message_size_bytes, default_shutdown_grace_seconds,
    default_tls_handshake_timeout_seconds, default_websocket_upgrade_timeout_seconds,
    FileServerConfig,
};
use edge_gateway::config::tls::{
    default_tls_cert_suffix, default_tls_key_suffix, FileTlsConfig,
};
use edge_gateway::config::{
    default_route_enabled, FileConfig, FileGrpcRouteConfig, FileRouteConfig,
};
use edge_gateway::net::{IpAddr, SocketAddr};
use edge_gateway::time::Duration;

fn server() -> FileServerConfig {
    FileServerConfig {
        listen: SocketAddr::new(IpAddr::V4([0, 0, 0, 0]), 443),
        tls_handshake_timeout_seconds: default_tls_handshake_timeout_seconds(),
        websocket_upgrade_timeout_seconds: default_websocket_upgrade_timeout_seconds(),
        backend_connect_timeout_seconds: default_backend_connect_timeout_seconds(),
        shutdown_grace_seconds: default_shutdown_grace_seconds(),
        max_websocket_message_size_bytes: default_max_websocket_message_size_bytes(),
        max_grpc_concurrent_streams_per_backend: default_max_grpc_concurrent_streams_per_backend(),
    }
}

fn tls() -> FileTlsConfig {
    FileTlsConfig {
        cert_dir: "certs".to_owned(),
        cert_suffix: default_tls_cert_suffix(),
        key_suffix: default_tls_key_suffix(),
        default_certificate: None,
    }
}

fn acme(certificates: &[(&str, &[&str])]) -> FileAcmeConfig {
    FileAcmeConfig {
        enabled: true,
        http01_listen: default_acme_http01_listen(),
        email: Some(" ops@example.com ".to_owned()),
        environment: FileAcmeEnvironment::Staging,
        state_dir: default_acme_state_dir(),
        fallback_renew_before_days: default_acme_fallback_renew_before_days(),
        check_interval_hours: default_acme_check_interval_hours(),
        certificates: certificates
            .iter()
            .map(|(id, domains)| FileAcmeCertificateConfig {
                id: (*id).to_owned(),
                domains: domains.iter().map(|domain| (*domain).to_owned()).collect(),
            })
            .collect(),
    }
}

fn observability() -> FileObservabilityConfig {
    FileObservabilityConfig {
        mode: FileObservabilityMode::Production,
        summary_interval_seconds: 60,
        summary_file: "summary.json".to_owned(),
        diagnostic_interval_seconds: 5,
        diagnostic_file: "/var/diagnostic.json".to_owned(),
        connection_event_logs_enabled: true,
    }
}

fn file() -> FileConfig {
    FileConfig {
        server: server(),
        tls: tls(),
        acme: None,
        observability: None,
        routes: vec![FileRouteConfig {
            id: "ws".to_owned(),
            path: "/ws".to_owned(),
            backend: "ws://127.0.0.1:1/".to_owned(),
            enabled: default_route_enabled(),
        }],
        grpc_routes: vec![FileGrpcRouteConfig {
            id: "grpc".to_owned(),
            path: "/a.B/C".to_owned(),
            backend: "h2c://127.0.0.1:2".to_owned(),
            enabled: false,
        }],
    }
}

fn invalid(text: &str) -> String {
    format!("invalid configuration: {text}")
}

fn acme_error(config: FileAcmeConfig) -> String {
    match config.validate("/etc/gateway") {
        Ok(_) => panic!("the configuration should be refused"),
        Err(error) => error.message(),
    }
}

fn accepted_acme(config: FileAcmeConfig) -> AcmeConfig {
    match config.validate("/etc/gateway") {
        Ok(config) => config,
        Err(error) => panic!("{}", error.message()),
    }
}

fn message<T>(result: Result<T, ConfigError>) -> String {
    match result {
        Ok(_) => panic!("the value should be refused"),
        Err(error) => error.message(),
    }
}

#[test]
fn acme_domain_normalization_rejects_wildcards() {
    assert!(normalize_domain("*.example.com").is_err());
    assert!(normalize_domain("192.0.2.10").is_err());
    assert_eq!(
        normalize_domain("API.Example.COM."),
        Ok("api.example.com".to_owned())
    );
}

#[test]
fn tls_suffixes_must_not_overlap() {
    let result = FileTlsConfig {
        cert_dir: "certs".to_owned(),
        cert_suffix: ".pem".to_owned(),
        key_suffix: ".key.pem".to_owned(),
        default_certificate: None,
    }
    .validate(".");
    assert!(result.is_err());
}

#[test]
fn domains_are_refused_with_a_reason() {
    let long_label = format!("{}.com", "a".repeat(64));
    let long_name = vec!["a".repeat(60); 5].join(".");
    for (domain, reason) in [
        (" . ", "domain must not be empty"),
        ("*.a", "wildcard domains require DNS-01 and are not supported by built-in HTTP-01"),
        ("b\u{fc}cher.de", "domain must be an ASCII DNS name no longer than 253 characters"),
        (&*long_name, "domain must be an ASCII DNS name no longer than 253 characters"),
        ("::1", "IP identifiers are not supported by built-in ACME"),
        ("a..b", "DNS labels must contain between 1 and 63 characters"),
        (&*long_label, "DNS labels must contain between 1 and 63 characters"),
        ("-a.b", "DNS labels must not start or end with '-'"),
        ("a-.b", "DNS labels must not start or end with '-'"),
        ("a_b.c", "DNS labels may contain only ASCII letters, digits and '-'"),
    ] {
        assert_eq!(normalize_domain(domain), Err(reason), "{domain:?}");
    }
}

#[test]
fn normalization_is_idempotent() {
    for domain in [" API.Example.COM.. ", "a", "x-1.y"] {
        let Ok(name) = normalize_domain(domain) else {
            panic!("{domain:?} should be accepted");
        };
        assert_eq!(normalize_domain(&name), Ok(name));
    }
}

#[test]
fn numbers_have_bounds() {
    assert!(matches!(validate_seconds("f", 5, 5), Ok(d) if d == Duration::from_secs(5)));
    assert_eq!(
        message(validate_seconds("f", 0, 5)),
        invalid("f must be greater than zero")
    );
    assert_eq!(
        message(validate_seconds("f", 6, 5)),
        invalid("f must not exceed 5 seconds")
    );
    assert!(matches!(validate_size("f", 1, 5), Ok(1)));
    assert_eq!(
        message(validate_size("f", 0, 5)),
        invalid("f must be greater than zero")
    );
    assert_eq!(
        message(validate_size("f", 6, 5)),
        invalid("f must not exceed 5 bytes")
    );
    assert!(matches!(validate_count("f", 5, 5), Ok(5)));
    assert_eq!(
        message(validate_count("f", 0, 5)),
        invalid("f must be greater than zero")
    );
    assert_eq!(
        message(validate_count("f", 6, 5)),
        invalid("f must not exceed 5")
    );
}

#[test]
fn names_of_files_are_checked() {
    assert!(validate_path("f", "a").is_ok());
    assert_eq!(message(validate_path("f", "")), invalid("f must not be empty"));
    assert!(validate_suffix("f", ".pem").is_ok());
    assert_eq!(message(validate_suffix("f", "")), invalid("f must not be empty"));
    for suffix in ["a/b", "a\\b"] {
        assert_eq!(
            message(validate_suffix("f", suffix)),
            invalid("f must be a filename suffix, not a path")
        );
    }
    assert!(validate_certificate_id("f", "a.B-9_").is_ok());
    assert_eq!(
        message(validate_certificate_id("f", "")),
        invalid("f must not be empty")
    );
    assert_eq!(
        message(validate_certificate_id("f", "a b")),
        invalid("f may contain only ASCII letters, digits, '.', '-' and '_'")
    );
    assert_eq!(resolve_config_path("/etc", "a/b"), "/etc/a/b");
    assert_eq!(resolve_config_path("/etc", "/a/b"), "/a/b");
}

#[test]
fn tls_settings() {
    let mut settings = tls();
    settings.default_certificate = Some("main".to_owned());
    let Ok(settings) = settings.validate("/etc/gateway") else {
        panic!("the configuration should be accepted");
    };
    assert_eq!(settings.cert_dir(), "/etc/gateway/certs");
    assert_eq!(settings.cert_suffix(), ".fullchain.pem");
    assert_eq!(settings.key_suffix(), ".key.pem");
    assert_eq!(settings.default_certificate(), Some("main"));
    assert_eq!(settings.cert_path("main"), "/etc/gateway/certs/main.fullchain.pem");
    assert_eq!(settings.key_path("main"), "/etc/gateway/certs/main.key.pem");
    assert_ne!(settings.cert_path("a"), settings.key_path("a"));

    let mut empty = tls();
    empty.cert_dir = String::new();
    assert_eq!(message(empty.validate(".")), invalid("tls.cert_dir must not be empty"));
    let mut same = tls();
    same.cert_suffix = same.key_suffix.clone();
    assert_eq!(
        message(same.validate(".")),
        invalid("tls.cert_suffix and tls.key_suffix must be distinct and non-overlapping")
    );
    let mut id = tls();
    id.default_certificate = Some("a/b".to_owned());
    assert_eq!(
        message(id.validate(".")),
        invalid("tls.default_certificate may contain only ASCII letters, digits, '.', '-' and '_'")
    );
}

#[test]
fn server_settings() {
    let Ok(settings) = server().validate() else {
        panic!("the configuration should be accepted");
    };
    assert_eq!(settings.listen().to_string(), "0.0.0.0:443");
    assert_eq!(settings.tls_handshake_timeout(), Duration::from_secs(10));
    assert_eq!(settings.websocket_upgrade_timeout(), Duration::from_secs(10));
    assert_eq!(settings.backend_connect_timeout(), Duration::from_secs(10));
    assert_eq!(settings.shutdown_grace(), Duration::from_secs(30));
    assert_eq!(settings.max_websocket_message_size(), 1024 * 1024);
    assert_eq!(settings.max_grpc_concurrent_streams_per_backend(), 256);

    let mut file = server();
    file.tls_handshake_timeout_seconds = 301;
    assert_eq!(
        message(file.validate()),
        invalid("server.tls_handshake_timeout_seconds must not exceed 300 seconds")
    );
    let mut file = server();
    file.websocket_upgrade_timeout_seconds = 0;
    assert_eq!(
        message(file.validate()),
        invalid("server.websocket_upgrade_timeout_seconds must be greater than zero")
    );
    let mut file = server();
    file.backend_connect_timeout_seconds = 301;
    assert_eq!(
        message(file.validate()),
        invalid("server.backend_connect_timeout_seconds must not exceed 300 seconds")
    );
    let mut file = server();
    file.shutdown_grace_seconds = 601;
    assert_eq!(
        message(file.validate()),
        invalid("server.shutdown_grace_seconds must not exceed 600 seconds")
    );
    let mut file = server();
    file.max_websocket_message_size_bytes = 64 * 1024 * 1024 + 1;
    assert_eq!(
        message(file.validate()),
        invalid("server.max_websocket_message_size_bytes must not exceed 67108864 bytes")
    );
    let mut file = server();
    file.max_grpc_concurrent_streams_per_backend = 4097;
    assert_eq!(
        message(file.validate()),
        invalid("server.max_grpc_concurrent_streams_per_backend must not exceed 4096")
    );
}

#[test]
fn observability_settings() {
    let Ok(settings) = observability().validate("/etc/gateway") else {
        panic!("the configuration should be accepted");
    };
    assert_eq!(settings.mode(), ObservabilityMode::Production);
    assert_eq!(settings.summary_interval(), Duration::from_secs(60));
    assert_eq!(settings.summary_file(), "/etc/gateway/summary.json");
    assert_eq!(settings.diagnostic_interval(), Duration::from_secs(5));
    assert_eq!(settings.diagnostic_file(), "/var/diagnostic.json");
    assert!(settings.connection_event_logs_enabled());

    let mut file = observability();
    file.summary_interval_seconds = 86401;
    assert_eq!(
        message(file.validate(".")),
        invalid("observability.summary_interval_seconds must not exceed 86400 seconds")
    );
    let mut file = observability();
    file.diagnostic_interval_seconds = 0;
    assert_eq!(
        message(file.validate(".")),
        invalid("observability.diagnostic_interval_seconds must be greater than zero")
    );
    let mut file = observability();
    file.summary_file = String::new();
    assert_eq!(
        message(file.validate(".")),
        invalid("observability.summary_file must not be empty")
    );
    let mut file = observability();
    file.diagnostic_file = String::new();
    assert_eq!(
        message(file.validate(".")),
        invalid("observability.diagnostic_file must not be empty")
    );
    let off = ObservabilityConfig::off();
    assert_eq!(off.mode(), ObservabilityMode::Off);
    assert!(!off.connection_event_logs_enabled());
}

#[test]
fn acme_settings() {
    let settings = accepted_acme(acme(&[
        ("b", &["b.example.com", "A.example.com."]),
        ("a", &["c.example.com"]),
    ]));
    assert!(settings.enabled());
    assert_eq!(settings.http01_listen().to_string(), "0.0.0.0:80");
    assert_eq!(settings.email(), Some("ops@example.com"));
    assert_eq!(settings.environment(), AcmeEnvironment::Staging);
    assert_eq!(settings.state_dir(), "/etc/gateway/state/acme");
    assert_eq!(settings.fallback_renew_before(), Duration::from_secs(30 * 24 * 60 * 60));
    assert_eq!(settings.check_interval(), Duration::from_secs(12 * 60 * 60));
    let certificates = settings.certificates();
    assert_eq!(certificates.len(), 2);
    assert_eq!(certificates[0].id(), "b");
    assert_eq!(
        certificates[0].domains(),
        &vec!["a.example.com".to_owned(), "b.example.com".to_owned()]
    );
    assert_eq!(certificates[1].id(), "a");
    assert!(settings.manages_certificate("a"));
    assert!(!settings.manages_certificate("c"));
}

#[test]
fn acme_can_be_off() {
    let disabled = AcmeConfig::disabled("/etc/gateway");
    assert!(!disabled.enabled());
    assert_eq!(disabled.email(), None);
    assert_eq!(disabled.environment(), AcmeEnvironment::Production);
    assert_eq!(disabled.state_dir(), "/etc/gateway/state/acme");
    assert!(disabled.certificates().is_empty());
    let mut file = acme(&[]);
    file.enabled = false;
    file.email = Some("  ".to_owned());
    file.environment = FileAcmeEnvironment::Production;
    let settings = accepted_acme(file);
    assert!(!settings.enabled());
    assert_eq!(settings.email(), None);
    assert_eq!(settings.environment(), AcmeEnvironment::Production);
}

#[test]
fn acme_refusals_are_spelled_out() {
    let good: [(&str, &[&str]); 1] = [("a", &["a.example.com"])];
    let mut file = acme(&good);
    file.state_dir = String::new();
    assert_eq!(acme_error(file), invalid("acme.state_dir must not be empty"));
    for days in [0, 91] {
        let mut file = acme(&good);
        file.fallback_renew_before_days = days;
        assert_eq!(
            acme_error(file),
            invalid("acme.fallback_renew_before_days must be between 1 and 90")
        );
    }
    for hours in [0, 169] {
        let mut file = acme(&good);
        file.check_interval_hours = hours;
        assert_eq!(
            acme_error(file),
            invalid("acme.check_interval_hours must be between 1 and 168")
        );
    }
    for email in [None, Some(" ".to_owned())] {
        let mut file = acme(&good);
        file.email = email;
        assert_eq!(
            acme_error(file),
            invalid("acme.email is required when ACME is enabled")
        );
    }
    for email in ["a b@c", "nobody"] {
        let mut file = acme(&good);
        file.email = Some(email.to_owned());
        assert_eq!(
            acme_error(file),
            invalid("acme.email must be a plain email address")
        );
    }
    assert_eq!(
        acme_error(acme(&[])),
        invalid(
            "acme.certificates must contain at least one managed certificate when ACME is enabled"
        )
    );
    assert_eq!(
        acme_error(acme(&[("a", &["a.b"]), ("", &["c.d"])])),
        invalid("acme.certificates[1].id must not be empty")
    );
    assert_eq!(
        acme_error(acme(&[("a", &["a.b"]), ("a", &["c.d"])])),
        invalid("duplicate ACME certificate id \"a\"")
    );
    assert_eq!(
        acme_error(acme(&[("a", &[])])),
        invalid("acme.certificates[0].domains must not be empty")
    );
    assert_eq!(
        acme_error(acme(&[("a", &["a.b", "-x.\"y"])])),
        invalid(
            "invalid acme.certificates[0] domain \"-x.\\\"y\": DNS labels must not start or end with '-'"
        )
    );
    assert_eq!(
        acme_error(acme(&[("a", &["a.b", "A.B."])])),
        invalid("duplicate domain \"a.b\" in ACME certificate \"a\"")
    );
    assert_eq!(
        acme_error(acme(&[("a", &["a.b"]), ("b", &["c.d", "a.b"])])),
        invalid("ACME domain \"a.b\" is assigned to more than one certificate")
    );
}

#[test]
fn a_whole_configuration() {
    let Ok(config) = file().validate("/etc/gateway") else {
        panic!("the configuration should be accepted");
    };
    let (server, tls, acme, observability, routes, grpc_routes) = config.into_parts();
    assert_eq!(server.listen().to_string(), "0.0.0.0:443");
    assert_eq!(tls.cert_dir(), "/etc/gateway/certs");
    assert!(!acme.enabled());
    assert_eq!(observability.mode(), ObservabilityMode::Off);
    assert_eq!(routes.configured_count(), 1);
    assert_eq!(routes.enabled_count(), 1);
    assert_eq!(grpc_routes.configured_count(), 1);
    assert_eq!(grpc_routes.enabled_count(), 0);

    let mut with_more = file();
    with_more.acme = Some(crate::acme(&[("a", &["a.example.com"])]));
    with_more.observability = Some(crate::observability());
    let Ok(config) = with_more.validate("/etc/gateway") else {
        panic!("the configuration should be accepted");
    };
    let (_, _, acme, observability, _, _) = config.into_parts();
    assert!(acme.enabled());
    assert_eq!(observability.mode(), ObservabilityMode::Production);
}

#[test]
fn a_configuration_fails_with_its_first_error() {
    let mut broken = file();
    broken.server.shutdown_grace_seconds = 0;
    broken.tls.cert_dir = String::new();
    assert_eq!(
        message(broken.validate(".")),
        invalid("server.shutdown_grace_seconds must be greater than zero")
    );
    let mut broken = file();
    broken.routes[0].path = "ws".to_owned();
    broken.grpc_routes[0].path = "grpc".to_owned();
    assert_eq!(
        message(broken.validate(".")),
        "invalid WebSocket route configuration: route path \"ws\" must be an exact absolute path \
         without empty/dot segments, query, fragment, backslash, whitespace, or control characters"
    );
    let mut broken = file();
    broken.grpc_routes[0].path = "/grpc".to_owned();
    assert_eq!(
        message(broken.validate(".")),
        "invalid gRPC route configuration: gRPC route path \"/grpc\" must use the exact \
         /{package}.{Service}/{Method} form"
    );
}

#[test]
fn files_that_cannot_be_read_or_parsed() {
    assert_eq!(
        ConfigError::Read { path: "a.toml".to_owned(), source: "gone".to_owned() }.message(),
        "failed to read configuration file a.toml: gone"
    );
    assert_eq!(
        ConfigError::Parse { path: "a.toml".to_owned(), source: "odd".to_owned() }.message(),
        "failed to parse configuration file a.toml: odd"
    );
}
