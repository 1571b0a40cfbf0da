use edge_gateway::config::observability::{
    FileObservabilityConfig, FileObservabilityMode, ObservabilityConfig, ObservabilityMode,
};
use edge_gateway::observability::{
    append_diagnostic_fields, append_direction_fields, increment, increment_active, load,
    snapshot_json, unix_time_millis, RelayDirection, RuntimeObservability, WebSocketCloseClass,
};
use edge_gateway::time::Duration;

fn config(mode: FileObservabilityMode) -> ObservabilityConfig {
    let file = FileObservabilityConfig {
        mode,
        summary_interval_seconds: 300,
        summary_file: "summary.jsonl".to_owned(),
        diagnostic_interval_seconds: 60,
        diagnostic_file: "diagnostic.jsonl".to_owned(),
        connection_event_logs_enabled: true,
    };
    match file.validate("/var") {
        Ok(config) => config,
        Err(error) => panic!("{}", error.message()),
    }
}

fn runtime(mode: FileObservabilityMode) -> RuntimeObservability {
    RuntimeObservability::start(&config(mode)).0
}

#[test]
fn each_mode_writes_to_its_own_file() {
    let (runtime, output) = RuntimeObservability::start(&config(FileObservabilityMode::Production));
    assert_eq!(runtime.mode(), ObservabilityMode::Production);
    assert!(runtime.connection_event_logs_enabled());
    assert_eq!(runtime.observation_interval_seconds(), 300);
    let Some(output) = output else {
        panic!("snapshots are written");
    };
    assert_eq!(output.path, "/var/summary.jsonl");
    assert_eq!(output.interval, Duration::from_secs(300));

    let (runtime, output) = RuntimeObservability::start(&config(FileObservabilityMode::Diagnostic));
    assert_eq!(runtime.observation_interval_seconds(), 60);
    let Some(output) = output else {
        panic!("snapshots are written");
    };
    assert_eq!(output.path, "/var/diagnostic.jsonl");
    assert_eq!(output.interval, Duration::from_secs(60));

    let (runtime, output) = RuntimeObservability::start(&config(FileObservabilityMode::Off));
    assert_eq!(runtime.mode(), ObservabilityMode::Off);
    assert_eq!(runtime.observation_interval_seconds(), 60);
    assert!(output.is_none());
}

#[test]
fn connections_are_numbered_and_counted() {
    let mut runtime = runtime(FileObservabilityMode::Off);
    let (first_id, first) = runtime.begin_transport_connection();
    let (second_id, second) = runtime.begin_transport_connection();
    assert_eq!((first_id, second_id), (1, 2));
    assert_eq!(first.active_connections(&runtime), 2);
    first.close(&mut runtime);
    assert_eq!(second.active_connections(&runtime), 1);
    second.close(&mut runtime);
    assert_eq!(runtime.counters.active_transport_connections, 0);
    assert_eq!(runtime.counters.peak_transport_connections, 2);
    assert_eq!(runtime.counters.transport_connections_total, 2);

    assert_eq!(runtime.next_websocket_connection_id(), 1);
    assert_eq!(runtime.next_websocket_connection_id(), 2);
    let socket = runtime.begin_websocket_connection();
    assert_eq!(socket.active_connections(&runtime), 1);
    assert_eq!(runtime.peak_websocket_connections(), 1);
    socket.close(&mut runtime);
    assert_eq!(runtime.counters.active_websocket_connections, 0);
    assert_eq!(runtime.counters.websocket_connections_total, 1);
    assert_eq!(runtime.peak_websocket_connections(), 1);
}

#[test]
fn some_events_are_counted_in_diagnostic_mode_only() {
    for (mode, expected) in [
        (FileObservabilityMode::Off, 0),
        (FileObservabilityMode::Production, 0),
        (FileObservabilityMode::Diagnostic, 1),
    ] {
        let mut runtime = runtime(mode);
        runtime.record_tls_handshake_success();
        runtime.record_tls_handshake_failure();
        runtime.record_tls_handshake_timeout();
        runtime.record_http_connection_error();
        runtime.record_websocket_backend_connect_failure();
        runtime.record_websocket_backend_connect_timeout();
        runtime.record_websocket_upgrade_failure();
        runtime.record_websocket_upgrade_timeout();
        runtime.record_websocket_idle_event();
        runtime.record_websocket_no_progress_event();
        runtime.record_control_frame(RelayDirection::BackendToClient);
        let counters = &runtime.counters;
        assert_eq!(counters.tls_handshake_success_total, expected);
        assert_eq!(counters.tls_handshake_failures_total, 1);
        assert_eq!(counters.tls_handshake_timeouts_total, 1);
        assert_eq!(counters.http_connection_errors_total, expected);
        assert_eq!(counters.websocket_backend_connect_failures_total, 1);
        assert_eq!(counters.websocket_backend_connect_timeouts_total, 1);
        assert_eq!(counters.websocket_upgrade_failures_total, expected);
        assert_eq!(counters.websocket_upgrade_timeouts_total, expected);
        assert_eq!(counters.websocket_idle_events_total, expected);
        assert_eq!(counters.websocket_no_progress_events_total, 1);
        assert_eq!(counters.backend_to_client.control_frames_total, expected);
        assert_eq!(counters.client_to_backend.control_frames_total, 0);
    }
}

#[test]
fn frames_fall_into_one_size_class() {
    let mut runtime = runtime(FileObservabilityMode::Diagnostic);
    let sizes = [
        0, 64, 65, 1024, 1025, 16384, 16385, 65536, 65537, 262144, 262145, 1_000_000,
    ];
    for size in sizes {
        runtime.record_forwarded_frame(RelayDirection::ClientToBackend, size);
    }
    let counters = runtime.direction(RelayDirection::ClientToBackend);
    assert_eq!(counters.bytes_total, sizes.iter().sum::<usize>() as u64);
    assert_eq!(counters.forwarded_frames_total, 12);
    assert_eq!(counters.small_frames_total, 4);
    assert_eq!(counters.frames_le_64_bytes_total, 2);
    assert_eq!(counters.frames_le_1024_bytes_total, 2);
    assert_eq!(counters.frames_le_16384_bytes_total, 2);
    assert_eq!(counters.frames_le_65536_bytes_total, 2);
    assert_eq!(counters.frames_le_262144_bytes_total, 2);
    assert_eq!(counters.frames_gt_262144_bytes_total, 2);
    assert_eq!(runtime.direction(RelayDirection::BackendToClient).bytes_total, 0);
}

#[test]
fn production_counts_bytes_and_off_counts_nothing() {
    let mut production = runtime(FileObservabilityMode::Production);
    production.record_forwarded_frame(RelayDirection::BackendToClient, 10);
    assert_eq!(production.counters.backend_to_client.bytes_total, 10);
    assert_eq!(production.counters.backend_to_client.forwarded_frames_total, 0);
    let mut off = runtime(FileObservabilityMode::Off);
    off.record_forwarded_frame(RelayDirection::BackendToClient, 10);
    off.record_websocket_closed(WebSocketCloseClass::RelayError, true, true);
    assert_eq!(off.counters.backend_to_client.bytes_total, 0);
    assert_eq!(off.counters.websocket_relay_failures_total, 0);
}

#[test]
fn closed_connections_are_classified() {
    let mut runtime = runtime(FileObservabilityMode::Diagnostic);
    runtime.record_websocket_closed(WebSocketCloseClass::ClientClosed, true, false);
    runtime.record_websocket_closed(WebSocketCloseClass::BackendClosed, false, true);
    runtime.record_websocket_closed(WebSocketCloseClass::GatewayShutdown, false, false);
    runtime.record_websocket_closed(WebSocketCloseClass::RelayError, false, false);
    runtime.record_websocket_closed(WebSocketCloseClass::InternalError, false, false);
    let counters = &runtime.counters;
    assert_eq!(counters.websocket_client_closed_total, 1);
    assert_eq!(counters.websocket_backend_closed_total, 1);
    assert_eq!(counters.websocket_gateway_shutdown_total, 1);
    assert_eq!(counters.websocket_relay_failures_total, 2);
    assert_eq!(counters.websocket_long_lived_connections_total, 1);
    assert_eq!(counters.websocket_short_lived_connections_total, 1);

    let mut production = crate::runtime(FileObservabilityMode::Production);
    production.record_websocket_closed(WebSocketCloseClass::InternalError, true, true);
    assert_eq!(production.counters.websocket_relay_failures_total, 1);
    assert_eq!(production.counters.websocket_long_lived_connections_total, 0);
}

#[test]
fn counters_wrap_and_peaks_saturate() {
    let mut counter = u64::MAX;
    increment(&mut counter);
    assert_eq!(load(&counter), 0);
    let (mut active, mut peak) = (u64::MAX, 7);
    increment_active(&mut active, &mut peak);
    assert_eq!((active, peak), (0, u64::MAX));
    let (mut active, mut peak) = (1, 7);
    increment_active(&mut active, &mut peak);
    assert_eq!((active, peak), (2, 7));
}

#[test]
fn time_before_the_epoch_counts_as_the_epoch() {
    assert_eq!(unix_time_millis(None), 0);
    assert_eq!(unix_time_millis(Some(Duration::new(3, 4_999_999))), 3004);
}

#[test]
fn a_production_snapshot_is_one_json_object() {
    let mut runtime = runtime(FileObservabilityMode::Production);
    let (_, _transport) = runtime.begin_transport_connection();
    let _socket = runtime.begin_websocket_connection();
    runtime.record_forwarded_frame(RelayDirection::ClientToBackend, 5);
    runtime.record_forwarded_frame(RelayDirection::BackendToClient, 7);
    assert_eq!(
        snapshot_json(&runtime, 1234),
        "{\"ts_unix_ms\":1234,\"role\":\"gateway\",\"profile\":\"production\",\
         \"active_connections\":2,\"total_connections\":1,\
         \"active_transport_connections\":1,\"active_websocket_connections\":1,\
         \"peak_transport_connections\":1,\"peak_websocket_connections\":1,\
         \"transport_connections_total\":1,\"websocket_connections_total\":1,\
         \"client_to_backend_bytes_total\":5,\"backend_to_client_bytes_total\":7,\
         \"tls_handshake_failures_total\":0,\"tls_handshake_timeouts_total\":0,\
         \"websocket_backend_connect_failures_total\":0,\
         \"websocket_backend_connect_timeouts_total\":0,\
         \"websocket_relay_failures_total\":0,\
         \"data_plane_no_progress_events_total\":0}"
    );
}

#[test]
fn a_diagnostic_snapshot_holds_every_counter() {
    let mut runtime = runtime(FileObservabilityMode::Diagnostic);
    let mut next = 1;
    let counters = &mut runtime.counters;
    for counter in [
        &mut counters.tls_handshake_success_total,
        &mut counters.http_connection_errors_total,
        &mut counters.websocket_upgrade_failures_total,
        &mut counters.websocket_upgrade_timeouts_total,
        &mut counters.websocket_idle_events_total,
        &mut counters.websocket_long_lived_connections_total,
        &mut counters.websocket_short_lived_connections_total,
        &mut counters.websocket_client_closed_total,
        &mut counters.websocket_backend_closed_total,
        &mut counters.websocket_gateway_shutdown_total,
        &mut counters.client_to_backend.forwarded_frames_total,
        &mut counters.client_to_backend.small_frames_total,
        &mut counters.client_to_backend.control_frames_total,
        &mut counters.client_to_backend.frames_le_64_bytes_total,
        &mut counters.client_to_backend.frames_le_1024_bytes_total,
        &mut counters.client_to_backend.frames_le_16384_bytes_total,
        &mut counters.client_to_backend.frames_le_65536_bytes_total,
        &mut counters.client_to_backend.frames_le_262144_bytes_total,
        &mut counters.client_to_backend.frames_gt_262144_bytes_total,
    ] {
        *counter = next;
        next += 1;
    }
    let expected = ",\"tls_handshake_success_total\":1,\"http_connection_errors_total\":2,\
        \"websocket_upgrade_failures_total\":3,\"websocket_upgrade_timeouts_total\":4,\
        \"websocket_idle_events_total\":5,\"websocket_long_lived_connections_total\":6,\
        \"websocket_short_lived_connections_total\":7,\"websocket_client_closed_total\":8,\
        \"websocket_backend_closed_total\":9,\"websocket_gateway_shutdown_total\":10,\
        \"client_to_backend_forwarded_frames_total\":11,\
        \"client_to_backend_small_frames_total\":12,\
        \"client_to_backend_control_frames_total\":13,\
        \"client_to_backend_frames_le_64_bytes_total\":14,\
        \"client_to_backend_frames_le_1024_bytes_total\":15,\
        \"client_to_backend_frames_le_16384_bytes_total\":16,\
        \"client_to_backend_frames_le_65536_bytes_total\":17,\
        \"client_to_backend_frames_le_262144_bytes_total\":18,\
        \"client_to_backend_frames_gt_262144_bytes_total\":19";
    let mut fields = String::new();
    append_diagnostic_fields(&mut fields, &runtime.counters);
    let mut directions = String::new();
    append_direction_fields(
        &mut directions,
        "backend_to_client",
        &runtime.counters.backend_to_client,
    );
    assert_eq!(fields, format!("{expected}{directions}"));
    let json = snapshot_json(&runtime, 0);
    assert!(json.ends_with(&format!("{fields}}}")));
    assert!(json.contains("\"profile\":\"diagnostic\""));
    let parsed: serde_json::Value = serde_json::from_str(&json).unwrap();
    assert_eq!(parsed["client_to_backend_frames_gt_262144_bytes_total"], 19);
    assert!(snapshot_json(&crate::runtime(FileObservabilityMode::Off), 0)
        .contains("\"profile\":\"off\""));
}
