use edge_gateway::config::observability::{
    FileObservabilityConfig, FileObservabilityMode, ObservabilityConfig,
};
use edge_gateway::gateway::diagnostics::{DirectionDiagnostics, OpCode, RelayStage};
use edge_gateway::gateway::frame::Frame;
use edge_gateway::gateway::pump::{
    CloseReason, Direction, Pump, PumpAction, PumpEnd, PumpEvent, PumpMode, PumpPhase,
    PumpReport, WriterSide,
};
use edge_gateway::gateway::relay::{
    can_observe, close_write_timeout, observe_progress, Progress, ProgressTracker, RelayAction,
    RelayEvent, RelayPhase, RelaySession, RelaySettings, TCP_BRIDGE_READ_BUFFER_BYTES,
};
use edge_gateway::observability::{RelayDirection, RuntimeObservability, WebSocketCloseClass};
use edge_gateway::routes::BackendKind;
use edge_gateway::time::Duration;

fn runtime(mode: FileObservabilityMode, logs: bool) -> RuntimeObservability {
    let file = FileObservabilityConfig {
        mode,
        summary_interval_seconds: 300,
        summary_file: "summary.jsonl".to_owned(),
        diagnostic_interval_seconds: 60,
        diagnostic_file: "diagnostic.jsonl".to_owned(),
        connection_event_logs_enabled: logs,
    };
    match file.validate("/var") {
        Ok(config) => RuntimeObservability::start(&config).0,
        Err(error) => panic!("{}", error.message()),
    }
}

fn diagnostic() -> RuntimeObservability {
    runtime(FileObservabilityMode::Diagnostic, false)
}

fn record() -> DirectionDiagnostics {
    DirectionDiagnostics::new(Duration::from_secs(1), true, true)
}

fn now() -> Duration {
    Duration::from_secs(2)
}

fn frame(opcode: OpCode, payload: &[u8]) -> Frame {
    Frame { fin: true, opcode, payload: payload.to_vec() }
}

fn step(pump: &mut Pump, observability: &mut RuntimeObservability, event: PumpEvent) -> PumpAction {
    assert!(pump.expects(&event));
    pump.on_event(event, observability, &now())
}

fn report(end: PumpEnd, direction: Direction) -> PumpReport {
    let mut record = record();
    match end {
        PumpEnd::PeerClosed => PumpReport::peer_closed(direction, &mut record, &now()),
        PumpEnd::Cancelled => PumpReport::cancelled(direction, &mut record, &now()),
        PumpEnd::Error(error) => PumpReport::error(direction, &mut record, error, &now()),
    }
}

fn payload(action: &Option<Frame>) -> Option<Vec<u8>> {
    action.as_ref().map(|frame| {
        assert_eq!(frame.opcode, OpCode::Close);
        frame.payload.clone()
    })
}

fn close_payload(code: u16, reason: &str) -> Option<Vec<u8>> {
    let mut bytes = code.to_be_bytes().to_vec();
    bytes.extend_from_slice(reason.as_bytes());
    Some(bytes)
}

#[test]
fn directions_and_reasons_have_names() {
    assert_eq!(Direction::ClientToBackend.as_str(), "client_to_backend");
    assert_eq!(Direction::BackendToClient.as_str(), "backend_to_client");
    assert_eq!(
        Direction::ClientToBackend.observability_direction(),
        RelayDirection::ClientToBackend
    );
    assert_eq!(
        Direction::BackendToClient.observability_direction(),
        RelayDirection::BackendToClient
    );
    for (reason, name, class) in [
        (CloseReason::ClientClosed, "client_closed", WebSocketCloseClass::ClientClosed),
        (CloseReason::BackendClosed, "backend_closed", WebSocketCloseClass::BackendClosed),
        (CloseReason::GatewayShutdown, "gateway_shutdown", WebSocketCloseClass::GatewayShutdown),
        (CloseReason::RelayError, "relay_error", WebSocketCloseClass::RelayError),
        (CloseReason::InternalError, "internal_error", WebSocketCloseClass::InternalError),
    ] {
        assert_eq!(reason.as_str(), name);
        assert_eq!(reason.observability_class(), class);
    }
}

#[test]
fn reports_say_why_a_relay_ends() {
    for (end, direction, reason) in [
        (PumpEnd::PeerClosed, Direction::ClientToBackend, CloseReason::ClientClosed),
        (PumpEnd::PeerClosed, Direction::BackendToClient, CloseReason::BackendClosed),
        (
            PumpEnd::Error("broken".to_owned()),
            Direction::ClientToBackend,
            CloseReason::RelayError,
        ),
        (PumpEnd::Cancelled, Direction::BackendToClient, CloseReason::InternalError),
    ] {
        assert_eq!(report(end, direction).close_reason(), reason);
    }
}

#[test]
fn a_data_frame_crosses_unchanged() {
    let mut observability = diagnostic();
    let mut pump = Pump::new(PumpMode::WebSocketToWebSocket, Direction::ClientToBackend, record());
    match step(
        &mut pump,
        &mut observability,
        PumpEvent::FrameRead(frame(OpCode::Text, b"hello")),
    ) {
        PumpAction::Lock { side, frame } => {
            assert_eq!(side, WriterSide::Target);
            assert_eq!(frame.opcode, OpCode::Text);
            assert_eq!(frame.payload, b"hello");
        }
        _ => panic!("the frame should be forwarded"),
    }
    assert_eq!(observability.counters.client_to_backend.bytes_total, 0);
    assert!(matches!(
        step(&mut pump, &mut observability, PumpEvent::WriterLocked),
        PumpAction::Write
    ));
    assert!(matches!(
        step(&mut pump, &mut observability, PumpEvent::FrameWritten),
        PumpAction::Flush
    ));
    assert!(matches!(
        step(&mut pump, &mut observability, PumpEvent::Flushed),
        PumpAction::Read
    ));
    assert_eq!(observability.counters.client_to_backend.bytes_total, 5);
    let snapshot = pump.diagnostics.snapshot(&now());
    assert_eq!((snapshot.read_frames, snapshot.forwarded_frames), (1, 1));
    assert_eq!(snapshot.stage, RelayStage::AwaitingRead);
}

#[test]
fn a_close_frame_crosses_and_ends_the_pump() {
    let mut observability = diagnostic();
    let mut pump = Pump::new(PumpMode::WebSocketToWebSocket, Direction::BackendToClient, record());
    assert!(matches!(
        step(
            &mut pump,
            &mut observability,
            PumpEvent::FrameRead(frame(OpCode::Close, b"\x03\xe8")),
        ),
        PumpAction::Lock { side: WriterSide::Target, frame } if frame.payload == b"\x03\xe8"
    ));
    step(&mut pump, &mut observability, PumpEvent::WriterLocked);
    step(&mut pump, &mut observability, PumpEvent::FrameWritten);
    match step(&mut pump, &mut observability, PumpEvent::Flushed) {
        PumpAction::Report(report) => {
            assert!(matches!(report.end, PumpEnd::PeerClosed));
            assert_eq!(report.final_snapshot.stage, RelayStage::PeerClosed);
            assert_eq!(report.close_reason(), CloseReason::BackendClosed);
        }
        _ => panic!("the pump should end"),
    }
    assert_eq!(pump.phase, PumpPhase::Finished);
    assert!(!pump.expects(&PumpEvent::Cancelled));
    assert_eq!(observability.counters.backend_to_client.control_frames_total, 1);
    assert_eq!(observability.counters.backend_to_client.bytes_total, 0);
}

#[test]
fn pings_do_not_cross() {
    let mut observability = diagnostic();
    let mut pump = Pump::new(PumpMode::WebSocketToWebSocket, Direction::ClientToBackend, record());
    assert!(matches!(
        step(&mut pump, &mut observability, PumpEvent::FrameRead(frame(OpCode::Ping, b"x"))),
        PumpAction::Read
    ));
    assert!(matches!(
        step(&mut pump, &mut observability, PumpEvent::ReplyRequested(frame(OpCode::Pong, b"x"))),
        PumpAction::Lock { side: WriterSide::Own, frame } if frame.payload == b"x"
    ));
    step(&mut pump, &mut observability, PumpEvent::WriterLocked);
    step(&mut pump, &mut observability, PumpEvent::FrameWritten);
    assert!(matches!(
        step(&mut pump, &mut observability, PumpEvent::Flushed),
        PumpAction::ResumeRead
    ));
    assert_eq!(observability.counters.client_to_backend.control_frames_total, 2);
}

#[test]
fn payloads_reach_a_stream_unchanged() {
    let mut observability = diagnostic();
    let mut pump = Pump::new(PumpMode::WebSocketToTcp, Direction::ClientToBackend, record());
    for opcode in [OpCode::Text, OpCode::Binary, OpCode::Continuation] {
        assert!(matches!(
            step(&mut pump, &mut observability, PumpEvent::FrameRead(frame(opcode, b"abc"))),
            PumpAction::WriteStream(bytes) if bytes == b"abc"
        ));
        assert!(matches!(
            step(&mut pump, &mut observability, PumpEvent::StreamWritten),
            PumpAction::Read
        ));
    }
    assert_eq!(observability.counters.client_to_backend.bytes_total, 9);
    assert!(matches!(
        step(&mut pump, &mut observability, PumpEvent::FrameRead(frame(OpCode::Close, b""))),
        PumpAction::ShutDownStream
    ));
    assert!(matches!(
        step(&mut pump, &mut observability, PumpEvent::StreamShutDown),
        PumpAction::Report(report) if matches!(report.end, PumpEnd::PeerClosed)
    ));
}

#[test]
fn bytes_of_a_stream_become_one_binary_frame() {
    let mut observability = diagnostic();
    let mut pump = Pump::new(PumpMode::TcpToWebSocket, Direction::BackendToClient, record());
    assert!(!pump.expects(&PumpEvent::FrameRead(frame(OpCode::Text, b""))));
    match step(&mut pump, &mut observability, PumpEvent::StreamRead(b"abc".to_vec())) {
        PumpAction::Lock { side: WriterSide::Target, frame } => {
            assert!(frame.fin);
            assert_eq!(frame.opcode, OpCode::Binary);
            assert_eq!(frame.payload, b"abc");
        }
        _ => panic!("the bytes should be forwarded"),
    }
    step(&mut pump, &mut observability, PumpEvent::WriterLocked);
    step(&mut pump, &mut observability, PumpEvent::FrameWritten);
    step(&mut pump, &mut observability, PumpEvent::Flushed);
    assert!(matches!(
        step(&mut pump, &mut observability, PumpEvent::StreamRead(Vec::new())),
        PumpAction::Report(report) if matches!(report.end, PumpEnd::PeerClosed)
    ));
}

#[test]
fn cancellation_and_errors_end_a_pump() {
    let mut observability = diagnostic();
    let mut pump = Pump::new(PumpMode::WebSocketToWebSocket, Direction::ClientToBackend, record());
    assert!(matches!(
        step(&mut pump, &mut observability, PumpEvent::Cancelled),
        PumpAction::Report(report) if matches!(report.end, PumpEnd::Cancelled)
    ));

    let mut pump = Pump::new(PumpMode::WebSocketToWebSocket, Direction::ClientToBackend, record());
    match step(&mut pump, &mut observability, PumpEvent::ReadFailed("reset".to_owned())) {
        PumpAction::Report(report) => {
            assert!(matches!(report.end, PumpEnd::Error(error) if error == "reset"));
            assert_eq!(report.final_snapshot.stage, RelayStage::AwaitingRead);
        }
        _ => panic!("the pump should end"),
    }

    let mut pump = Pump::new(PumpMode::WebSocketToWebSocket, Direction::ClientToBackend, record());
    step(&mut pump, &mut observability, PumpEvent::FrameRead(frame(OpCode::Text, b"x")));
    step(&mut pump, &mut observability, PumpEvent::WriterLocked);
    match step(&mut pump, &mut observability, PumpEvent::Cancelled) {
        PumpAction::Report(report) => {
            assert!(matches!(report.end, PumpEnd::Error(error) if error == "Connection is closed"));
            assert_eq!(report.final_snapshot.stage, RelayStage::WritingDataFrame);
        }
        _ => panic!("the pump should end"),
    }

    let mut pump = Pump::new(PumpMode::WebSocketToTcp, Direction::ClientToBackend, record());
    step(&mut pump, &mut observability, PumpEvent::FrameRead(frame(OpCode::Text, b"x")));
    match step(&mut pump, &mut observability, PumpEvent::WriteFailed("full".to_owned())) {
        PumpAction::Report(report) => {
            assert!(matches!(report.end, PumpEnd::Error(error) if error == "full"));
            assert_eq!(report.final_snapshot.stage, RelayStage::WritingStreamBytes);
        }
        _ => panic!("the pump should end"),
    }
    assert_eq!(observability.counters.client_to_backend.bytes_total, 0);
}

#[test]
fn settings_of_a_relay() {
    let settings = RelaySettings::new(&diagnostic(), 1024);
    assert_eq!(settings.message_limit, 1025);
    assert!(settings.observing && settings.recording && settings.detailed);
    assert_eq!(settings.observation_interval, Duration::from_secs(60));
    let settings =
        RelaySettings::new(&runtime(FileObservabilityMode::Production, false), usize::MAX);
    assert_eq!(settings.message_limit, usize::MAX);
    assert!(settings.observing && settings.recording && !settings.detailed);
    assert_eq!(settings.observation_interval, Duration::from_secs(300));
    let settings = RelaySettings::new(&runtime(FileObservabilityMode::Off, true), 1);
    assert!(!settings.observing && settings.recording && settings.detailed);
    assert!(settings.diagnostics(now()).enabled);
    let off = RuntimeObservability::start(&ObservabilityConfig::off()).0;
    let settings = RelaySettings::new(&off, 1);
    assert!(!settings.observing && !settings.recording && !settings.detailed);
    assert_eq!(close_write_timeout(), Duration::from_secs(1));
    assert_eq!(TCP_BRIDGE_READ_BUFFER_BYTES, 65536);
}

#[test]
fn episodes_are_counted_once() {
    let mut observability = diagnostic();
    let mut tracker = ProgressTracker::default();
    let mut up = record();
    let down = record();
    let observe = |observability: &mut RuntimeObservability,
                   tracker: &mut ProgressTracker,
                   up: &DirectionDiagnostics| {
        let upstream = up.snapshot(&now());
        let downstream = down.snapshot(&now());
        assert!(can_observe(&upstream, &downstream));
        observe_progress(observability, &upstream, &downstream, tracker)
    };
    for _ in 0..2 {
        assert_eq!(
            observe(&mut observability, &mut tracker, &up),
            Progress { progressed: false, idle: true, no_progress: false, interval_bytes: 0 }
        );
    }
    assert_eq!(observability.counters.websocket_idle_events_total, 1);
    up.record_forwarded(10, &now());
    assert_eq!(
        observe(&mut observability, &mut tracker, &up),
        Progress { progressed: true, idle: false, no_progress: false, interval_bytes: 10 }
    );
    observe(&mut observability, &mut tracker, &up);
    assert_eq!(observability.counters.websocket_idle_events_total, 2);
    up.set_stage(RelayStage::WritingDataFrame);
    for _ in 0..2 {
        assert_eq!(
            observe(&mut observability, &mut tracker, &up),
            Progress { progressed: false, idle: false, no_progress: true, interval_bytes: 0 }
        );
    }
    assert_eq!(observability.counters.websocket_no_progress_events_total, 1);
}

#[test]
fn the_first_end_decides() {
    let mut session = RelaySession::new(BackendKind::WebSocket);
    assert!(matches!(
        session.on_event(RelayEvent::PumpFinished(report(
            PumpEnd::Error("broken".to_owned()),
            Direction::BackendToClient,
        ))),
        RelayAction::Cancel
    ));
    assert_eq!(
        session.phase(),
        RelayPhase::Draining { reason: CloseReason::RelayError }
    );
    assert!(matches!(
        session.on_event(RelayEvent::PumpFinished(report(
            PumpEnd::Cancelled,
            Direction::ClientToBackend,
        ))),
        RelayAction::Collect
    ));
    match session.on_event(RelayEvent::NoPumps) {
        RelayAction::Close { downstream, backend } => {
            assert_eq!(payload(&downstream), close_payload(1011, "gateway relay error"));
            assert_eq!(payload(&backend), close_payload(1011, "gateway relay error"));
        }
        _ => panic!("the relay should close"),
    }
    assert_eq!(session.reports().len(), 2);

    let mut observability = diagnostic();
    let active = observability.begin_websocket_connection();
    let summary = session.finish(&Duration::from_secs(30), &active, &mut observability);
    assert_eq!(summary.close_reason, CloseReason::RelayError);
    assert_eq!(summary.duration_ms, 30_000);
    assert_eq!(summary.first_error_direction, "backend_to_client");
    assert_eq!(summary.first_error_stage, "awaiting_read");
    assert_eq!(summary.remaining_active, 0);
    assert_eq!(observability.counters.websocket_relay_failures_total, 1);
}

#[test]
fn relays_close_by_their_reason() {
    fn close(backend: BackendKind, event: RelayEvent) -> (Option<Vec<u8>>, Option<Vec<u8>>) {
        let mut session = RelaySession::new(backend);
        session.on_event(event);
        match session.on_event(RelayEvent::NoPumps) {
            RelayAction::Close { downstream, backend } => (payload(&downstream), payload(&backend)),
            _ => panic!("the relay should close"),
        }
    }
    let closed = |direction| RelayEvent::PumpFinished(report(PumpEnd::PeerClosed, direction));
    let shutdown = close_payload(1001, "gateway shutdown");
    let failed = close_payload(1011, "gateway relay error");
    assert_eq!(
        close(BackendKind::WebSocket, RelayEvent::Shutdown),
        (shutdown.clone(), shutdown.clone())
    );
    assert_eq!(
        close(BackendKind::WebSocket, closed(Direction::ClientToBackend)),
        (None, None)
    );
    assert_eq!(
        close(BackendKind::WebSocket, RelayEvent::PumpFailed),
        (failed.clone(), failed.clone())
    );
    assert_eq!(close(BackendKind::Tcp, RelayEvent::Shutdown), (shutdown, None));
    assert_eq!(
        close(BackendKind::Tcp, closed(Direction::BackendToClient)),
        (close_payload(1000, ""), None)
    );
    assert_eq!(close(BackendKind::Tcp, RelayEvent::PumpFailed), (failed, None));
}

#[test]
fn lifetimes_are_classified() {
    for (seconds, short, long) in [(0, true, false), (29, true, false), (30, true, false), (31, false, false), (299, false, false), (300, false, true)] {
        let mut session = RelaySession::new(BackendKind::WebSocket);
        session.on_event(RelayEvent::Shutdown);
        session.on_event(RelayEvent::NoPumps);
        let mut observability = diagnostic();
        let active = observability.begin_websocket_connection();
        let summary = session.finish(&Duration::from_secs(seconds), &active, &mut observability);
        assert_eq!((summary.short_lived, summary.long_lived), (short, long), "{seconds}");
        assert_eq!(summary.first_error_direction, "-");
        assert_eq!(summary.first_error_stage, "-");
        assert_eq!(observability.counters.websocket_gateway_shutdown_total, 1);
        assert_eq!(
            observability.counters.websocket_short_lived_connections_total,
            u64::from(short)
        );
        assert_eq!(
            observability.counters.websocket_long_lived_connections_total,
            u64::from(long)
        );
    }
}

#[test]
fn the_counters_look_at_nanoseconds_and_the_summary_at_milliseconds() {
    let mut session = RelaySession::new(BackendKind::WebSocket);
    session.on_event(RelayEvent::Shutdown);
    session.on_event(RelayEvent::NoPumps);
    let mut observability = diagnostic();
    let active = observability.begin_websocket_connection();
    let summary = session.finish(&Duration::new(30, 500_000), &active, &mut observability);
    assert!(summary.short_lived);
    assert_eq!(observability.counters.websocket_short_lived_connections_total, 0);
}
