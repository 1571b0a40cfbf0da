use bytes::Bytes;
use edge_gateway::config::observability::{FileObservabilityConfig, FileObservabilityMode};
use edge_gateway::gateway::diagnostics::{
    opcode_name, DirectionDiagnostics, OpCode, RelayStage,
};
use edge_gateway::gateway::frame::close_frame;
use edge_gateway::gateway::h2_websocket::{
    gathered_frame, single_frame, total_length, BodyEvent, ExtendedConnectReader, ReadStep,
    RESPONSE_BODY_CHANNEL_CAPACITY,
};
use edge_gateway::gateway::listener::{
    dispatch, ConnectionAction, ConnectionEnd, ConnectionEvent, ConnectionPhase,
    ConnectionSession, Dispatch, ListenerAction, ListenerEvent, ListenerPhase,
};
use edge_gateway::grpc::routes::{GrpcRouteSpec, GrpcRouteTable};
use edge_gateway::http::request::Method;
use edge_gateway::observability::RuntimeObservability;
use edge_gateway::routes::{RouteSpec, RouteTable};
use edge_gateway::time::Duration;

fn diagnostic_runtime() -> RuntimeObservability {
    let file = FileObservabilityConfig {
        mode: FileObservabilityMode::Diagnostic,
        summary_interval_seconds: 300,
        summary_file: "summary.jsonl".to_owned(),
        diagnostic_interval_seconds: 60,
        diagnostic_file: "diagnostic.jsonl".to_owned(),
        connection_event_logs_enabled: false,
    };
    match file.validate("/var") {
        Ok(config) => RuntimeObservability::start(&config).0,
        Err(error) => panic!("{}", error.message()),
    }
}

fn tables() -> (RouteTable, GrpcRouteTable) {
    let route = |id: &str, path: &str| RouteSpec {
        id: id.to_owned(),
        path: path.to_owned(),
        backend: "ws://127.0.0.1:1/".to_owned(),
        enabled: true,
    };
    let grpc = |id: &str, path: &str| GrpcRouteSpec {
        id: id.to_owned(),
        path: path.to_owned(),
        backend: "h2c://127.0.0.1:2".to_owned(),
        enabled: true,
    };
    let Ok(routes) = RouteTable::build(vec![
        route("ws", "/ws"),
        route("shared", "/a.B/C"),
        route("health", "/health/live"),
    ]) else {
        panic!("the table should be accepted");
    };
    let Ok(grpc_routes) =
        GrpcRouteTable::build(vec![grpc("one", "/a.B/C"), grpc("two", "/a.B/D")])
    else {
        panic!("the table should be accepted");
    };
    (routes, grpc_routes)
}

#[test]
fn requests_are_dispatched() {
    let (routes, grpc_routes) = tables();
    for path in ["/health/live", "/health/ready"] {
        match dispatch(Method::Get, path, &routes, &grpc_routes) {
            Dispatch::Answer(reply) => {
                assert_eq!((reply.status, reply.body), (200, "ok\n"));
            }
            _ => panic!("health checks are answered"),
        }
    }
    assert!(matches!(
        dispatch(Method::Post, "/health/live", &routes, &grpc_routes),
        Dispatch::WebSocket(route) if route.id() == "health"
    ));
    assert!(matches!(
        dispatch(Method::Get, "/ws", &routes, &grpc_routes),
        Dispatch::WebSocket(route) if route.id() == "ws"
    ));
    assert!(matches!(
        dispatch(Method::Post, "/a.B/C", &routes, &grpc_routes),
        Dispatch::WebSocket(route) if route.id() == "shared"
    ));
    assert!(matches!(
        dispatch(Method::Post, "/a.B/D", &routes, &grpc_routes),
        Dispatch::Grpc(route) if route.id() == "two"
    ));
    match dispatch(Method::Head, "/health/ready", &routes, &grpc_routes) {
        Dispatch::Answer(reply) => {
            assert_eq!((reply.status, reply.body), (404, "not found\n"));
        }
        _ => panic!("other paths are not found"),
    }
}

#[test]
fn a_connection_that_the_peer_closes() {
    let mut observability = diagnostic_runtime();
    let (_, active) = observability.begin_transport_connection();
    let (_, _other) = observability.begin_transport_connection();
    let mut session = ConnectionSession::new();
    assert!(!session.expects(ConnectionEvent::Request));
    assert_eq!(
        session.on_event(ConnectionEvent::HandshakeDone, &mut observability),
        ConnectionAction::Serve
    );
    assert_eq!(observability.counters.tls_handshake_success_total, 1);
    for _ in 0..3 {
        assert_eq!(
            session.on_event(ConnectionEvent::Request, &mut observability),
            ConnectionAction::Serve
        );
    }
    assert_eq!(
        session.on_event(ConnectionEvent::Finished, &mut observability),
        ConnectionAction::Close
    );
    assert_eq!(
        session.phase(),
        ConnectionPhase::Ended { end: ConnectionEnd::PeerClosed }
    );
    let Some(summary) = session.summary(&Duration::new(2, 500_000_000), &active, &observability)
    else {
        panic!("the connection is over");
    };
    assert_eq!(summary.close_reason, "peer_closed");
    assert_eq!(summary.request_count, 3);
    assert_eq!(summary.duration_ms, 2500);
    assert_eq!(summary.remaining_active, 1);
}

#[test]
fn refused_handshakes_are_counted() {
    for (event, failures, timeouts) in [
        (ConnectionEvent::HandshakeFailed, 1, 0),
        (ConnectionEvent::HandshakeTimedOut, 0, 1),
    ] {
        let mut observability = diagnostic_runtime();
        let (_, active) = observability.begin_transport_connection();
        let mut session = ConnectionSession::new();
        assert_eq!(session.on_event(event, &mut observability), ConnectionAction::Close);
        assert_eq!(session.phase(), ConnectionPhase::Refused);
        assert_eq!(observability.counters.tls_handshake_failures_total, failures);
        assert_eq!(observability.counters.tls_handshake_timeouts_total, timeouts);
        assert!(session.summary(&Duration::from_secs(1), &active, &observability).is_none());
    }
}

#[test]
fn ends_of_connections_have_names() {
    fn end(events: &[ConnectionEvent]) -> (&'static str, u64) {
        let mut observability = diagnostic_runtime();
        let (_, active) = observability.begin_transport_connection();
        let mut session = ConnectionSession::new();
        for event in events {
            assert!(session.expects(*event));
            session.on_event(*event, &mut observability);
        }
        let Some(summary) = session.summary(&Duration::from_secs(0), &active, &observability)
        else {
            panic!("the connection is over");
        };
        assert_eq!(summary.remaining_active, 0);
        (
            summary.close_reason,
            observability.counters.http_connection_errors_total,
        )
    }
    let start = ConnectionEvent::HandshakeDone;
    let cancelled = ConnectionEvent::Cancelled;
    assert_eq!(end(&[start, ConnectionEvent::Finished]), ("peer_closed", 0));
    assert_eq!(end(&[start, ConnectionEvent::Failed]), ("http_error", 1));
    assert_eq!(
        end(&[start, cancelled, ConnectionEvent::Finished]),
        ("gateway_shutdown", 0)
    );
    assert_eq!(
        end(&[start, cancelled, ConnectionEvent::Request, ConnectionEvent::Failed]),
        ("shutdown_error", 1)
    );
    assert_eq!(
        end(&[start, cancelled, ConnectionEvent::GraceTimedOut]),
        ("shutdown_timeout", 0)
    );
}

#[test]
fn a_cancelled_connection_drains() {
    let mut observability = diagnostic_runtime();
    let mut session = ConnectionSession::new();
    session.on_event(ConnectionEvent::HandshakeDone, &mut observability);
    assert_eq!(
        session.on_event(ConnectionEvent::Cancelled, &mut observability),
        ConnectionAction::ShutDownGracefully
    );
    assert_eq!(session.phase(), ConnectionPhase::Draining);
    assert!(!session.expects(ConnectionEvent::Cancelled));
}

#[test]
fn the_gateway_stops_in_order() {
    let mut phase = ListenerPhase::Accepting;
    let mut step = |event| {
        assert!(phase.expects(event));
        phase.on_event(event)
    };
    assert_eq!(step(ListenerEvent::Accepted), ListenerAction::Serve);
    assert_eq!(step(ListenerEvent::ConnectionDone), ListenerAction::Wait);
    assert_eq!(step(ListenerEvent::ShutdownSignal), ListenerAction::CancelAll);
    assert_eq!(step(ListenerEvent::ConnectionDone), ListenerAction::Wait);
    assert_eq!(step(ListenerEvent::NoConnections), ListenerAction::WaitForTasks);
    assert_eq!(step(ListenerEvent::GraceTimedOut), ListenerAction::StopReports);
    assert_eq!(step(ListenerEvent::ReportsDone), ListenerAction::Stop);
    assert_eq!(phase, ListenerPhase::Stopped);
    assert!(!phase.expects(ListenerEvent::Accepted));

    let mut phase = ListenerPhase::Accepting;
    assert_eq!(phase.on_event(ListenerEvent::AcceptFailed), ListenerAction::Fail);
    assert_eq!(phase, ListenerPhase::Broken);
    let mut phase = ListenerPhase::DrainingTasks;
    assert_eq!(phase.on_event(ListenerEvent::TasksDone), ListenerAction::StopReports);
}

#[test]
fn close_frames_start_with_their_code() {
    let frame = close_frame(1001, b"bye");
    assert!(frame.fin);
    assert_eq!(frame.opcode, OpCode::Close);
    assert_eq!(frame.payload, vec![0x03, 0xe9, b'b', b'y', b'e']);
    assert_eq!(close_frame(1000, b"").payload, vec![0x03, 0xe8]);
}

#[test]
fn a_reader_hands_out_the_bytes_of_the_body() {
    let mut reader = ExtendedConnectReader::new();
    assert!(matches!(reader.poll(0), ReadStep::Nothing));
    assert!(matches!(reader.poll(4), ReadStep::NeedFrame));
    assert!(reader.is_drained());
    reader.on_body(BodyEvent::NoData);
    assert!(matches!(reader.poll(4), ReadStep::NeedFrame));
    reader.on_body(BodyEvent::Data(Bytes::from_static(b"abcdef")));
    assert!(!reader.is_drained());
    assert!(matches!(reader.poll(4), ReadStep::Deliver(bytes) if &bytes[..] == b"abcd"));
    assert!(matches!(reader.poll(4), ReadStep::Deliver(bytes) if &bytes[..] == b"ef"));
    assert!(matches!(reader.poll(4), ReadStep::NeedFrame));
    reader.on_body(BodyEvent::End);
    assert!(matches!(reader.poll(4), ReadStep::Nothing));
}

#[test]
fn written_bytes_become_one_frame() {
    assert!(single_frame(b"").is_none());
    assert_eq!(single_frame(b"abc"), Some(Bytes::from_static(b"abc")));
    let buffers: [&[u8]; 4] = [b"ab", b"", b"c", b"def"];
    assert_eq!(total_length(&buffers), Some(6));
    assert_eq!(gathered_frame(&buffers), Some(Bytes::from_static(b"abcdef")));
    let nothing: [&[u8]; 2] = [b"", b""];
    assert_eq!(total_length(&nothing), Some(0));
    assert!(gathered_frame(&nothing).is_none());
    assert_eq!(RESPONSE_BODY_CHANNEL_CAPACITY, 4);
}

#[test]
fn kinds_of_frames_have_names() {
    for (opcode, code, name) in [
        (OpCode::Continuation, 0, "continuation"),
        (OpCode::Text, 1, "text"),
        (OpCode::Binary, 2, "binary"),
        (OpCode::Close, 8, "close"),
        (OpCode::Ping, 9, "ping"),
        (OpCode::Pong, 10, "pong"),
    ] {
        assert_eq!(opcode.as_u8(), code);
        assert_eq!(opcode_name(code), name);
    }
    assert_eq!(opcode_name(255), "none");
}

#[test]
fn stages_are_found_again() {
    let stages = [
        (RelayStage::AwaitingRead, "awaiting_read"),
        (RelayStage::WaitingWriterLock, "waiting_writer_lock"),
        (RelayStage::WritingDataFrame, "writing_data_frame"),
        (RelayStage::WritingControlFrame, "writing_control_frame"),
        (RelayStage::WritingStreamBytes, "writing_stream_bytes"),
        (RelayStage::FlushingFrame, "flushing_frame"),
        (RelayStage::PeerClosed, "peer_closed"),
        (RelayStage::Cancelled, "cancelled"),
        (RelayStage::Ended, "ended"),
    ];
    for (i, (stage, name)) in stages.into_iter().enumerate() {
        assert_eq!(usize::from(stage.as_u8()), i);
        assert_eq!(RelayStage::from_u8(stage.as_u8()), stage);
        assert_eq!(stage.as_str(), name);
        assert_eq!(stage.is_waiting_for_input(), i == 0);
        assert_eq!(stage.is_write_path(), (1..=5).contains(&i));
    }
    assert_eq!(RelayStage::from_u8(200), RelayStage::Ended);
}

#[test]
fn a_direction_is_recorded() {
    let at = |millis: u64| Duration::new(100 + millis / 1000, (millis % 1000) as u32 * 1_000_000);
    let mut record = DirectionDiagnostics::new(at(0), true, true);
    record.record_read(OpCode::Text, true, 100, &at(10));
    record.record_forwarded(100, &at(15));
    record.record_read(OpCode::Binary, false, 2000, &at(110));
    record.record_control_frame(OpCode::Ping, true, 4, &at(150));
    record.set_stage(RelayStage::WritingDataFrame);
    assert_eq!(record.elapsed_millis(&at(200)), 200);
    let snapshot = record.snapshot(&at(200));
    assert_eq!(snapshot.stage, RelayStage::WritingDataFrame);
    assert_eq!(snapshot.read_frames, 2);
    assert_eq!(snapshot.forwarded_frames, 1);
    assert_eq!(snapshot.read_bytes, 2100);
    assert_eq!(snapshot.forwarded_bytes, 100);
    assert_eq!(snapshot.small_frames, 1);
    assert_eq!(snapshot.control_frames, 1);
    assert_eq!(snapshot.minimum_frame_bytes, Some(100));
    assert_eq!(snapshot.maximum_frame_bytes, 2000);
    assert_eq!(snapshot.max_inter_frame_gap_ms, 100);
    assert_eq!(snapshot.last_frame_opcode, "ping");
    assert!(snapshot.last_frame_fin);
    assert_eq!(snapshot.last_frame_payload_bytes, 4);
    let last = record.finish(RelayStage::PeerClosed, &at(300));
    assert_eq!(last.stage, RelayStage::PeerClosed);
    let mut record = DirectionDiagnostics::new(at(0), true, true);
    record.set_stage(RelayStage::FlushingFrame);
    assert_eq!(record.finish_current_stage(&at(1)).stage, RelayStage::FlushingFrame);
    assert_eq!(record.snapshot(&at(1)).stage, RelayStage::Ended);
    assert_eq!(record.snapshot(&at(1)).minimum_frame_bytes, None);
    assert_eq!(record.snapshot(&at(1)).last_frame_opcode, "none");
}

#[test]
fn a_direction_that_is_not_recorded_stays_empty() {
    let now = Duration::from_secs(7);
    let mut record = DirectionDiagnostics::new(Duration::from_secs(5), false, false);
    record.record_read(OpCode::Text, true, 100, &now);
    record.record_forwarded(100, &now);
    record.record_control_frame(OpCode::Ping, true, 4, &now);
    let snapshot = record.snapshot(&now);
    assert_eq!(snapshot.read_frames, 0);
    assert_eq!(snapshot.forwarded_frames, 0);
    assert_eq!(snapshot.control_frames, 0);
}
