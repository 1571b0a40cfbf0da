//! Connections to the gateway, the requests on them, and the way the gateway comes to its end.

use std::sync::Arc;

use vstd::prelude::*;

use crate::config::observability::ObservabilityMode;
use crate::grpc::routes::{GrpcRoute, GrpcRouteModel, GrpcRouteTable, GrpcRouteTableModel};
use crate::http::reply::{plain_text, text_response, Reply, ReplyModel};
use crate::http::request::Method;
use crate::observability::{incremented, ActiveConnection, Counters, RuntimeObservability};
use crate::routes::{Route, RouteModel, RouteTable, RouteTableModel};
use crate::text::same_text;
use crate::time::Duration;

verus! {

/// Where a request goes.
pub enum Dispatch {
    /// The gateway answers itself.
    Answer(Reply),
    WebSocket(Arc<Route>),
    Grpc(Arc<GrpcRoute>),
}

pub enum DispatchModel {
    Answer(ReplyModel),
    WebSocket(RouteModel),
    Grpc(GrpcRouteModel),
}

impl View for Dispatch {
    type V = DispatchModel;

    open spec fn view(&self) -> DispatchModel {
        match self {
            Dispatch::Answer(reply) => DispatchModel::Answer(reply@),
            Dispatch::WebSocket(route) => DispatchModel::WebSocket(route@),
            Dispatch::Grpc(route) => DispatchModel::Grpc(route@),
        }
    }
}

pub open spec fn is_health_path(path: Seq<char>) -> bool {
    path == "/health/live"@ || path == "/health/ready"@
}

/// Where a request goes: health checks come first, then WebSocket routes, then gRPC routes.
pub open spec fn destination(
    method: Method,
    path: Seq<char>,
    routes: RouteTableModel,
    grpc_routes: GrpcRouteTableModel,
) -> DispatchModel {
    if method == Method::Get && is_health_path(path) {
        DispatchModel::Answer(plain_text(200, "ok\n"@))
    } else if routes.routes.contains_key(path) {
        DispatchModel::WebSocket(routes.routes[path])
    } else if grpc_routes.routes.contains_key(path) {
        DispatchModel::Grpc(grpc_routes.routes[path])
    } else {
        DispatchModel::Answer(plain_text(404, "not found\n"@))
    }
}

pub fn dispatch(
    method: Method,
    path: &str,
    routes: &RouteTable,
    grpc_routes: &GrpcRouteTable,
) -> (r: Dispatch)
    ensures
        r@ == destination(method, path@, routes@, grpc_routes@),
{
    if method == Method::Get && (same_text(path, "/health/live") || same_text(
        path,
        "/health/ready",
    )) {
        return Dispatch::Answer(text_response(200, "ok\n"));
    }
    match routes.resolve(path) {
        Some(route) => {
            return Dispatch::WebSocket(route);
        },
        None => {},
    }
    match grpc_routes.resolve(path) {
        Some(route) => {
            return Dispatch::Grpc(route);
        },
        None => {},
    }
    Dispatch::Answer(text_response(404, "not found\n"))
}

/// Health checks are answered whatever the routes are.
pub proof fn law_health_checks_are_always_answered(
    path: Seq<char>,
    routes: RouteTableModel,
    grpc_routes: GrpcRouteTableModel,
)
    requires
        is_health_path(path),
    ensures
        destination(Method::Get, path, routes, grpc_routes) == DispatchModel::Answer(
            plain_text(200, "ok\n"@),
        ),
{
}

/// A path that two kinds of routes name belongs to the WebSocket route.
pub proof fn law_websocket_routes_come_first(
    method: Method,
    path: Seq<char>,
    routes: RouteTableModel,
    grpc_routes: GrpcRouteTableModel,
)
    requires
        !(method == Method::Get && is_health_path(path)),
        routes.routes.contains_key(path),
    ensures
        destination(method, path, routes, grpc_routes) == DispatchModel::WebSocket(
            routes.routes[path],
        ),
{
}

/// Why a connection came to its end after its handshake.
#[derive(Clone, Copy, Debug, PartialEq, Eq, Structural)]
pub enum ConnectionEnd {
    PeerClosed,
    HttpError,
    GatewayShutdown,
    ShutdownError,
    ShutdownTimeout,
}

impl ConnectionEnd {
    pub open spec fn name(self) -> Seq<char> {
        match self {
            ConnectionEnd::PeerClosed => "peer_closed"@,
            ConnectionEnd::HttpError => "http_error"@,
            ConnectionEnd::GatewayShutdown => "gateway_shutdown"@,
            ConnectionEnd::ShutdownError => "shutdown_error"@,
            ConnectionEnd::ShutdownTimeout => "shutdown_timeout"@,
        }
    }

    pub fn as_str(self) -> (r: &'static str)
        ensures
            r@ == self.name(),
    {
        match self {
            ConnectionEnd::PeerClosed => "peer_closed",
            ConnectionEnd::HttpError => "http_error",
            ConnectionEnd::GatewayShutdown => "gateway_shutdown",
            ConnectionEnd::ShutdownError => "shutdown_error",
            ConnectionEnd::ShutdownTimeout => "shutdown_timeout",
        }
    }
}

/// Where a connection stands.
#[derive(Clone, Copy, Debug, PartialEq, Eq, Structural)]
pub enum ConnectionPhase {
    Handshaking,
    Serving,
    /// The gateway shuts down; requests in progress may end within the grace period.
    Draining,
    /// The handshake came to nothing.
    Refused,
    Ended { end: ConnectionEnd },
}

/// What happened to a connection.
#[derive(Clone, Copy, Debug, PartialEq, Eq, Structural)]
pub enum ConnectionEvent {
    HandshakeDone,
    HandshakeFailed,
    HandshakeTimedOut,
    /// A request came in.
    Request,
    /// The connection is over, in order.
    Finished,
    /// The connection is over by an error.
    Failed,
    Cancelled,
    GraceTimedOut,
}

/// What is to be done with a connection.
#[derive(Clone, Copy, Debug, PartialEq, Eq, Structural)]
pub enum ConnectionAction {
    /// Serve requests.
    Serve,
    /// Take no more requests, and wait for those in progress for the grace period.
    ShutDownGracefully,
    /// Nothing more.
    Close,
}

/// A connection from its acceptance to its end.
pub struct ConnectionSession {
    phase: ConnectionPhase,
    request_count: u64,
}

pub struct ConnectionModel {
    pub phase: ConnectionPhase,
    pub request_count: u64,
}

impl View for ConnectionSession {
    type V = ConnectionModel;

    closed spec fn view(&self) -> ConnectionModel {
        ConnectionModel { phase: self.phase, request_count: self.request_count }
    }
}

impl ConnectionModel {
    /// Whether an event can occur in the connection's phase.
    pub open spec fn accepts(self, event: ConnectionEvent) -> bool {
        match self.phase {
            ConnectionPhase::Handshaking => event == ConnectionEvent::HandshakeDone || event
                == ConnectionEvent::HandshakeFailed || event == ConnectionEvent::HandshakeTimedOut,
            ConnectionPhase::Serving => event == ConnectionEvent::Request || event
                == ConnectionEvent::Finished || event == ConnectionEvent::Failed || event
                == ConnectionEvent::Cancelled,
            ConnectionPhase::Draining => event == ConnectionEvent::Request || event
                == ConnectionEvent::Finished || event == ConnectionEvent::Failed || event
                == ConnectionEvent::GraceTimedOut,
            _ => false,
        }
    }

    /// The phase after an event that the connection accepts.
    pub open spec fn next_phase(self, event: ConnectionEvent) -> ConnectionPhase {
        match (self.phase, event) {
            (ConnectionPhase::Handshaking, ConnectionEvent::HandshakeDone) => {
                ConnectionPhase::Serving
            },
            (ConnectionPhase::Handshaking, _) => ConnectionPhase::Refused,
            (phase, ConnectionEvent::Request) => phase,
            (ConnectionPhase::Serving, ConnectionEvent::Finished) => ConnectionPhase::Ended {
                end: ConnectionEnd::PeerClosed,
            },
            (ConnectionPhase::Serving, ConnectionEvent::Failed) => ConnectionPhase::Ended {
                end: ConnectionEnd::HttpError,
            },
            (ConnectionPhase::Serving, _) => ConnectionPhase::Draining,
            (_, ConnectionEvent::Finished) => ConnectionPhase::Ended {
                end: ConnectionEnd::GatewayShutdown,
            },
            (_, ConnectionEvent::Failed) => ConnectionPhase::Ended {
                end: ConnectionEnd::ShutdownError,
            },
            _ => ConnectionPhase::Ended { end: ConnectionEnd::ShutdownTimeout },
        }
    }

    pub open spec fn after(self, event: ConnectionEvent) -> ConnectionModel {
        ConnectionModel {
            phase: self.next_phase(event),
            request_count: if event == ConnectionEvent::Request {
                incremented(self.request_count)
            } else {
                self.request_count
            },
        }
    }

    pub open spec fn action(self, event: ConnectionEvent) -> ConnectionAction {
        match self.next_phase(event) {
            ConnectionPhase::Handshaking | ConnectionPhase::Serving => ConnectionAction::Serve,
            ConnectionPhase::Draining => ConnectionAction::ShutDownGracefully,
            _ => ConnectionAction::Close,
        }
    }
}

/// What an event changes in the counters.
pub open spec fn connection_counted(
    observability: RuntimeObservability,
    event: ConnectionEvent,
) -> RuntimeObservability {
    let c = observability.counters;
    let detailed = observability.mode == ObservabilityMode::Diagnostic;
    match event {
        ConnectionEvent::HandshakeDone => if detailed {
            observability.counting(
                Counters {
                    tls_handshake_success_total: incremented(c.tls_handshake_success_total),
                    ..c
                },
            )
        } else {
            observability
        },
        ConnectionEvent::HandshakeFailed => observability.counting(
            Counters {
                tls_handshake_failures_total: incremented(c.tls_handshake_failures_total),
                ..c
            },
        ),
        ConnectionEvent::HandshakeTimedOut => observability.counting(
            Counters {
                tls_handshake_timeouts_total: incremented(c.tls_handshake_timeouts_total),
                ..c
            },
        ),
        ConnectionEvent::Failed => if detailed {
            observability.counting(
                Counters {
                    http_connection_errors_total: incremented(c.http_connection_errors_total),
                    ..c
                },
            )
        } else {
            observability
        },
        _ => observability,
    }
}

/// What is known of a connection when it is over.
pub struct ConnectionSummary {
    pub close_reason: &'static str,
    pub request_count: u64,
    pub duration_ms: u128,
    pub remaining_active: u64,
}

impl ConnectionSession {
    pub fn new() -> (r: ConnectionSession)
        ensures
            r@ == (ConnectionModel { phase: ConnectionPhase::Handshaking, request_count: 0 }),
    {
        ConnectionSession { phase: ConnectionPhase::Handshaking, request_count: 0 }
    }

    pub fn phase(&self) -> (r: ConnectionPhase)
        ensures
            r == self@.phase,
    {
        self.phase
    }

    /// Whether an event can occur in the connection's phase.
    pub fn expects(&self, event: ConnectionEvent) -> (r: bool)
        ensures
            r == self@.accepts(event),
    {
        match self.phase {
            ConnectionPhase::Handshaking => event == ConnectionEvent::HandshakeDone || event
                == ConnectionEvent::HandshakeFailed || event == ConnectionEvent::HandshakeTimedOut,
            ConnectionPhase::Serving => event == ConnectionEvent::Request || event
                == ConnectionEvent::Finished || event == ConnectionEvent::Failed || event
                == ConnectionEvent::Cancelled,
            ConnectionPhase::Draining => event == ConnectionEvent::Request || event
                == ConnectionEvent::Finished || event == ConnectionEvent::Failed || event
                == ConnectionEvent::GraceTimedOut,
            _ => false,
        }
    }

    /// Takes an event that the connection accepts, counts it, and says what to do next.
    pub fn on_event(
        &mut self,
        event: ConnectionEvent,
        observability: &mut RuntimeObservability,
    ) -> (r: ConnectionAction)
        requires
            old(self)@.accepts(event),
        ensures
            final(self)@ == old(self)@.after(event),
            r == old(self)@.action(event),
            *final(observability) == connection_counted(*old(observability), event),
    {
        match event {
            ConnectionEvent::HandshakeDone => {
                observability.record_tls_handshake_success();
                self.phase = ConnectionPhase::Serving;
                ConnectionAction::Serve
            },
            ConnectionEvent::HandshakeFailed => {
                observability.record_tls_handshake_failure();
                self.phase = ConnectionPhase::Refused;
                ConnectionAction::Close
            },
            ConnectionEvent::HandshakeTimedOut => {
                observability.record_tls_handshake_timeout();
                self.phase = ConnectionPhase::Refused;
                ConnectionAction::Close
            },
            ConnectionEvent::Request => {
                self.request_count = self.request_count.wrapping_add(1);
                if self.phase == ConnectionPhase::Draining {
                    ConnectionAction::ShutDownGracefully
                } else {
                    ConnectionAction::Serve
                }
            },
            ConnectionEvent::Finished => {
                let end = if self.phase == ConnectionPhase::Serving {
                    ConnectionEnd::PeerClosed
                } else {
                    ConnectionEnd::GatewayShutdown
                };
                self.phase = ConnectionPhase::Ended { end };
                ConnectionAction::Close
            },
            ConnectionEvent::Failed => {
                observability.record_http_connection_error();
                let end = if self.phase == ConnectionPhase::Serving {
                    ConnectionEnd::HttpError
                } else {
                    ConnectionEnd::ShutdownError
                };
                self.phase = ConnectionPhase::Ended { end };
                ConnectionAction::Close
            },
            ConnectionEvent::Cancelled => {
                self.phase = ConnectionPhase::Draining;
                ConnectionAction::ShutDownGracefully
            },
            ConnectionEvent::GraceTimedOut => {
                self.phase = ConnectionPhase::Ended { end: ConnectionEnd::ShutdownTimeout };
                ConnectionAction::Close
            },
        }
    }

    /// Sums up a connection that lasted `duration`; one that was refused has no summary.
    pub fn summary(
        &self,
        duration: &Duration,
        active_connection: &ActiveConnection,
        observability: &RuntimeObservability,
    ) -> (r: Option<ConnectionSummary>)
        ensures
            match self@.phase {
                ConnectionPhase::Ended { end } => r matches Some(summary) && {
                    &&& summary.close_reason@ == end.name()
                    &&& summary.request_count == self@.request_count
                    &&& summary.duration_ms == duration@ / 1_000_000
                    &&& summary.remaining_active == (if observability.counters.active(
                        active_connection@,
                    ) == 0 {
                        0
                    } else {
                        observability.counters.active(active_connection@) - 1
                    })
                },
                _ => r is None,
            },
    {
        match self.phase {
            ConnectionPhase::Ended { end } => Some(
                ConnectionSummary {
                    close_reason: end.as_str(),
                    request_count: self.request_count,
                    duration_ms: duration.as_millis(),
                    remaining_active: active_connection.active_connections(
                        observability,
                    ).saturating_sub(1),
                },
            ),
            _ => None,
        }
    }
}

/// A connection that ends accepts no further event, and one that has not ended accepts some.
pub proof fn law_connection_ends_once(connection: ConnectionModel, event: ConnectionEvent)
    ensures
        (connection.phase is Ended || connection.phase == ConnectionPhase::Refused)
            ==> !connection.accepts(event),
        !(connection.phase is Ended || connection.phase == ConnectionPhase::Refused) ==> {
            ||| connection.accepts(ConnectionEvent::HandshakeDone)
            ||| connection.accepts(ConnectionEvent::Finished)
        },
{
}

/// A connection is served only after its handshake, and after a cancellation it ends for a reason
/// of the shutdown.
pub proof fn law_shutdown_reasons(connection: ConnectionModel, event: ConnectionEvent)
    requires
        connection.accepts(event),
        connection.next_phase(event) is Ended,
    ensures
        ({
            let end = connection.next_phase(event)->end;
            let by_shutdown = end == ConnectionEnd::GatewayShutdown || end
                == ConnectionEnd::ShutdownError || end == ConnectionEnd::ShutdownTimeout;
            &&& connection.phase == ConnectionPhase::Serving ==> !by_shutdown
            &&& connection.phase == ConnectionPhase::Draining ==> by_shutdown
            &&& connection.phase != ConnectionPhase::Handshaking
        }),
{
}

/// How far the gateway has come.
#[derive(Clone, Copy, Debug, PartialEq, Eq, Structural)]
pub enum ListenerPhase {
    /// Connections are accepted.
    Accepting,
    /// No more connections are accepted; those that are left are waited for.
    DrainingConnections,
    /// Relays and calls are waited for, within the grace period.
    DrainingTasks,
    /// The counters are written for the last time.
    DrainingReports,
    Stopped,
    /// The listener itself failed.
    Broken,
}

/// What happened to the gateway.
#[derive(Clone, Copy, Debug, PartialEq, Eq, Structural)]
pub enum ListenerEvent {
    ShutdownSignal,
    Accepted,
    AcceptFailed,
    ConnectionDone,
    NoConnections,
    TasksDone,
    GraceTimedOut,
    ReportsDone,
}

/// What is to be done.
#[derive(Clone, Copy, Debug, PartialEq, Eq, Structural)]
pub enum ListenerAction {
    /// Wait for what happens next.
    Wait,
    /// Serve the connection that was accepted.
    Serve,
    /// Cancel every connection, relay and call, and wait for the connections.
    CancelAll,
    /// Wait for relays and calls for the grace period.
    WaitForTasks,
    /// Have the counters written for the last time, and wait for that.
    StopReports,
    /// The gateway is done.
    Stop,
    /// The gateway ends with the error of the listener.
    Fail,
}

impl ListenerPhase {
    /// Whether an event can occur in this phase.
    pub open spec fn accepts(self, event: ListenerEvent) -> bool {
        match self {
            ListenerPhase::Accepting => event == ListenerEvent::ShutdownSignal || event
                == ListenerEvent::Accepted || event == ListenerEvent::AcceptFailed || event
                == ListenerEvent::ConnectionDone,
            ListenerPhase::DrainingConnections => event == ListenerEvent::ConnectionDone || event
                == ListenerEvent::NoConnections,
            ListenerPhase::DrainingTasks => event == ListenerEvent::TasksDone || event
                == ListenerEvent::GraceTimedOut,
            ListenerPhase::DrainingReports => event == ListenerEvent::ReportsDone,
            _ => false,
        }
    }

    /// The phase after an event that this phase accepts.
    pub open spec fn after(self, event: ListenerEvent) -> ListenerPhase {
        match event {
            ListenerEvent::ShutdownSignal => ListenerPhase::DrainingConnections,
            ListenerEvent::AcceptFailed => ListenerPhase::Broken,
            ListenerEvent::NoConnections => ListenerPhase::DrainingTasks,
            ListenerEvent::TasksDone | ListenerEvent::GraceTimedOut => {
                ListenerPhase::DrainingReports
            },
            ListenerEvent::ReportsDone => ListenerPhase::Stopped,
            ListenerEvent::Accepted | ListenerEvent::ConnectionDone => self,
        }
    }

    pub open spec fn action(self, event: ListenerEvent) -> ListenerAction {
        match event {
            ListenerEvent::Accepted => ListenerAction::Serve,
            ListenerEvent::ConnectionDone => ListenerAction::Wait,
            ListenerEvent::ShutdownSignal => ListenerAction::CancelAll,
            ListenerEvent::AcceptFailed => ListenerAction::Fail,
            ListenerEvent::NoConnections => ListenerAction::WaitForTasks,
            ListenerEvent::TasksDone | ListenerEvent::GraceTimedOut => ListenerAction::StopReports,
            ListenerEvent::ReportsDone => ListenerAction::Stop,
        }
    }

    /// How many phases are still to come before the gateway is done.
    pub open spec fn remaining(self) -> nat {
        match self {
            ListenerPhase::Accepting => 4,
            ListenerPhase::DrainingConnections => 3,
            ListenerPhase::DrainingTasks => 2,
            ListenerPhase::DrainingReports => 1,
            _ => 0,
        }
    }

    /// Whether an event can occur in this phase.
    pub fn expects(self, event: ListenerEvent) -> (r: bool)
        ensures
            r == self.accepts(event),
    {
        match self {
            ListenerPhase::Accepting => event == ListenerEvent::ShutdownSignal || event
                == ListenerEvent::Accepted || event == ListenerEvent::AcceptFailed || event
                == ListenerEvent::ConnectionDone,
            ListenerPhase::DrainingConnections => event == ListenerEvent::ConnectionDone || event
                == ListenerEvent::NoConnections,
            ListenerPhase::DrainingTasks => event == ListenerEvent::TasksDone || event
                == ListenerEvent::GraceTimedOut,
            ListenerPhase::DrainingReports => event == ListenerEvent::ReportsDone,
            _ => false,
        }
    }

    /// Takes an event that this phase accepts, and says what to do next.
    pub fn on_event(&mut self, event: ListenerEvent) -> (r: ListenerAction)
        requires
            old(self).accepts(event),
        ensures
            *final(self) == old(self).after(event),
            r == old(self).action(event),
    {
        match event {
            ListenerEvent::Accepted => ListenerAction::Serve,
            ListenerEvent::ConnectionDone => ListenerAction::Wait,
            ListenerEvent::ShutdownSignal => {
                *self = ListenerPhase::DrainingConnections;
                ListenerAction::CancelAll
            },
            ListenerEvent::AcceptFailed => {
                *self = ListenerPhase::Broken;
                ListenerAction::Fail
            },
            ListenerEvent::NoConnections => {
                *self = ListenerPhase::DrainingTasks;
                ListenerAction::WaitForTasks
            },
            ListenerEvent::TasksDone | ListenerEvent::GraceTimedOut => {
                *self = ListenerPhase::DrainingReports;
                ListenerAction::StopReports
            },
            ListenerEvent::ReportsDone => {
                *self = ListenerPhase::Stopped;
                ListenerAction::Stop
            },
        }
    }
}

/// The gateway goes down in order: connections, then relays and calls, then reports. No event
/// leads back, and no connection is accepted once the shutdown has begun.
pub proof fn law_shutdown_is_ordered(phase: ListenerPhase, event: ListenerEvent)
    requires
        phase.accepts(event),
    ensures
        phase.after(event) == phase || phase.after(event) == ListenerPhase::Broken
            || phase.after(event).remaining() + 1 == phase.remaining(),
        event == ListenerEvent::Accepted ==> phase == ListenerPhase::Accepting,
        phase.action(event) == ListenerAction::Stop ==> phase == ListenerPhase::DrainingReports,
{
}

/// Where a request goes: only a GET of one of the two health paths, and a path that no route takes,
/// is answered by the gateway itself, the one with 200 and the other with 404. A path that a route
/// takes goes to that very route.
pub proof fn law_requests_go_to_the_route_of_their_path(
    method: Method,
    path: Seq<char>,
    routes: RouteTableModel,
    grpc_routes: GrpcRouteTableModel,
)
    ensures
        ({
            let d = destination(method, path, routes, grpc_routes);
            let health = method == Method::Get && (path == "/health/live"@ || path
                == "/health/ready"@);
            let websocket = routes.routes.contains_key(path);
            let grpc = grpc_routes.routes.contains_key(path);
            &&& d is WebSocket <==> !health && websocket
            &&& d is Grpc <==> !health && !websocket && grpc
            &&& d matches DispatchModel::WebSocket(route) ==> route == routes.routes[path]
            &&& d matches DispatchModel::Grpc(route) ==> route == grpc_routes.routes[path]
            &&& d matches DispatchModel::Answer(reply) ==> {
                &&& reply.status == (if health {
                    200u16
                } else {
                    404u16
                })
                &&& reply.body == (if health {
                    "ok\n"@
                } else {
                    "not found\n"@
                })
                &&& !reply.http2
                &&& reply.headers == seq![("content-type"@, "text/plain; charset=utf-8"@)]
            }
        }),
{
}

/// What ends a connection is what is on record: the peer or an error while it is served, and the
/// shutdown, its error or its timeout while the gateway goes down.
pub proof fn law_connections_end_for_their_own_reason(
    connection: ConnectionModel,
    event: ConnectionEvent,
)
    requires
        connection.accepts(event),
    ensures
        ({
            let next = connection.after(event).phase;
            let serving = connection.phase == ConnectionPhase::Serving;
            let draining = connection.phase == ConnectionPhase::Draining;
            &&& next == (ConnectionPhase::Ended { end: ConnectionEnd::PeerClosed }) <==> serving
                && event == ConnectionEvent::Finished
            &&& next == (ConnectionPhase::Ended { end: ConnectionEnd::HttpError }) <==> serving
                && event == ConnectionEvent::Failed
            &&& next == (ConnectionPhase::Ended { end: ConnectionEnd::GatewayShutdown })
                <==> draining && event == ConnectionEvent::Finished
            &&& next == (ConnectionPhase::Ended { end: ConnectionEnd::ShutdownError }) <==> draining
                && event == ConnectionEvent::Failed
            &&& next == (ConnectionPhase::Ended { end: ConnectionEnd::ShutdownTimeout })
                <==> draining && event == ConnectionEvent::GraceTimedOut
            &&& next == ConnectionPhase::Refused <==> event == ConnectionEvent::HandshakeFailed
                || event == ConnectionEvent::HandshakeTimedOut
            &&& next == ConnectionPhase::Draining <==> event == ConnectionEvent::Cancelled || (
            draining && event == ConnectionEvent::Request)
            &&& next == ConnectionPhase::Serving <==> event == ConnectionEvent::HandshakeDone || (
            serving && event == ConnectionEvent::Request)
        }),
{
}

/// What is done with a connection follows where it stands then: it is served, shut down gracefully,
/// or closed. A request is counted once, and nothing else is counted as one.
pub proof fn law_connections_are_served_until_they_end(
    connection: ConnectionModel,
    event: ConnectionEvent,
)
    requires
        connection.accepts(event),
    ensures
        ({
            let after = connection.after(event);
            let action = connection.action(event);
            &&& action == ConnectionAction::Serve <==> after.phase == ConnectionPhase::Serving
            &&& action == ConnectionAction::ShutDownGracefully <==> after.phase
                == ConnectionPhase::Draining
            &&& action == ConnectionAction::Close <==> after.phase is Ended || after.phase
                == ConnectionPhase::Refused
            &&& after.request_count == (if event == ConnectionEvent::Request {
                (connection.request_count + 1) % 0x1_0000_0000_0000_0000
            } else {
                connection.request_count as int
            })
        }),
{
}

/// Which events a connection takes: its handshake first, then requests until it is over, and a
/// cancellation once.
pub proof fn law_connections_take_events_in_order(
    connection: ConnectionModel,
    event: ConnectionEvent,
)
    ensures
        connection.accepts(event) <==> match event {
            ConnectionEvent::HandshakeDone
            | ConnectionEvent::HandshakeFailed
            | ConnectionEvent::HandshakeTimedOut => connection.phase == ConnectionPhase::Handshaking,
            ConnectionEvent::Request | ConnectionEvent::Finished | ConnectionEvent::Failed => {
                connection.phase == ConnectionPhase::Serving || connection.phase
                    == ConnectionPhase::Draining
            },
            ConnectionEvent::Cancelled => connection.phase == ConnectionPhase::Serving,
            ConnectionEvent::GraceTimedOut => connection.phase == ConnectionPhase::Draining,
        },
{
}

/// Each outcome of a handshake, and an error of a connection, is counted once under its own
/// counter; successes and errors of HTTP only in the diagnostic profile. Nothing else changes.
pub proof fn law_connection_events_are_counted(
    observability: RuntimeObservability,
    event: ConnectionEvent,
)
    ensures
        ({
            let after = connection_counted(observability, event);
            let b = observability.counters;
            let a = after.counters;
            let detailed = observability.mode == ObservabilityMode::Diagnostic;
            let n = 0x1_0000_0000_0000_0000int;
            let count = |before: u64, now: u64, counted: bool| now == (if counted {
                (before + 1) % n
            } else {
                before as int
            });
            &&& count(
                b.tls_handshake_success_total,
                a.tls_handshake_success_total,
                detailed && event == ConnectionEvent::HandshakeDone,
            )
            &&& count(
                b.tls_handshake_failures_total,
                a.tls_handshake_failures_total,
                event == ConnectionEvent::HandshakeFailed,
            )
            &&& count(
                b.tls_handshake_timeouts_total,
                a.tls_handshake_timeouts_total,
                event == ConnectionEvent::HandshakeTimedOut,
            )
            &&& count(
                b.http_connection_errors_total,
                a.http_connection_errors_total,
                detailed && event == ConnectionEvent::Failed,
            )
            &&& after == (RuntimeObservability {
                counters: Counters {
                    tls_handshake_success_total: a.tls_handshake_success_total,
                    tls_handshake_failures_total: a.tls_handshake_failures_total,
                    tls_handshake_timeouts_total: a.tls_handshake_timeouts_total,
                    http_connection_errors_total: a.http_connection_errors_total,
                    ..b
                },
                ..observability
            })
        }),
{
}

/// The way of the gateway from the signal to its end: everything is cancelled, the connections are
/// waited for, then the relays and calls, whether they end in time or not, then the reports, and
/// then it stops. A listener that fails ends it at once with that failure.
pub proof fn law_the_gateway_goes_down_step_by_step(late: bool)
    ensures
        ({
            let accepting = ListenerPhase::Accepting;
            let tasks_over = if late {
                ListenerEvent::GraceTimedOut
            } else {
                ListenerEvent::TasksDone
            };
            let p1 = accepting.after(ListenerEvent::ShutdownSignal);
            let p2 = p1.after(ListenerEvent::NoConnections);
            let p3 = p2.after(tasks_over);
            let p4 = p3.after(ListenerEvent::ReportsDone);
            &&& accepting.accepts(ListenerEvent::ShutdownSignal)
            &&& accepting.action(ListenerEvent::ShutdownSignal) == ListenerAction::CancelAll
            &&& p1.accepts(ListenerEvent::NoConnections)
            &&& p1.action(ListenerEvent::NoConnections) == ListenerAction::WaitForTasks
            &&& p1.accepts(ListenerEvent::ConnectionDone) && p1.after(ListenerEvent::ConnectionDone)
                == p1
            &&& p2.accepts(tasks_over) && p2.action(tasks_over) == ListenerAction::StopReports
            &&& p3.accepts(ListenerEvent::ReportsDone) && p3.action(ListenerEvent::ReportsDone)
                == ListenerAction::Stop
            &&& p4 == ListenerPhase::Stopped
            &&& accepting.accepts(ListenerEvent::Accepted) && accepting.action(
                ListenerEvent::Accepted,
            ) == ListenerAction::Serve && accepting.after(ListenerEvent::Accepted) == accepting
            &&& accepting.accepts(ListenerEvent::ConnectionDone) && accepting.action(
                ListenerEvent::ConnectionDone,
            ) == ListenerAction::Wait && accepting.after(ListenerEvent::ConnectionDone) == accepting
            &&& accepting.accepts(ListenerEvent::AcceptFailed) && accepting.action(
                ListenerEvent::AcceptFailed,
            ) == ListenerAction::Fail && accepting.after(ListenerEvent::AcceptFailed)
                == ListenerPhase::Broken
        }),
{
}

/// Which events the gateway takes in which phase, and that only an accepted connection is served
/// and only a failure of the listener fails it.
pub proof fn law_the_gateway_takes_events_in_order(phase: ListenerPhase, event: ListenerEvent)
    ensures
        phase.accepts(event) <==> match event {
            ListenerEvent::ShutdownSignal
            | ListenerEvent::Accepted
            | ListenerEvent::AcceptFailed => phase == ListenerPhase::Accepting,
            ListenerEvent::ConnectionDone => phase == ListenerPhase::Accepting || phase
                == ListenerPhase::DrainingConnections,
            ListenerEvent::NoConnections => phase == ListenerPhase::DrainingConnections,
            ListenerEvent::TasksDone | ListenerEvent::GraceTimedOut => phase
                == ListenerPhase::DrainingTasks,
            ListenerEvent::ReportsDone => phase == ListenerPhase::DrainingReports,
        },
        phase.action(event) == ListenerAction::Serve <==> event == ListenerEvent::Accepted,
        phase.action(event) == ListenerAction::Fail <==> event == ListenerEvent::AcceptFailed,
        phase.action(event) == ListenerAction::Wait <==> event == ListenerEvent::ConnectionDone,
{
}

/// The names of the reasons tell them apart.
pub proof fn law_end_names_are_distinct(a: ConnectionEnd, b: ConnectionEnd)
    ensures
        a.name() == b.name() ==> a == b,
{
    reveal_strlit("peer_closed");
    reveal_strlit("http_error");
    reveal_strlit("gateway_shutdown");
    reveal_strlit("shutdown_error");
    reveal_strlit("shutdown_timeout");
    assert("peer_closed"@[0] == 'p' && "http_error"@[0] == 'h' && "gateway_shutdown"@[0] == 'g'
        && "shutdown_error"@[9] == 'e' && "shutdown_timeout"@[9] == 't' && "shutdown_error"@[0]
        == 's' && "shutdown_timeout"@[0] == 's');
}

/// How the end of a connection is named on record.
pub proof fn law_ends_are_named(end: ConnectionEnd)
    ensures
        match end {
            ConnectionEnd::PeerClosed => end.name() == "peer_closed"@,
            ConnectionEnd::HttpError => end.name() == "http_error"@,
            ConnectionEnd::GatewayShutdown => end.name() == "gateway_shutdown"@,
            ConnectionEnd::ShutdownError => end.name() == "shutdown_error"@,
            ConnectionEnd::ShutdownTimeout => end.name() == "shutdown_timeout"@,
        },
{
}

} // verus!
