//! Counters of what passes through the gateway, and the lines they are reported in.

use vstd::prelude::*;

use crate::config::observability::{ObservabilityConfig, ObservabilityMode};
use crate::text::{append, append_decimal, decimal};
use crate::time::Duration;

verus! {

/// Which connection an [`ActiveConnection`] stands for.
#[derive(Clone, Copy, Debug, PartialEq, Eq, Structural)]
pub enum ConnectionKind {
    Transport,
    WebSocket,
}

/// Which way a frame goes.
#[derive(Clone, Copy, Debug, PartialEq, Eq, Structural)]
pub enum RelayDirection {
    ClientToBackend,
    BackendToClient,
}

/// Who or what ended a WebSocket connection.
#[derive(Clone, Copy, Debug, PartialEq, Eq, Structural)]
pub enum WebSocketCloseClass {
    ClientClosed,
    BackendClosed,
    GatewayShutdown,
    RelayError,
    InternalError,
}

/// What has gone one way through all relays.
#[derive(Clone, Copy, Debug, PartialEq, Eq, Structural)]
pub struct DirectionCounters {
    pub bytes_total: u64,
    pub forwarded_frames_total: u64,
    pub small_frames_total: u64,
    pub control_frames_total: u64,
    pub frames_le_64_bytes_total: u64,
    pub frames_le_1024_bytes_total: u64,
    pub frames_le_16384_bytes_total: u64,
    pub frames_le_65536_bytes_total: u64,
    pub frames_le_262144_bytes_total: u64,
    pub frames_gt_262144_bytes_total: u64,
}

/// Everything that is counted.
#[derive(Clone, Copy, Debug, PartialEq, Eq, Structural)]
pub struct Counters {
    pub active_transport_connections: u64,
    pub peak_transport_connections: u64,
    pub transport_connections_total: u64,
    pub tls_handshake_success_total: u64,
    pub tls_handshake_failures_total: u64,
    pub tls_handshake_timeouts_total: u64,
    pub http_connection_errors_total: u64,
    pub active_websocket_connections: u64,
    pub peak_websocket_connections: u64,
    pub websocket_connections_total: u64,
    pub websocket_backend_connect_failures_total: u64,
    pub websocket_backend_connect_timeouts_total: u64,
    pub websocket_upgrade_failures_total: u64,
    pub websocket_upgrade_timeouts_total: u64,
    pub websocket_relay_failures_total: u64,
    pub websocket_idle_events_total: u64,
    pub websocket_no_progress_events_total: u64,
    pub websocket_long_lived_connections_total: u64,
    pub websocket_short_lived_connections_total: u64,
    pub websocket_client_closed_total: u64,
    pub websocket_backend_closed_total: u64,
    pub websocket_gateway_shutdown_total: u64,
    pub client_to_backend: DirectionCounters,
    pub backend_to_client: DirectionCounters,
}

/// The counters of one gateway, with what decides which of them are kept.
pub struct RuntimeObservability {
    pub mode: ObservabilityMode,
    pub connection_event_logs_enabled: bool,
    pub summary_interval_seconds: u64,
    pub diagnostic_interval_seconds: u64,
    pub next_transport_connection_id: u64,
    pub next_websocket_connection_id: u64,
    pub counters: Counters,
}

/// A connection that counts as active until it is closed.
pub struct ActiveConnection {
    kind: ConnectionKind,
}

impl View for ActiveConnection {
    type V = ConnectionKind;

    closed spec fn view(&self) -> ConnectionKind {
        self.kind
    }
}

/// Where snapshots are written, and how often.
pub struct SnapshotOutput {
    pub path: String,
    pub interval: Duration,
}

/// A sum that starts over at zero past the largest counter.
pub open spec fn added(counter: u64, n: u64) -> u64 {
    ((counter + n) % 0x1_0000_0000_0000_0000) as u64
}

pub open spec fn incremented(counter: u64) -> u64 {
    added(counter, 1)
}

pub open spec fn decremented(counter: u64) -> u64 {
    added(counter, u64::MAX)
}

pub open spec fn no_directions() -> DirectionCounters {
    DirectionCounters {
        bytes_total: 0,
        forwarded_frames_total: 0,
        small_frames_total: 0,
        control_frames_total: 0,
        frames_le_64_bytes_total: 0,
        frames_le_1024_bytes_total: 0,
        frames_le_16384_bytes_total: 0,
        frames_le_65536_bytes_total: 0,
        frames_le_262144_bytes_total: 0,
        frames_gt_262144_bytes_total: 0,
    }
}

pub open spec fn no_counts() -> Counters {
    Counters {
        active_transport_connections: 0,
        peak_transport_connections: 0,
        transport_connections_total: 0,
        tls_handshake_success_total: 0,
        tls_handshake_failures_total: 0,
        tls_handshake_timeouts_total: 0,
        http_connection_errors_total: 0,
        active_websocket_connections: 0,
        peak_websocket_connections: 0,
        websocket_connections_total: 0,
        websocket_backend_connect_failures_total: 0,
        websocket_backend_connect_timeouts_total: 0,
        websocket_upgrade_failures_total: 0,
        websocket_upgrade_timeouts_total: 0,
        websocket_relay_failures_total: 0,
        websocket_idle_events_total: 0,
        websocket_no_progress_events_total: 0,
        websocket_long_lived_connections_total: 0,
        websocket_short_lived_connections_total: 0,
        websocket_client_closed_total: 0,
        websocket_backend_closed_total: 0,
        websocket_gateway_shutdown_total: 0,
        client_to_backend: no_directions(),
        backend_to_client: no_directions(),
    }
}

impl Default for DirectionCounters {
    fn default() -> (r: DirectionCounters)
        ensures
            r == no_directions(),
    {
        DirectionCounters {
            bytes_total: 0,
            forwarded_frames_total: 0,
            small_frames_total: 0,
            control_frames_total: 0,
            frames_le_64_bytes_total: 0,
            frames_le_1024_bytes_total: 0,
            frames_le_16384_bytes_total: 0,
            frames_le_65536_bytes_total: 0,
            frames_le_262144_bytes_total: 0,
            frames_gt_262144_bytes_total: 0,
        }
    }
}

impl Default for Counters {
    fn default() -> (r: Counters)
        ensures
            r == no_counts(),
    {
        Counters {
            active_transport_connections: 0,
            peak_transport_connections: 0,
            transport_connections_total: 0,
            tls_handshake_success_total: 0,
            tls_handshake_failures_total: 0,
            tls_handshake_timeouts_total: 0,
            http_connection_errors_total: 0,
            active_websocket_connections: 0,
            peak_websocket_connections: 0,
            websocket_connections_total: 0,
            websocket_backend_connect_failures_total: 0,
            websocket_backend_connect_timeouts_total: 0,
            websocket_upgrade_failures_total: 0,
            websocket_upgrade_timeouts_total: 0,
            websocket_relay_failures_total: 0,
            websocket_idle_events_total: 0,
            websocket_no_progress_events_total: 0,
            websocket_long_lived_connections_total: 0,
            websocket_short_lived_connections_total: 0,
            websocket_client_closed_total: 0,
            websocket_backend_closed_total: 0,
            websocket_gateway_shutdown_total: 0,
            client_to_backend: DirectionCounters::default(),
            backend_to_client: DirectionCounters::default(),
        }
    }
}

pub fn increment(counter: &mut u64)
    ensures
        *final(counter) == incremented(*old(counter)),
{
    *counter = counter.wrapping_add(1);
}

pub fn load(counter: &u64) -> (r: u64)
    ensures
        r == *counter,
{
    *counter
}

/// One more than `active`, no more than the largest counter.
pub open spec fn saturated_next(active: u64) -> u64 {
    if active == u64::MAX {
        u64::MAX
    } else {
        (active + 1) as u64
    }
}

pub open spec fn larger(a: u64, b: u64) -> u64 {
    if a < b {
        b
    } else {
        a
    }
}

pub fn increment_active(active: &mut u64, peak: &mut u64)
    ensures
        *final(active) == incremented(*old(active)),
        *final(peak) == larger(*old(peak), saturated_next(*old(active))),
{
    let current: u64 = active.saturating_add(1);
    *active = active.wrapping_add(1);
    if *peak < current {
        *peak = current;
    }
}

/// The milliseconds since the epoch; zero for a clock that stands before it.
pub fn unix_time_millis(since_epoch: Option<Duration>) -> (r: u128)
    ensures
        r == (match since_epoch {
            Some(span) => span@ / 1_000_000,
            None => 0nat,
        }),
{
    match since_epoch {
        Some(span) => span.as_millis(),
        None => 0,
    }
}

impl Counters {
    pub open spec fn of(self, direction: RelayDirection) -> DirectionCounters {
        match direction {
            RelayDirection::ClientToBackend => self.client_to_backend,
            RelayDirection::BackendToClient => self.backend_to_client,
        }
    }

    /// The same counts but for one direction.
    pub open spec fn with(self, direction: RelayDirection, counts: DirectionCounters) -> Counters {
        match direction {
            RelayDirection::ClientToBackend => Counters { client_to_backend: counts, ..self },
            RelayDirection::BackendToClient => Counters { backend_to_client: counts, ..self },
        }
    }

    /// How many connections of one kind are active.
    pub open spec fn active(self, kind: ConnectionKind) -> u64 {
        match kind {
            ConnectionKind::Transport => self.active_transport_connections,
            ConnectionKind::WebSocket => self.active_websocket_connections,
        }
    }

    /// The most connections of one kind that were active at once.
    pub open spec fn peak(self, kind: ConnectionKind) -> u64 {
        match kind {
            ConnectionKind::Transport => self.peak_transport_connections,
            ConnectionKind::WebSocket => self.peak_websocket_connections,
        }
    }
}

/// The counts of one direction after a frame of `bytes` bytes, seen in detail.
pub open spec fn with_frame(c: DirectionCounters, bytes: usize) -> DirectionCounters {
    DirectionCounters {
        bytes_total: added(c.bytes_total, bytes as u64),
        forwarded_frames_total: incremented(c.forwarded_frames_total),
        small_frames_total: if bytes <= 1024 {
            incremented(c.small_frames_total)
        } else {
            c.small_frames_total
        },
        control_frames_total: c.control_frames_total,
        frames_le_64_bytes_total: if bytes <= 64 {
            incremented(c.frames_le_64_bytes_total)
        } else {
            c.frames_le_64_bytes_total
        },
        frames_le_1024_bytes_total: if 64 < bytes <= 1024 {
            incremented(c.frames_le_1024_bytes_total)
        } else {
            c.frames_le_1024_bytes_total
        },
        frames_le_16384_bytes_total: if 1024 < bytes <= 16384 {
            incremented(c.frames_le_16384_bytes_total)
        } else {
            c.frames_le_16384_bytes_total
        },
        frames_le_65536_bytes_total: if 16384 < bytes <= 65536 {
            incremented(c.frames_le_65536_bytes_total)
        } else {
            c.frames_le_65536_bytes_total
        },
        frames_le_262144_bytes_total: if 65536 < bytes <= 262144 {
            incremented(c.frames_le_262144_bytes_total)
        } else {
            c.frames_le_262144_bytes_total
        },
        frames_gt_262144_bytes_total: if 262144 < bytes {
            incremented(c.frames_gt_262144_bytes_total)
        } else {
            c.frames_gt_262144_bytes_total
        },
    }
}

impl RuntimeObservability {
    /// The same gateway with other counts.
    pub open spec fn counting(self, counters: Counters) -> RuntimeObservability {
        RuntimeObservability { counters, ..self }
    }

    /// What a forwarded frame of `bytes` bytes changes.
    pub open spec fn after_frame(
        self,
        direction: RelayDirection,
        bytes: usize,
    ) -> RuntimeObservability {
        let c = self.counters.of(direction);
        match self.mode {
            ObservabilityMode::Off => self,
            ObservabilityMode::Production => self.counting(
                self.counters.with(
                    direction,
                    DirectionCounters { bytes_total: added(c.bytes_total, bytes as u64), ..c },
                ),
            ),
            ObservabilityMode::Diagnostic => self.counting(
                self.counters.with(direction, with_frame(c, bytes)),
            ),
        }
    }

    /// What a control frame changes.
    pub open spec fn after_control_frame(self, direction: RelayDirection) -> RuntimeObservability {
        let c = self.counters.of(direction);
        if self.mode == ObservabilityMode::Diagnostic {
            self.counting(
                self.counters.with(
                    direction,
                    DirectionCounters {
                        control_frames_total: incremented(c.control_frames_total),
                        ..c
                    },
                ),
            )
        } else {
            self
        }
    }

    /// What the end of a WebSocket connection changes.
    pub open spec fn after_close(
        self,
        close_class: WebSocketCloseClass,
        long_lived: bool,
        short_lived: bool,
    ) -> RuntimeObservability {
        let c = self.counters;
        let failed = close_class == WebSocketCloseClass::RelayError || close_class
            == WebSocketCloseClass::InternalError;
        let counted = self.mode != ObservabilityMode::Off;
        let detailed = self.mode == ObservabilityMode::Diagnostic;
        self.counting(
            Counters {
                websocket_relay_failures_total: if counted && failed {
                    incremented(c.websocket_relay_failures_total)
                } else {
                    c.websocket_relay_failures_total
                },
                websocket_long_lived_connections_total: if detailed && long_lived {
                    incremented(c.websocket_long_lived_connections_total)
                } else {
                    c.websocket_long_lived_connections_total
                },
                websocket_short_lived_connections_total: if detailed && short_lived {
                    incremented(c.websocket_short_lived_connections_total)
                } else {
                    c.websocket_short_lived_connections_total
                },
                websocket_client_closed_total: if detailed && close_class
                    == WebSocketCloseClass::ClientClosed {
                    incremented(c.websocket_client_closed_total)
                } else {
                    c.websocket_client_closed_total
                },
                websocket_backend_closed_total: if detailed && close_class
                    == WebSocketCloseClass::BackendClosed {
                    incremented(c.websocket_backend_closed_total)
                } else {
                    c.websocket_backend_closed_total
                },
                websocket_gateway_shutdown_total: if detailed && close_class
                    == WebSocketCloseClass::GatewayShutdown {
                    incremented(c.websocket_gateway_shutdown_total)
                } else {
                    c.websocket_gateway_shutdown_total
                },
                ..c
            },
        )
    }

    /// What the beginning of a connection changes, besides ids.
    pub open spec fn after_begin(self, kind: ConnectionKind) -> RuntimeObservability {
        let c = self.counters;
        match kind {
            ConnectionKind::Transport => self.counting(
                Counters {
                    transport_connections_total: incremented(c.transport_connections_total),
                    active_transport_connections: incremented(c.active_transport_connections),
                    peak_transport_connections: larger(
                        c.peak_transport_connections,
                        saturated_next(c.active_transport_connections),
                    ),
                    ..c
                },
            ),
            ConnectionKind::WebSocket => self.counting(
                Counters {
                    websocket_connections_total: incremented(c.websocket_connections_total),
                    active_websocket_connections: incremented(c.active_websocket_connections),
                    peak_websocket_connections: larger(
                        c.peak_websocket_connections,
                        saturated_next(c.active_websocket_connections),
                    ),
                    ..c
                },
            ),
        }
    }

    /// What the end of an active connection changes.
    pub open spec fn after_end(self, kind: ConnectionKind) -> RuntimeObservability {
        let c = self.counters;
        match kind {
            ConnectionKind::Transport => self.counting(
                Counters {
                    active_transport_connections: decremented(c.active_transport_connections),
                    ..c
                },
            ),
            ConnectionKind::WebSocket => self.counting(
                Counters {
                    active_websocket_connections: decremented(c.active_websocket_connections),
                    ..c
                },
            ),
        }
    }

    /// Counters at zero, and the output that the configuration asks for.
    pub fn start(config: &ObservabilityConfig) -> (r: (
        RuntimeObservability,
        Option<SnapshotOutput>,
    ))
        ensures
            r.0 == (RuntimeObservability {
                mode: config@.mode,
                connection_event_logs_enabled: config@.connection_event_logs_enabled,
                summary_interval_seconds: (config@.summary_interval / 1_000_000_000) as u64,
                diagnostic_interval_seconds: (config@.diagnostic_interval / 1_000_000_000) as u64,
                next_transport_connection_id: 1,
                next_websocket_connection_id: 1,
                counters: no_counts(),
            }),
            match config@.mode {
                ObservabilityMode::Off => r.1 is None,
                ObservabilityMode::Production => r.1 is Some && r.1->0.path@ == config@.summary_file
                    && r.1->0.interval@ == config@.summary_interval,
                ObservabilityMode::Diagnostic => r.1 is Some && r.1->0.path@
                    == config@.diagnostic_file && r.1->0.interval@ == config@.diagnostic_interval,
            },
    {
        let runtime = RuntimeObservability {
            mode: config.mode(),
            connection_event_logs_enabled: config.connection_event_logs_enabled(),
            summary_interval_seconds: config.summary_interval().as_secs(),
            diagnostic_interval_seconds: config.diagnostic_interval().as_secs(),
            next_transport_connection_id: 1,
            next_websocket_connection_id: 1,
            counters: Counters::default(),
        };
        let output = match config.mode() {
            ObservabilityMode::Production => Some(
                SnapshotOutput {
                    path: config.summary_file().to_owned(),
                    interval: config.summary_interval(),
                },
            ),
            ObservabilityMode::Diagnostic => Some(
                SnapshotOutput {
                    path: config.diagnostic_file().to_owned(),
                    interval: config.diagnostic_interval(),
                },
            ),
            ObservabilityMode::Off => None,
        };
        (runtime, output)
    }

    pub fn mode(&self) -> (r: ObservabilityMode)
        ensures
            r == self.mode,
    {
        self.mode
    }

    pub fn connection_event_logs_enabled(&self) -> (r: bool)
        ensures
            r == self.connection_event_logs_enabled,
    {
        self.connection_event_logs_enabled
    }

    pub fn observation_interval_seconds(&self) -> (r: u64)
        ensures
            r == (match self.mode {
                ObservabilityMode::Production => self.summary_interval_seconds,
                ObservabilityMode::Diagnostic => self.diagnostic_interval_seconds,
                ObservabilityMode::Off => self.diagnostic_interval_seconds,
            }),
    {
        match self.mode {
            ObservabilityMode::Production => self.summary_interval_seconds,
            ObservabilityMode::Diagnostic => self.diagnostic_interval_seconds,
            ObservabilityMode::Off => self.diagnostic_interval_seconds,
        }
    }

    pub fn begin_transport_connection(&mut self) -> (r: (u64, ActiveConnection))
        ensures
            r.0 == old(self).next_transport_connection_id,
            r.1@ == ConnectionKind::Transport,
            *final(self) == (RuntimeObservability {
                next_transport_connection_id: incremented(old(self).next_transport_connection_id),
                ..old(self).after_begin(ConnectionKind::Transport)
            }),
    {
        let id: u64 = self.next_transport_connection_id;
        increment(&mut self.next_transport_connection_id);
        increment(&mut self.counters.transport_connections_total);
        increment_active(
            &mut self.counters.active_transport_connections,
            &mut self.counters.peak_transport_connections,
        );
        (id, ActiveConnection { kind: ConnectionKind::Transport })
    }

    pub fn next_websocket_connection_id(&mut self) -> (r: u64)
        ensures
            r == old(self).next_websocket_connection_id,
            *final(self) == (RuntimeObservability {
                next_websocket_connection_id: incremented(old(self).next_websocket_connection_id),
                ..*old(self)
            }),
    {
        let id: u64 = self.next_websocket_connection_id;
        increment(&mut self.next_websocket_connection_id);
        id
    }

    pub fn begin_websocket_connection(&mut self) -> (r: ActiveConnection)
        ensures
            r@ == ConnectionKind::WebSocket,
            *final(self) == old(self).after_begin(ConnectionKind::WebSocket),
    {
        increment(&mut self.counters.websocket_connections_total);
        increment_active(
            &mut self.counters.active_websocket_connections,
            &mut self.counters.peak_websocket_connections,
        );
        ActiveConnection { kind: ConnectionKind::WebSocket }
    }

    pub fn peak_websocket_connections(&self) -> (r: u64)
        ensures
            r == self.counters.peak_websocket_connections,
    {
        load(&self.counters.peak_websocket_connections)
    }

    pub fn record_tls_handshake_success(&mut self)
        ensures
            *final(self) == (if old(self).mode == ObservabilityMode::Diagnostic {
                old(self).counting(
                    Counters {
                        tls_handshake_success_total: incremented(
                            old(self).counters.tls_handshake_success_total,
                        ),
                        ..old(self).counters
                    },
                )
            } else {
                *old(self)
            }),
    {
        if self.mode == ObservabilityMode::Diagnostic {
            increment(&mut self.counters.tls_handshake_success_total);
        }
    }

    pub fn record_tls_handshake_failure(&mut self)
        ensures
            *final(self) == old(self).counting(
                Counters {
                    tls_handshake_failures_total: incremented(
                        old(self).counters.tls_handshake_failures_total,
                    ),
                    ..old(self).counters
                },
            ),
    {
        increment(&mut self.counters.tls_handshake_failures_total);
    }

    pub fn record_tls_handshake_timeout(&mut self)
        ensures
            *final(self) == old(self).counting(
                Counters {
                    tls_handshake_timeouts_total: incremented(
                        old(self).counters.tls_handshake_timeouts_total,
                    ),
                    ..old(self).counters
                },
            ),
    {
        increment(&mut self.counters.tls_handshake_timeouts_total);
    }

    pub fn record_http_connection_error(&mut self)
        ensures
            *final(self) == (if old(self).mode == ObservabilityMode::Diagnostic {
                old(self).counting(
                    Counters {
                        http_connection_errors_total: incremented(
                            old(self).counters.http_connection_errors_total,
                        ),
                        ..old(self).counters
                    },
                )
            } else {
                *old(self)
            }),
    {
        if self.mode == ObservabilityMode::Diagnostic {
            increment(&mut self.counters.http_connection_errors_total);
        }
    }

    pub fn record_websocket_backend_connect_failure(&mut self)
        ensures
            *final(self) == old(self).counting(
                Counters {
                    websocket_backend_connect_failures_total: incremented(
                        old(self).counters.websocket_backend_connect_failures_total,
                    ),
                    ..old(self).counters
                },
            ),
    {
        increment(&mut self.counters.websocket_backend_connect_failures_total);
    }

    pub fn record_websocket_backend_connect_timeout(&mut self)
        ensures
            *final(self) == old(self).counting(
                Counters {
                    websocket_backend_connect_timeouts_total: incremented(
                        old(self).counters.websocket_backend_connect_timeouts_total,
                    ),
                    ..old(self).counters
                },
            ),
    {
        increment(&mut self.counters.websocket_backend_connect_timeouts_total);
    }

    pub fn record_websocket_upgrade_failure(&mut self)
        ensures
            *final(self) == (if old(self).mode == ObservabilityMode::Diagnostic {
                old(self).counting(
                    Counters {
                        websocket_upgrade_failures_total: incremented(
                            old(self).counters.websocket_upgrade_failures_total,
                        ),
                        ..old(self).counters
                    },
                )
            } else {
                *old(self)
            }),
    {
        if self.mode == ObservabilityMode::Diagnostic {
            increment(&mut self.counters.websocket_upgrade_failures_total);
        }
    }

    pub fn record_websocket_upgrade_timeout(&mut self)
        ensures
            *final(self) == (if old(self).mode == ObservabilityMode::Diagnostic {
                old(self).counting(
                    Counters {
                        websocket_upgrade_timeouts_total: incremented(
                            old(self).counters.websocket_upgrade_timeouts_total,
                        ),
                        ..old(self).counters
                    },
                )
            } else {
                *old(self)
            }),
    {
        if self.mode == ObservabilityMode::Diagnostic {
            increment(&mut self.counters.websocket_upgrade_timeouts_total);
        }
    }

    /// What an idle episode changes.
    pub open spec fn after_idle(self) -> RuntimeObservability {
        if self.mode == ObservabilityMode::Diagnostic {
            self.counting(
                Counters {
                    websocket_idle_events_total: incremented(
                        self.counters.websocket_idle_events_total,
                    ),
                    ..self.counters
                },
            )
        } else {
            self
        }
    }

    /// What an episode without progress changes.
    pub open spec fn after_no_progress(self) -> RuntimeObservability {
        self.counting(
            Counters {
                websocket_no_progress_events_total: incremented(
                    self.counters.websocket_no_progress_events_total,
                ),
                ..self.counters
            },
        )
    }

    pub fn record_websocket_idle_event(&mut self)
        ensures
            *final(self) == old(self).after_idle(),
    {
        if self.mode == ObservabilityMode::Diagnostic {
            increment(&mut self.counters.websocket_idle_events_total);
        }
    }

    pub fn record_websocket_no_progress_event(&mut self)
        ensures
            *final(self) == old(self).after_no_progress(),
    {
        increment(&mut self.counters.websocket_no_progress_events_total);
    }

    pub fn direction(&self, direction: RelayDirection) -> (r: &DirectionCounters)
        ensures
            *r == self.counters.of(direction),
    {
        match direction {
            RelayDirection::ClientToBackend => &self.counters.client_to_backend,
            RelayDirection::BackendToClient => &self.counters.backend_to_client,
        }
    }

    fn set_direction(&mut self, direction: RelayDirection, counts: DirectionCounters)
        ensures
            *final(self) == old(self).counting(old(self).counters.with(direction, counts)),
    {
        match direction {
            RelayDirection::ClientToBackend => {
                self.counters.client_to_backend = counts;
            },
            RelayDirection::BackendToClient => {
                self.counters.backend_to_client = counts;
            },
        }
    }

    pub fn record_forwarded_frame(&mut self, direction: RelayDirection, payload_bytes: usize)
        ensures
            *final(self) == old(self).after_frame(direction, payload_bytes),
    {
        if self.mode == ObservabilityMode::Off {
            return;
        }
        let mut counts = *self.direction(direction);
        counts.bytes_total = counts.bytes_total.wrapping_add(payload_bytes as u64);
        if self.mode == ObservabilityMode::Diagnostic {
            increment(&mut counts.forwarded_frames_total);
            if payload_bytes <= 1024 {
                increment(&mut counts.small_frames_total);
            }
            if payload_bytes <= 64 {
                increment(&mut counts.frames_le_64_bytes_total);
            } else if payload_bytes <= 1024 {
                increment(&mut counts.frames_le_1024_bytes_total);
            } else if payload_bytes <= 16384 {
                increment(&mut counts.frames_le_16384_bytes_total);
            } else if payload_bytes <= 65536 {
                increment(&mut counts.frames_le_65536_bytes_total);
            } else if payload_bytes <= 262144 {
                increment(&mut counts.frames_le_262144_bytes_total);
            } else {
                increment(&mut counts.frames_gt_262144_bytes_total);
            }
        }
        self.set_direction(direction, counts);
    }

    pub fn record_control_frame(&mut self, direction: RelayDirection)
        ensures
            *final(self) == old(self).after_control_frame(direction),
    {
        if self.mode == ObservabilityMode::Diagnostic {
            let mut counts = *self.direction(direction);
            increment(&mut counts.control_frames_total);
            self.set_direction(direction, counts);
        }
    }

    pub fn record_websocket_closed(
        &mut self,
        close_class: WebSocketCloseClass,
        long_lived: bool,
        short_lived: bool,
    )
        ensures
            *final(self) == old(self).after_close(close_class, long_lived, short_lived),
    {
        if self.mode == ObservabilityMode::Off {
            return;
        }
        if close_class == WebSocketCloseClass::RelayError || close_class
            == WebSocketCloseClass::InternalError {
            increment(&mut self.counters.websocket_relay_failures_total);
        }
        if self.mode != ObservabilityMode::Diagnostic {
            return;
        }
        if long_lived {
            increment(&mut self.counters.websocket_long_lived_connections_total);
        }
        if short_lived {
            increment(&mut self.counters.websocket_short_lived_connections_total);
        }
        match close_class {
            WebSocketCloseClass::ClientClosed => {
                increment(&mut self.counters.websocket_client_closed_total);
            },
            WebSocketCloseClass::BackendClosed => {
                increment(&mut self.counters.websocket_backend_closed_total);
            },
            WebSocketCloseClass::GatewayShutdown => {
                increment(&mut self.counters.websocket_gateway_shutdown_total);
            },
            WebSocketCloseClass::RelayError | WebSocketCloseClass::InternalError => {},
        }
    }
}

impl ActiveConnection {
    /// How many connections of this kind are active.
    pub fn active_connections(&self, runtime: &RuntimeObservability) -> (r: u64)
        ensures
            r == runtime.counters.active(self@),
    {
        match self.kind {
            ConnectionKind::Transport => load(&runtime.counters.active_transport_connections),
            ConnectionKind::WebSocket => load(&runtime.counters.active_websocket_connections),
        }
    }

    /// Ends the connection: it no longer counts as active.
    pub fn close(self, runtime: &mut RuntimeObservability)
        ensures
            *final(runtime) == old(runtime).after_end(self@),
    {
        match self.kind {
            ConnectionKind::Transport => {
                runtime.counters.active_transport_connections =
                runtime.counters.active_transport_connections.wrapping_sub(1);
            },
            ConnectionKind::WebSocket => {
                runtime.counters.active_websocket_connections =
                runtime.counters.active_websocket_connections.wrapping_sub(1);
            },
        }
    }
}

/// A line with one more numeric field.
pub open spec fn with_field(json: Seq<char>, name: Seq<char>, value: u64) -> Seq<char> {
    json + ",\""@ + name + "\":"@ + decimal(value as nat)
}

/// A line with one more numeric field, whose name has a prefix.
pub open spec fn with_prefixed_field(
    json: Seq<char>,
    prefix: Seq<char>,
    name: Seq<char>,
    value: u64,
) -> Seq<char> {
    json + ",\""@ + prefix + name + "\":"@ + decimal(value as nat)
}

pub open spec fn profile_name(mode: ObservabilityMode) -> Seq<char> {
    match mode {
        ObservabilityMode::Off => "off"@,
        ObservabilityMode::Production => "production"@,
        ObservabilityMode::Diagnostic => "diagnostic"@,
    }
}

pub open spec fn saturated_sum(a: u64, b: u64) -> u64 {
    if a + b > u64::MAX {
        u64::MAX
    } else {
        (a + b) as u64
    }
}

/// The line up to and with the fields that every profile reports.
pub open spec fn common_line(inner: RuntimeObservability, ts_unix_ms: u128) -> Seq<char> {
    let c = inner.counters;
    let s = "{\"ts_unix_ms\":"@ + decimal(ts_unix_ms as nat)
        + ",\"role\":\"gateway\",\"profile\":\""@ + profile_name(inner.mode) + "\""@;
    let s = with_field(
        s,
        "active_connections"@,
        saturated_sum(c.active_transport_connections, c.active_websocket_connections),
    );
    let s = with_field(s, "total_connections"@, c.transport_connections_total);
    let s = with_field(s, "active_transport_connections"@, c.active_transport_connections);
    let s = with_field(s, "active_websocket_connections"@, c.active_websocket_connections);
    let s = with_field(s, "peak_transport_connections"@, c.peak_transport_connections);
    let s = with_field(s, "peak_websocket_connections"@, c.peak_websocket_connections);
    let s = with_field(s, "transport_connections_total"@, c.transport_connections_total);
    let s = with_field(s, "websocket_connections_total"@, c.websocket_connections_total);
    let s = with_field(s, "client_to_backend_bytes_total"@, c.client_to_backend.bytes_total);
    let s = with_field(s, "backend_to_client_bytes_total"@, c.backend_to_client.bytes_total);
    let s = with_field(s, "tls_handshake_failures_total"@, c.tls_handshake_failures_total);
    let s = with_field(s, "tls_handshake_timeouts_total"@, c.tls_handshake_timeouts_total);
    let s = with_field(
        s,
        "websocket_backend_connect_failures_total"@,
        c.websocket_backend_connect_failures_total,
    );
    let s = with_field(
        s,
        "websocket_backend_connect_timeouts_total"@,
        c.websocket_backend_connect_timeouts_total,
    );
    let s = with_field(s, "websocket_relay_failures_total"@, c.websocket_relay_failures_total);
    with_field(s, "data_plane_no_progress_events_total"@, c.websocket_no_progress_events_total)
}

/// A line with the fields of one direction.
pub open spec fn with_direction_fields(
    json: Seq<char>,
    prefix: Seq<char>,
    c: DirectionCounters,
) -> Seq<char> {
    let s = json;
    let s = with_prefixed_field(s, prefix, "_forwarded_frames_total"@, c.forwarded_frames_total);
    let s = with_prefixed_field(s, prefix, "_small_frames_total"@, c.small_frames_total);
    let s = with_prefixed_field(s, prefix, "_control_frames_total"@, c.control_frames_total);
    let s = with_prefixed_field(
        s,
        prefix,
        "_frames_le_64_bytes_total"@,
        c.frames_le_64_bytes_total,
    );
    let s = with_prefixed_field(
        s,
        prefix,
        "_frames_le_1024_bytes_total"@,
        c.frames_le_1024_bytes_total,
    );
    let s = with_prefixed_field(
        s,
        prefix,
        "_frames_le_16384_bytes_total"@,
        c.frames_le_16384_bytes_total,
    );
    let s = with_prefixed_field(
        s,
        prefix,
        "_frames_le_65536_bytes_total"@,
        c.frames_le_65536_bytes_total,
    );
    let s = with_prefixed_field(
        s,
        prefix,
        "_frames_le_262144_bytes_total"@,
        c.frames_le_262144_bytes_total,
    );
    with_prefixed_field(s, prefix, "_frames_gt_262144_bytes_total"@, c.frames_gt_262144_bytes_total)
}

/// A line with the fields that only the diagnostic profile reports.
pub open spec fn with_diagnostic_fields(json: Seq<char>, c: Counters) -> Seq<char> {
    let s = json;
    let s = with_field(s, "tls_handshake_success_total"@, c.tls_handshake_success_total);
    let s = with_field(s, "http_connection_errors_total"@, c.http_connection_errors_total);
    let s = with_field(s, "websocket_upgrade_failures_total"@, c.websocket_upgrade_failures_total);
    let s = with_field(s, "websocket_upgrade_timeouts_total"@, c.websocket_upgrade_timeouts_total);
    let s = with_field(s, "websocket_idle_events_total"@, c.websocket_idle_events_total);
    let s = with_field(
        s,
        "websocket_long_lived_connections_total"@,
        c.websocket_long_lived_connections_total,
    );
    let s = with_field(
        s,
        "websocket_short_lived_connections_total"@,
        c.websocket_short_lived_connections_total,
    );
    let s = with_field(s, "websocket_client_closed_total"@, c.websocket_client_closed_total);
    let s = with_field(s, "websocket_backend_closed_total"@, c.websocket_backend_closed_total);
    let s = with_field(s, "websocket_gateway_shutdown_total"@, c.websocket_gateway_shutdown_total);
    let s = with_direction_fields(s, "client_to_backend"@, c.client_to_backend);
    with_direction_fields(s, "backend_to_client"@, c.backend_to_client)
}

/// One line of the report: a JSON object.
pub open spec fn snapshot_line(inner: RuntimeObservability, ts_unix_ms: u128) -> Seq<char> {
    let s = common_line(inner, ts_unix_ms);
    let s = if inner.mode == ObservabilityMode::Diagnostic {
        with_diagnostic_fields(s, inner.counters)
    } else {
        s
    };
    s + "}"@
}

fn append_field(json: &mut String, name: &str, value: u64)
    ensures
        final(json)@ == with_field(old(json)@, name@, value),
{
    append(json, ",\"");
    append(json, name);
    append(json, "\":");
    append_decimal(json, value as u128);
}

fn append_prefixed_field(json: &mut String, prefix: &str, name: &str, value: u64)
    ensures
        final(json)@ == with_prefixed_field(old(json)@, prefix@, name@, value),
{
    append(json, ",\"");
    append(json, prefix);
    append(json, name);
    append(json, "\":");
    append_decimal(json, value as u128);
}

pub fn append_direction_fields(json: &mut String, prefix: &str, counters: &DirectionCounters)
    ensures
        final(json)@ == with_direction_fields(old(json)@, prefix@, *counters),
{
    append_prefixed_field(
        json,
        prefix,
        "_forwarded_frames_total",
        load(&counters.forwarded_frames_total),
    );
    append_prefixed_field(json, prefix, "_small_frames_total", load(&counters.small_frames_total));
    append_prefixed_field(
        json,
        prefix,
        "_control_frames_total",
        load(&counters.control_frames_total),
    );
    append_prefixed_field(
        json,
        prefix,
        "_frames_le_64_bytes_total",
        load(&counters.frames_le_64_bytes_total),
    );
    append_prefixed_field(
        json,
        prefix,
        "_frames_le_1024_bytes_total",
        load(&counters.frames_le_1024_bytes_total),
    );
    append_prefixed_field(
        json,
        prefix,
        "_frames_le_16384_bytes_total",
        load(&counters.frames_le_16384_bytes_total),
    );
    append_prefixed_field(
        json,
        prefix,
        "_frames_le_65536_bytes_total",
        load(&counters.frames_le_65536_bytes_total),
    );
    append_prefixed_field(
        json,
        prefix,
        "_frames_le_262144_bytes_total",
        load(&counters.frames_le_262144_bytes_total),
    );
    append_prefixed_field(
        json,
        prefix,
        "_frames_gt_262144_bytes_total",
        load(&counters.frames_gt_262144_bytes_total),
    );
}

pub fn append_diagnostic_fields(json: &mut String, counters: &Counters)
    ensures
        final(json)@ == with_diagnostic_fields(old(json)@, *counters),
{
    append_field(json, "tls_handshake_success_total", load(&counters.tls_handshake_success_total));
    append_field(
        json,
        "http_connection_errors_total",
        load(&counters.http_connection_errors_total),
    );
    append_field(
        json,
        "websocket_upgrade_failures_total",
        load(&counters.websocket_upgrade_failures_total),
    );
    append_field(
        json,
        "websocket_upgrade_timeouts_total",
        load(&counters.websocket_upgrade_timeouts_total),
    );
    append_field(json, "websocket_idle_events_total", load(&counters.websocket_idle_events_total));
    append_field(
        json,
        "websocket_long_lived_connections_total",
        load(&counters.websocket_long_lived_connections_total),
    );
    append_field(
        json,
        "websocket_short_lived_connections_total",
        load(&counters.websocket_short_lived_connections_total),
    );
    append_field(
        json,
        "websocket_client_closed_total",
        load(&counters.websocket_client_closed_total),
    );
    append_field(
        json,
        "websocket_backend_closed_total",
        load(&counters.websocket_backend_closed_total),
    );
    append_field(
        json,
        "websocket_gateway_shutdown_total",
        load(&counters.websocket_gateway_shutdown_total),
    );
    append_direction_fields(json, "client_to_backend", &counters.client_to_backend);
    append_direction_fields(json, "backend_to_client", &counters.backend_to_client);
}

/// The line that reports `inner` at `ts_unix_ms` milliseconds after the epoch.
pub fn snapshot_json(inner: &RuntimeObservability, ts_unix_ms: u128) -> (r: String)
    ensures
        r@ == snapshot_line(*inner, ts_unix_ms),
{
    let counters = &inner.counters;
    let profile = match inner.mode {
        ObservabilityMode::Off => "off",
        ObservabilityMode::Production => "production",
        ObservabilityMode::Diagnostic => "diagnostic",
    };
    let active_transport_connections: u64 = load(&counters.active_transport_connections);
    let active_websocket_connections: u64 = load(&counters.active_websocket_connections);
    let mut json = "{\"ts_unix_ms\":".to_owned();
    append_decimal(&mut json, ts_unix_ms);
    append(&mut json, ",\"role\":\"gateway\",\"profile\":\"");
    append(&mut json, profile);
    append(&mut json, "\"");
    append_field(
        &mut json,
        "active_connections",
        active_transport_connections.saturating_add(active_websocket_connections),
    );
    append_field(&mut json, "total_connections", load(&counters.transport_connections_total));
    append_field(&mut json, "active_transport_connections", active_transport_connections);
    append_field(&mut json, "active_websocket_connections", active_websocket_connections);
    append_field(
        &mut json,
        "peak_transport_connections",
        load(&counters.peak_transport_connections),
    );
    append_field(
        &mut json,
        "peak_websocket_connections",
        load(&counters.peak_websocket_connections),
    );
    append_field(
        &mut json,
        "transport_connections_total",
        load(&counters.transport_connections_total),
    );
    append_field(
        &mut json,
        "websocket_connections_total",
        load(&counters.websocket_connections_total),
    );
    append_field(
        &mut json,
        "client_to_backend_bytes_total",
        load(&counters.client_to_backend.bytes_total),
    );
    append_field(
        &mut json,
        "backend_to_client_bytes_total",
        load(&counters.backend_to_client.bytes_total),
    );
    append_field(
        &mut json,
        "tls_handshake_failures_total",
        load(&counters.tls_handshake_failures_total),
    );
    append_field(
        &mut json,
        "tls_handshake_timeouts_total",
        load(&counters.tls_handshake_timeouts_total),
    );
    append_field(
        &mut json,
        "websocket_backend_connect_failures_total",
        load(&counters.websocket_backend_connect_failures_total),
    );
    append_field(
        &mut json,
        "websocket_backend_connect_timeouts_total",
        load(&counters.websocket_backend_connect_timeouts_total),
    );
    append_field(
        &mut json,
        "websocket_relay_failures_total",
        load(&counters.websocket_relay_failures_total),
    );
    append_field(
        &mut json,
        "data_plane_no_progress_events_total",
        load(&counters.websocket_no_progress_events_total),
    );
    if inner.mode == ObservabilityMode::Diagnostic {
        append_diagnostic_fields(&mut json, counters);
    }
    append(&mut json, "}");
    json
}

/// A connection that begins and ends leaves the number of active connections as it was.
pub proof fn law_begin_and_end_cancel(runtime: RuntimeObservability, kind: ConnectionKind)
    ensures
        runtime.after_begin(kind).after_end(kind).counters.active(kind) == runtime.counters.active(
            kind,
        ),
{
}

/// The peak is never below the number of active connections: beginning a connection keeps that,
/// and so does ending one that is active.
pub proof fn law_peak_covers_active(runtime: RuntimeObservability, kind: ConnectionKind)
    requires
        runtime.counters.active(kind) <= runtime.counters.peak(kind),
    ensures
        runtime.after_begin(kind).counters.active(kind) <= runtime.after_begin(kind).counters.peak(
            kind,
        ),
        runtime.counters.active(kind) > 0 ==> runtime.after_end(kind).counters.active(kind)
            <= runtime.after_end(kind).counters.peak(kind),
{
}

/// The sum of the frames counted by size.
pub open spec fn frames_by_size(c: DirectionCounters) -> int {
    c.frames_le_64_bytes_total + c.frames_le_1024_bytes_total + c.frames_le_16384_bytes_total
        + c.frames_le_65536_bytes_total + c.frames_le_262144_bytes_total
        + c.frames_gt_262144_bytes_total
}

/// The size classes share out the forwarded frames: as long as no counter starts over, each frame
/// is counted in exactly one of them.
pub proof fn law_size_classes_partition(c: DirectionCounters, bytes: usize)
    requires
        frames_by_size(c) == c.forwarded_frames_total,
        c.forwarded_frames_total < u64::MAX,
    ensures
        frames_by_size(with_frame(c, bytes)) == with_frame(c, bytes).forwarded_frames_total,
{
    lemma_incremented(c.forwarded_frames_total);
    lemma_incremented(c.frames_le_64_bytes_total);
    lemma_incremented(c.frames_le_1024_bytes_total);
    lemma_incremented(c.frames_le_16384_bytes_total);
    lemma_incremented(c.frames_le_65536_bytes_total);
    lemma_incremented(c.frames_le_262144_bytes_total);
    lemma_incremented(c.frames_gt_262144_bytes_total);
}

proof fn lemma_incremented(counter: u64)
    requires
        counter < u64::MAX,
    ensures
        incremented(counter) == counter + 1,
{
}

/// With observability off nothing that passes a relay is counted.
pub proof fn law_off_counts_no_traffic(
    runtime: RuntimeObservability,
    direction: RelayDirection,
    bytes: usize,
    close_class: WebSocketCloseClass,
    long_lived: bool,
    short_lived: bool,
)
    requires
        runtime.mode == ObservabilityMode::Off,
    ensures
        runtime.after_frame(direction, bytes) == runtime,
        runtime.after_control_frame(direction) == runtime,
        runtime.after_close(close_class, long_lived, short_lived) == runtime,
{
}

/// A forwarded frame adds its size to the bytes of its own direction and, in the diagnostic
/// profile, one frame; nothing else that the gateway holds changes.
pub proof fn law_frames_are_counted_in_their_direction(
    runtime: RuntimeObservability,
    direction: RelayDirection,
    bytes: usize,
)
    ensures
        ({
            let after = runtime.after_frame(direction, bytes);
            let upstream = direction == RelayDirection::ClientToBackend;
            let (before_own, after_own) = if upstream {
                (runtime.counters.client_to_backend, after.counters.client_to_backend)
            } else {
                (runtime.counters.backend_to_client, after.counters.backend_to_client)
            };
            &&& runtime.mode != ObservabilityMode::Off ==> after_own.bytes_total == (
            before_own.bytes_total + bytes) % 0x1_0000_0000_0000_0000
            &&& runtime.mode == ObservabilityMode::Diagnostic ==> after_own.forwarded_frames_total
                == (before_own.forwarded_frames_total + 1) % 0x1_0000_0000_0000_0000
            &&& runtime.mode != ObservabilityMode::Diagnostic ==> after_own == (DirectionCounters {
                bytes_total: after_own.bytes_total,
                ..before_own
            })
            &&& after_own.control_frames_total == before_own.control_frames_total
            &&& upstream ==> after.counters.backend_to_client == runtime.counters.backend_to_client
            &&& !upstream ==> after.counters.client_to_backend == runtime.counters.client_to_backend
            &&& after == (RuntimeObservability {
                counters: Counters {
                    client_to_backend: after.counters.client_to_backend,
                    backend_to_client: after.counters.backend_to_client,
                    ..runtime.counters
                },
                ..runtime
            })
        }),
{
}

/// In the diagnostic profile a frame counts in the one size class that its size lies in, and as a
/// small frame up to 1024 bytes.
pub proof fn law_frames_count_in_their_size_class(
    runtime: RuntimeObservability,
    direction: RelayDirection,
    bytes: usize,
)
    requires
        runtime.mode == ObservabilityMode::Diagnostic,
    ensures
        ({
            let after = runtime.after_frame(direction, bytes);
            let (b, a) = if direction == RelayDirection::ClientToBackend {
                (runtime.counters.client_to_backend, after.counters.client_to_backend)
            } else {
                (runtime.counters.backend_to_client, after.counters.backend_to_client)
            };
            &&& a.small_frames_total != b.small_frames_total <==> bytes <= 1024
            &&& a.frames_le_64_bytes_total != b.frames_le_64_bytes_total <==> bytes <= 64
            &&& a.frames_le_1024_bytes_total != b.frames_le_1024_bytes_total <==> 64 < bytes <= 1024
            &&& a.frames_le_16384_bytes_total != b.frames_le_16384_bytes_total <==> 1024 < bytes
                <= 16384
            &&& a.frames_le_65536_bytes_total != b.frames_le_65536_bytes_total <==> 16384 < bytes
                <= 65536
            &&& a.frames_le_262144_bytes_total != b.frames_le_262144_bytes_total <==> 65536 < bytes
                <= 262144
            &&& a.frames_gt_262144_bytes_total != b.frames_gt_262144_bytes_total <==> bytes > 262144
            &&& b.small_frames_total < u64::MAX ==> a.small_frames_total <= b.small_frames_total + 1
            &&& a.small_frames_total == 0 ==> b.small_frames_total == 0 || b.small_frames_total
                == u64::MAX
        }),
{
}

/// A control frame is counted once, in its own direction and in the diagnostic profile only.
pub proof fn law_control_frames_are_counted_apart(
    runtime: RuntimeObservability,
    direction: RelayDirection,
)
    ensures
        ({
            let after = runtime.after_control_frame(direction);
            let upstream = direction == RelayDirection::ClientToBackend;
            let next = |n: u64| (n + 1) % 0x1_0000_0000_0000_0000;
            &&& runtime.mode != ObservabilityMode::Diagnostic ==> after == runtime
            &&& runtime.mode == ObservabilityMode::Diagnostic && upstream ==> after == (
            RuntimeObservability {
                counters: Counters {
                    client_to_backend: DirectionCounters {
                        control_frames_total: after.counters.client_to_backend.control_frames_total,
                        ..runtime.counters.client_to_backend
                    },
                    ..runtime.counters
                },
                ..runtime
            }) && after.counters.client_to_backend.control_frames_total == next(
                runtime.counters.client_to_backend.control_frames_total,
            )
            &&& runtime.mode == ObservabilityMode::Diagnostic && !upstream ==> after == (
            RuntimeObservability {
                counters: Counters {
                    backend_to_client: DirectionCounters {
                        control_frames_total: after.counters.backend_to_client.control_frames_total,
                        ..runtime.counters.backend_to_client
                    },
                    ..runtime.counters
                },
                ..runtime
            }) && after.counters.backend_to_client.control_frames_total == next(
                runtime.counters.backend_to_client.control_frames_total,
            )
        }),
{
}

/// The end of a WebSocket counts as a failure exactly where the relay or the gateway failed, and
/// under its own class and length in the diagnostic profile. Nothing else changes.
pub proof fn law_closes_are_counted_by_class(
    runtime: RuntimeObservability,
    class: WebSocketCloseClass,
    long_lived: bool,
    short_lived: bool,
)
    ensures
        ({
            let b = runtime.counters;
            let after = runtime.after_close(class, long_lived, short_lived);
            let a = after.counters;
            let on = runtime.mode != ObservabilityMode::Off;
            let detailed = runtime.mode == ObservabilityMode::Diagnostic;
            let n = 0x1_0000_0000_0000_0000int;
            let count = |before: u64, now: u64, counted: bool| now == (if counted {
                (before + 1) % n
            } else {
                before as int
            });
            &&& count(
                b.websocket_relay_failures_total,
                a.websocket_relay_failures_total,
                on && (class == WebSocketCloseClass::RelayError || class
                    == WebSocketCloseClass::InternalError),
            )
            &&& count(
                b.websocket_client_closed_total,
                a.websocket_client_closed_total,
                detailed && class == WebSocketCloseClass::ClientClosed,
            )
            &&& count(
                b.websocket_backend_closed_total,
                a.websocket_backend_closed_total,
                detailed && class == WebSocketCloseClass::BackendClosed,
            )
            &&& count(
                b.websocket_gateway_shutdown_total,
                a.websocket_gateway_shutdown_total,
                detailed && class == WebSocketCloseClass::GatewayShutdown,
            )
            &&& count(
                b.websocket_long_lived_connections_total,
                a.websocket_long_lived_connections_total,
                detailed && long_lived,
            )
            &&& count(
                b.websocket_short_lived_connections_total,
                a.websocket_short_lived_connections_total,
                detailed && short_lived,
            )
            &&& after == (RuntimeObservability {
                counters: Counters {
                    websocket_relay_failures_total: a.websocket_relay_failures_total,
                    websocket_client_closed_total: a.websocket_client_closed_total,
                    websocket_backend_closed_total: a.websocket_backend_closed_total,
                    websocket_gateway_shutdown_total: a.websocket_gateway_shutdown_total,
                    websocket_long_lived_connections_total: a.websocket_long_lived_connections_total,
                    websocket_short_lived_connections_total: a.websocket_short_lived_connections_total,
                    ..b
                },
                ..runtime
            })
        }),
{
}

/// A connection that begins counts in the total and as active, in the counters of its own kind
/// alone, and may be a new peak; one that ends is no longer active, and changes nothing else.
pub proof fn law_connections_are_counted_by_kind(runtime: RuntimeObservability)
    ensures
        ({
            let b = runtime.counters;
            let transport = runtime.after_begin(ConnectionKind::Transport).counters;
            let websocket = runtime.after_begin(ConnectionKind::WebSocket).counters;
            let n = 0x1_0000_0000_0000_0000int;
            &&& transport == (Counters {
                transport_connections_total: transport.transport_connections_total,
                active_transport_connections: transport.active_transport_connections,
                peak_transport_connections: transport.peak_transport_connections,
                ..b
            })
            &&& websocket == (Counters {
                websocket_connections_total: websocket.websocket_connections_total,
                active_websocket_connections: websocket.active_websocket_connections,
                peak_websocket_connections: websocket.peak_websocket_connections,
                ..b
            })
            &&& transport.transport_connections_total == (b.transport_connections_total + 1) % n
            &&& transport.active_transport_connections == (b.active_transport_connections + 1) % n
            &&& websocket.websocket_connections_total == (b.websocket_connections_total + 1) % n
            &&& websocket.active_websocket_connections == (b.active_websocket_connections + 1) % n
            &&& transport.peak_transport_connections >= b.peak_transport_connections
            &&& transport.peak_transport_connections == b.peak_transport_connections
                || transport.peak_transport_connections == b.active_transport_connections + 1
                || b.active_transport_connections == u64::MAX
            &&& b.active_transport_connections < u64::MAX ==> transport.peak_transport_connections
                > b.active_transport_connections
            &&& websocket.peak_websocket_connections >= b.peak_websocket_connections
            &&& websocket.peak_websocket_connections == b.peak_websocket_connections
                || websocket.peak_websocket_connections == b.active_websocket_connections + 1
                || b.active_websocket_connections == u64::MAX
            &&& b.active_websocket_connections < u64::MAX ==> websocket.peak_websocket_connections
                > b.active_websocket_connections
            &&& b.active_transport_connections > 0 ==> runtime.after_end(
                ConnectionKind::Transport,
            ) == (RuntimeObservability {
                counters: Counters {
                    active_transport_connections: (b.active_transport_connections - 1) as u64,
                    ..b
                },
                ..runtime
            })
            &&& b.active_websocket_connections > 0 ==> runtime.after_end(
                ConnectionKind::WebSocket,
            ) == (RuntimeObservability {
                counters: Counters {
                    active_websocket_connections: (b.active_websocket_connections - 1) as u64,
                    ..b
                },
                ..runtime
            })
            &&& runtime.after_begin(ConnectionKind::Transport) == (RuntimeObservability {
                counters: transport,
                ..runtime
            })
            &&& runtime.after_begin(ConnectionKind::WebSocket) == (RuntimeObservability {
                counters: websocket,
                ..runtime
            })
        }),
{
}

/// An idle episode is counted in the diagnostic profile, an episode without progress in every
/// profile; neither changes anything else.
pub proof fn law_episodes_are_counted_apart(runtime: RuntimeObservability)
    ensures
        runtime.after_idle() == (RuntimeObservability {
            counters: Counters {
                websocket_idle_events_total: runtime.after_idle().counters.websocket_idle_events_total,
                ..runtime.counters
            },
            ..runtime
        }),
        runtime.after_no_progress() == (RuntimeObservability {
            counters: Counters {
                websocket_no_progress_events_total:
                    runtime.after_no_progress().counters.websocket_no_progress_events_total,
                ..runtime.counters
            },
            ..runtime
        }),
        runtime.after_idle().counters.websocket_idle_events_total
            != runtime.counters.websocket_idle_events_total <==> runtime.mode
            == ObservabilityMode::Diagnostic,
        runtime.counters.websocket_idle_events_total < u64::MAX
            ==> runtime.after_idle().counters.websocket_idle_events_total
            <= runtime.counters.websocket_idle_events_total + 1,
        runtime.after_no_progress().counters.websocket_no_progress_events_total == (
        runtime.counters.websocket_no_progress_events_total + 1) % 0x1_0000_0000_0000_0000,
{
}

/// Whether a line of JSON shows a value under a name, behind what comes before.
pub open spec fn shows(line: Seq<char>, name: Seq<char>, value: u64) -> bool {
    exists|before: Seq<char>|
        (#[trigger] (before + ",\""@) + name + "\":"@ + decimal(value as nat)).is_prefix_of(line)
}

proof fn lemma_more_text(line: Seq<char>, more: Seq<char>)
    ensures
        forall|name: Seq<char>, value: u64| #[trigger]
            shows(line, name, value) ==> shows(line + more, name, value),
{
    assert forall|name: Seq<char>, value: u64| #[trigger] shows(line, name, value) implies shows(
        line + more,
        name,
        value,
    ) by {
        let before = choose|before: Seq<char>|
            (#[trigger] (before + ",\""@) + name + "\":"@ + decimal(value as nat)).is_prefix_of(
                line,
            );
        let shown = (before + ",\""@) + name + "\":"@ + decimal(value as nat);
        assert((line + more).subrange(0, shown.len() as int) =~= line.subrange(
            0,
            shown.len() as int,
        ));
        assert(shown.is_prefix_of(line + more));
    }
}

proof fn lemma_field(line: Seq<char>, name: Seq<char>, value: u64)
    ensures
        shows(with_field(line, name, value), name, value),
        forall|n: Seq<char>, v: u64| #[trigger]
            shows(line, n, v) ==> shows(with_field(line, name, value), n, v),
{
    let whole = with_field(line, name, value);
    assert((line + ",\""@) + name + "\":"@ + decimal(value as nat) =~= whole);
    assert(whole.subrange(0, whole.len() as int) =~= whole);
    assert(((line + ",\""@) + name + "\":"@ + decimal(value as nat)).is_prefix_of(whole));
    let more = ",\""@ + name + "\":"@ + decimal(value as nat);
    assert(whole =~= line + more);
    lemma_more_text(line, more);
}

proof fn lemma_prefixed_field(line: Seq<char>, prefix: Seq<char>, name: Seq<char>, value: u64)
    ensures
        shows(with_prefixed_field(line, prefix, name, value), prefix + name, value),
        forall|n: Seq<char>, v: u64| #[trigger]
            shows(line, n, v) ==> shows(with_prefixed_field(line, prefix, name, value), n, v),
{
    lemma_field(line, prefix + name, value);
    assert(with_prefixed_field(line, prefix, name, value) =~= with_field(
        line,
        prefix + name,
        value,
    ));
}

/// The counters of a direction are shown under their names, behind the name of the direction, and
/// what was shown before stays.
pub proof fn law_direction_counters_are_shown(
    line: Seq<char>,
    prefix: Seq<char>,
    c: DirectionCounters,
)
    ensures
        ({
            let shown = with_direction_fields(line, prefix, c);
            &&& shows(shown, prefix + "_forwarded_frames_total"@, c.forwarded_frames_total)
            &&& shows(shown, prefix + "_small_frames_total"@, c.small_frames_total)
            &&& shows(shown, prefix + "_control_frames_total"@, c.control_frames_total)
            &&& shows(shown, prefix + "_frames_le_64_bytes_total"@, c.frames_le_64_bytes_total)
            &&& shows(shown, prefix + "_frames_le_1024_bytes_total"@, c.frames_le_1024_bytes_total)
            &&& shows(
                shown,
                prefix + "_frames_le_16384_bytes_total"@,
                c.frames_le_16384_bytes_total,
            )
            &&& shows(
                shown,
                prefix + "_frames_le_65536_bytes_total"@,
                c.frames_le_65536_bytes_total,
            )
            &&& shows(
                shown,
                prefix + "_frames_le_262144_bytes_total"@,
                c.frames_le_262144_bytes_total,
            )
            &&& shows(
                shown,
                prefix + "_frames_gt_262144_bytes_total"@,
                c.frames_gt_262144_bytes_total,
            )
            &&& forall|n: Seq<char>, v: u64| #[trigger] shows(line, n, v) ==> shows(shown, n, v)
        }),
{
    let a = with_prefixed_field(line, prefix, "_forwarded_frames_total"@, c.forwarded_frames_total);
    lemma_prefixed_field(line, prefix, "_forwarded_frames_total"@, c.forwarded_frames_total);
    let b = with_prefixed_field(a, prefix, "_small_frames_total"@, c.small_frames_total);
    lemma_prefixed_field(a, prefix, "_small_frames_total"@, c.small_frames_total);
    let d = with_prefixed_field(b, prefix, "_control_frames_total"@, c.control_frames_total);
    lemma_prefixed_field(b, prefix, "_control_frames_total"@, c.control_frames_total);
    let e = with_prefixed_field(d, prefix, "_frames_le_64_bytes_total"@, c.frames_le_64_bytes_total);
    lemma_prefixed_field(d, prefix, "_frames_le_64_bytes_total"@, c.frames_le_64_bytes_total);
    let f = with_prefixed_field(
        e,
        prefix,
        "_frames_le_1024_bytes_total"@,
        c.frames_le_1024_bytes_total,
    );
    lemma_prefixed_field(e, prefix, "_frames_le_1024_bytes_total"@, c.frames_le_1024_bytes_total);
    let g = with_prefixed_field(
        f,
        prefix,
        "_frames_le_16384_bytes_total"@,
        c.frames_le_16384_bytes_total,
    );
    lemma_prefixed_field(f, prefix, "_frames_le_16384_bytes_total"@, c.frames_le_16384_bytes_total);
    let h = with_prefixed_field(
        g,
        prefix,
        "_frames_le_65536_bytes_total"@,
        c.frames_le_65536_bytes_total,
    );
    lemma_prefixed_field(g, prefix, "_frames_le_65536_bytes_total"@, c.frames_le_65536_bytes_total);
    let i = with_prefixed_field(
        h,
        prefix,
        "_frames_le_262144_bytes_total"@,
        c.frames_le_262144_bytes_total,
    );
    lemma_prefixed_field(
        h,
        prefix,
        "_frames_le_262144_bytes_total"@,
        c.frames_le_262144_bytes_total,
    );
    lemma_prefixed_field(
        i,
        prefix,
        "_frames_gt_262144_bytes_total"@,
        c.frames_gt_262144_bytes_total,
    );
}

/// Every summary shows the counters of connections, bytes and failures under their names; the active
/// connections are those of both kinds together.
pub proof fn law_summaries_show_the_counters(inner: RuntimeObservability, ts_unix_ms: u128)
    ensures
        ({
            let line = common_line(inner, ts_unix_ms);
            let c = inner.counters;
            let active = c.active_transport_connections + c.active_websocket_connections;
            &&& active <= u64::MAX ==> shows(line, "active_connections"@, active as u64)
            &&& active > u64::MAX ==> shows(line, "active_connections"@, u64::MAX)
            &&& shows(line, "total_connections"@, c.transport_connections_total)
            &&& shows(line, "active_transport_connections"@, c.active_transport_connections)
            &&& shows(line, "active_websocket_connections"@, c.active_websocket_connections)
            &&& shows(line, "peak_transport_connections"@, c.peak_transport_connections)
            &&& shows(line, "peak_websocket_connections"@, c.peak_websocket_connections)
            &&& shows(line, "transport_connections_total"@, c.transport_connections_total)
            &&& shows(line, "websocket_connections_total"@, c.websocket_connections_total)
            &&& shows(line, "client_to_backend_bytes_total"@, c.client_to_backend.bytes_total)
            &&& shows(line, "backend_to_client_bytes_total"@, c.backend_to_client.bytes_total)
            &&& shows(line, "tls_handshake_failures_total"@, c.tls_handshake_failures_total)
            &&& shows(line, "tls_handshake_timeouts_total"@, c.tls_handshake_timeouts_total)
            &&& shows(
                line,
                "websocket_backend_connect_failures_total"@,
                c.websocket_backend_connect_failures_total,
            )
            &&& shows(
                line,
                "websocket_backend_connect_timeouts_total"@,
                c.websocket_backend_connect_timeouts_total,
            )
            &&& shows(line, "websocket_relay_failures_total"@, c.websocket_relay_failures_total)
            &&& shows(
                line,
                "data_plane_no_progress_events_total"@,
                c.websocket_no_progress_events_total,
            )
        }),
{
    let c = inner.counters;
    let sum = saturated_sum(c.active_transport_connections, c.active_websocket_connections);
    let s0 = "{\"ts_unix_ms\":"@ + decimal(ts_unix_ms as nat)
        + ",\"role\":\"gateway\",\"profile\":\""@ + profile_name(inner.mode) + "\""@;
    let s1 = with_field(s0, "active_connections"@, sum);
    lemma_field(s0, "active_connections"@, sum);
    let s2 = with_field(s1, "total_connections"@, c.transport_connections_total);
    lemma_field(s1, "total_connections"@, c.transport_connections_total);
    let s3 = with_field(s2, "active_transport_connections"@, c.active_transport_connections);
    lemma_field(s2, "active_transport_connections"@, c.active_transport_connections);
    let s4 = with_field(s3, "active_websocket_connections"@, c.active_websocket_connections);
    lemma_field(s3, "active_websocket_connections"@, c.active_websocket_connections);
    let s5 = with_field(s4, "peak_transport_connections"@, c.peak_transport_connections);
    lemma_field(s4, "peak_transport_connections"@, c.peak_transport_connections);
    let s6 = with_field(s5, "peak_websocket_connections"@, c.peak_websocket_connections);
    lemma_field(s5, "peak_websocket_connections"@, c.peak_websocket_connections);
    let s7 = with_field(s6, "transport_connections_total"@, c.transport_connections_total);
    lemma_field(s6, "transport_connections_total"@, c.transport_connections_total);
    let s8 = with_field(s7, "websocket_connections_total"@, c.websocket_connections_total);
    lemma_field(s7, "websocket_connections_total"@, c.websocket_connections_total);
    let s9 = with_field(s8, "client_to_backend_bytes_total"@, c.client_to_backend.bytes_total);
    lemma_field(s8, "client_to_backend_bytes_total"@, c.client_to_backend.bytes_total);
    let s10 = with_field(s9, "backend_to_client_bytes_total"@, c.backend_to_client.bytes_total);
    lemma_field(s9, "backend_to_client_bytes_total"@, c.backend_to_client.bytes_total);
    let s11 = with_field(s10, "tls_handshake_failures_total"@, c.tls_handshake_failures_total);
    lemma_field(s10, "tls_handshake_failures_total"@, c.tls_handshake_failures_total);
    let s12 = with_field(s11, "tls_handshake_timeouts_total"@, c.tls_handshake_timeouts_total);
    lemma_field(s11, "tls_handshake_timeouts_total"@, c.tls_handshake_timeouts_total);
    let s13 = with_field(
        s12,
        "websocket_backend_connect_failures_total"@,
        c.websocket_backend_connect_failures_total,
    );
    lemma_field(
        s12,
        "websocket_backend_connect_failures_total"@,
        c.websocket_backend_connect_failures_total,
    );
    let s14 = with_field(
        s13,
        "websocket_backend_connect_timeouts_total"@,
        c.websocket_backend_connect_timeouts_total,
    );
    lemma_field(
        s13,
        "websocket_backend_connect_timeouts_total"@,
        c.websocket_backend_connect_timeouts_total,
    );
    let s15 = with_field(s14, "websocket_relay_failures_total"@, c.websocket_relay_failures_total);
    lemma_field(s14, "websocket_relay_failures_total"@, c.websocket_relay_failures_total);
    lemma_field(
        s15,
        "data_plane_no_progress_events_total"@,
        c.websocket_no_progress_events_total,
    );
}

/// In diagnostic mode the other counters are shown as well, those of the two directions under the
/// names of their own directions.
pub proof fn law_diagnostic_counters_are_shown(line: Seq<char>, c: Counters)
    ensures
        ({
            let shown = with_diagnostic_fields(line, c);
            let upward = c.client_to_backend;
            let downward = c.backend_to_client;
            &&& shows(shown, "tls_handshake_success_total"@, c.tls_handshake_success_total)
            &&& shows(shown, "http_connection_errors_total"@, c.http_connection_errors_total)
            &&& shows(
                shown,
                "websocket_upgrade_failures_total"@,
                c.websocket_upgrade_failures_total,
            )
            &&& shows(
                shown,
                "websocket_upgrade_timeouts_total"@,
                c.websocket_upgrade_timeouts_total,
            )
            &&& shows(shown, "websocket_idle_events_total"@, c.websocket_idle_events_total)
            &&& shows(
                shown,
                "websocket_long_lived_connections_total"@,
                c.websocket_long_lived_connections_total,
            )
            &&& shows(
                shown,
                "websocket_short_lived_connections_total"@,
                c.websocket_short_lived_connections_total,
            )
            &&& shows(shown, "websocket_client_closed_total"@, c.websocket_client_closed_total)
            &&& shows(shown, "websocket_backend_closed_total"@, c.websocket_backend_closed_total)
            &&& shows(
                shown,
                "websocket_gateway_shutdown_total"@,
                c.websocket_gateway_shutdown_total,
            )
            &&& shows(
                shown,
                "client_to_backend"@ + "_forwarded_frames_total"@,
                upward.forwarded_frames_total,
            )
            &&& shows(
                shown,
                "client_to_backend"@ + "_control_frames_total"@,
                upward.control_frames_total,
            )
            &&& shows(
                shown,
                "backend_to_client"@ + "_forwarded_frames_total"@,
                downward.forwarded_frames_total,
            )
            &&& shows(
                shown,
                "backend_to_client"@ + "_control_frames_total"@,
                downward.control_frames_total,
            )
            &&& forall|n: Seq<char>, v: u64| #[trigger] shows(line, n, v) ==> shows(shown, n, v)
        }),
{
    let s1 = with_field(line, "tls_handshake_success_total"@, c.tls_handshake_success_total);
    lemma_field(line, "tls_handshake_success_total"@, c.tls_handshake_success_total);
    let s2 = with_field(s1, "http_connection_errors_total"@, c.http_connection_errors_total);
    lemma_field(s1, "http_connection_errors_total"@, c.http_connection_errors_total);
    let s3 = with_field(s2, "websocket_upgrade_failures_total"@, c.websocket_upgrade_failures_total);
    lemma_field(s2, "websocket_upgrade_failures_total"@, c.websocket_upgrade_failures_total);
    let s4 = with_field(s3, "websocket_upgrade_timeouts_total"@, c.websocket_upgrade_timeouts_total);
    lemma_field(s3, "websocket_upgrade_timeouts_total"@, c.websocket_upgrade_timeouts_total);
    let s5 = with_field(s4, "websocket_idle_events_total"@, c.websocket_idle_events_total);
    lemma_field(s4, "websocket_idle_events_total"@, c.websocket_idle_events_total);
    let s6 = with_field(
        s5,
        "websocket_long_lived_connections_total"@,
        c.websocket_long_lived_connections_total,
    );
    lemma_field(
        s5,
        "websocket_long_lived_connections_total"@,
        c.websocket_long_lived_connections_total,
    );
    let s7 = with_field(
        s6,
        "websocket_short_lived_connections_total"@,
        c.websocket_short_lived_connections_total,
    );
    lemma_field(
        s6,
        "websocket_short_lived_connections_total"@,
        c.websocket_short_lived_connections_total,
    );
    let s8 = with_field(s7, "websocket_client_closed_total"@, c.websocket_client_closed_total);
    lemma_field(s7, "websocket_client_closed_total"@, c.websocket_client_closed_total);
    let s9 = with_field(s8, "websocket_backend_closed_total"@, c.websocket_backend_closed_total);
    lemma_field(s8, "websocket_backend_closed_total"@, c.websocket_backend_closed_total);
    let s10 = with_field(s9, "websocket_gateway_shutdown_total"@, c.websocket_gateway_shutdown_total);
    lemma_field(s9, "websocket_gateway_shutdown_total"@, c.websocket_gateway_shutdown_total);
    let s11 = with_direction_fields(s10, "client_to_backend"@, c.client_to_backend);
    law_direction_counters_are_shown(s10, "client_to_backend"@, c.client_to_backend);
    law_direction_counters_are_shown(s11, "backend_to_client"@, c.backend_to_client);
}

/// A line is the summary, with the further counters behind it in diagnostic mode only, and a brace.
pub proof fn law_further_counters_are_for_diagnosis(inner: RuntimeObservability, ts_unix_ms: u128)
    ensures
        ({
            let line = snapshot_line(inner, ts_unix_ms);
            let common = common_line(inner, ts_unix_ms);
            &&& inner.mode is Diagnostic ==> line == with_diagnostic_fields(common, inner.counters)
                + "}"@
            &&& !(inner.mode is Diagnostic) ==> line == common + "}"@
        }),
        profile_name(ObservabilityMode::Off) == "off"@,
        profile_name(ObservabilityMode::Production) == "production"@,
        profile_name(ObservabilityMode::Diagnostic) == "diagnostic"@,
{
}

/// Nothing has been counted at the start.
pub proof fn law_counting_starts_at_zero()
    ensures
        ({
            let c = no_counts();
            &&& c.active_transport_connections == 0 && c.peak_transport_connections == 0
            &&& c.transport_connections_total == 0 && c.tls_handshake_success_total == 0
            &&& c.tls_handshake_failures_total == 0 && c.tls_handshake_timeouts_total == 0
            &&& c.http_connection_errors_total == 0 && c.active_websocket_connections == 0
            &&& c.peak_websocket_connections == 0 && c.websocket_connections_total == 0
            &&& c.websocket_backend_connect_failures_total == 0
            &&& c.websocket_backend_connect_timeouts_total == 0
            &&& c.websocket_upgrade_failures_total == 0 && c.websocket_upgrade_timeouts_total == 0
            &&& c.websocket_relay_failures_total == 0 && c.websocket_idle_events_total == 0
            &&& c.websocket_no_progress_events_total == 0
            &&& c.websocket_long_lived_connections_total == 0
            &&& c.websocket_short_lived_connections_total == 0
            &&& c.websocket_client_closed_total == 0 && c.websocket_backend_closed_total == 0
            &&& c.websocket_gateway_shutdown_total == 0
            &&& c.client_to_backend == c.backend_to_client
            &&& c.client_to_backend.bytes_total == 0
            &&& c.client_to_backend.forwarded_frames_total == 0
            &&& c.client_to_backend.small_frames_total == 0
            &&& c.client_to_backend.control_frames_total == 0
            &&& c.client_to_backend.frames_le_64_bytes_total == 0
            &&& c.client_to_backend.frames_le_1024_bytes_total == 0
            &&& c.client_to_backend.frames_le_16384_bytes_total == 0
            &&& c.client_to_backend.frames_le_65536_bytes_total == 0
            &&& c.client_to_backend.frames_le_262144_bytes_total == 0
            &&& c.client_to_backend.frames_gt_262144_bytes_total == 0
        }),
{
}

} // verus!
