//! A relay between a client and a backend: two pumps, what ends them, and what is said at the end.

use vstd::prelude::*;
use vstd::utf8::encode_utf8;

use crate::config::observability::ObservabilityMode;
use crate::observability::{ActiveConnection, RuntimeObservability};
use crate::routes::BackendKind;
use crate::time::{seconds, Duration};

use super::diagnostics::{DirectionDiagnostics, DirectionSnapshot, SnapshotModel};
use super::frame::{close_frame, close_frame_model, Frame, FrameModel};
use super::pump::{CloseReason, PumpEnd, PumpReport, PumpReportModel};

verus! {

/// How many bytes are read from a stream backend at once.
pub const TCP_BRIDGE_READ_BUFFER_BYTES: usize = 64 * 1024;

pub const CLOSE_WRITE_TIMEOUT_SECONDS: u64 = 1;

pub const SHORT_LIVED_CONNECTION_SECONDS: u64 = 30;

pub const LONG_LIVED_CONNECTION_SECONDS: u64 = 5 * 60;

/// How long the gateway waits for a peer to take a close frame.
pub fn close_write_timeout() -> (r: Duration)
    ensures
        r@ == seconds(CLOSE_WRITE_TIMEOUT_SECONDS as nat),
{
    Duration::from_secs(CLOSE_WRITE_TIMEOUT_SECONDS)
}

/// What a relay is set up with.
pub struct RelaySettings {
    /// The size from which on a reader refuses a message.
    pub message_limit: usize,
    /// Whether progress is observed while the relay runs.
    pub observing: bool,
    /// Whether the two directions are recorded at all.
    pub recording: bool,
    /// Whether they are recorded in detail.
    pub detailed: bool,
    /// How often progress is observed.
    pub observation_interval: Duration,
}

/// The detail that a gateway asks of its relays.
pub open spec fn wants_detail(observability: RuntimeObservability) -> bool {
    observability.mode == ObservabilityMode::Diagnostic
        || observability.connection_event_logs_enabled
}

pub open spec fn observation_seconds(observability: RuntimeObservability) -> u64 {
    let interval = match observability.mode {
        ObservabilityMode::Production => observability.summary_interval_seconds,
        ObservabilityMode::Diagnostic => observability.diagnostic_interval_seconds,
        ObservabilityMode::Off => observability.diagnostic_interval_seconds,
    };
    if interval < 1 {
        1
    } else {
        interval
    }
}

/// The size from which on a reader refuses a message: one more than the largest allowed size.
pub open spec fn message_limit(max_message_size: usize) -> usize {
    if max_message_size == usize::MAX {
        usize::MAX
    } else {
        (max_message_size + 1) as usize
    }
}

impl RelaySettings {
    pub fn new(observability: &RuntimeObservability, max_message_size: usize) -> (r: RelaySettings)
        ensures
            r.message_limit == message_limit(max_message_size),
            r.observing == (observability.mode != ObservabilityMode::Off),
            r.recording == (observability.mode != ObservabilityMode::Off || wants_detail(
                *observability,
            )),
            r.detailed == wants_detail(*observability),
            r.observation_interval@ == seconds(observation_seconds(*observability) as nat),
    {
        let observing = observability.mode() != ObservabilityMode::Off;
        let detailed = observability.mode() == ObservabilityMode::Diagnostic
            || observability.connection_event_logs_enabled();
        let interval: u64 = observability.observation_interval_seconds();
        RelaySettings {
            message_limit: max_message_size.saturating_add(1),
            observing,
            recording: observing || detailed,
            detailed,
            observation_interval: Duration::from_secs(
                if interval < 1 {
                    1
                } else {
                    interval
                },
            ),
        }
    }

    /// The record of a direction that starts at `now`.
    pub fn diagnostics(&self, now: Duration) -> (r: DirectionDiagnostics)
        ensures
            r == DirectionDiagnostics::fresh(now, self.recording, self.detailed),
    {
        DirectionDiagnostics::new(now, self.recording, self.detailed)
    }
}

/// A reader refuses exactly the messages above the largest allowed size.
pub proof fn law_message_limit(max_message_size: usize, size: usize)
    requires
        max_message_size < usize::MAX,
    ensures
        size < message_limit(max_message_size) <==> size <= max_message_size,
{
}

/// What a relay looked like when its progress was last observed.
#[derive(Clone, Copy, Debug, PartialEq, Eq, Structural)]
pub struct ProgressTracker {
    pub forwarded_frames: u64,
    pub forwarded_bytes: u64,
    pub idle_episode_reported: bool,
    pub no_progress_episode_reported: bool,
}

impl Default for ProgressTracker {
    fn default() -> (r: ProgressTracker)
        ensures
            r == (ProgressTracker {
                forwarded_frames: 0,
                forwarded_bytes: 0,
                idle_episode_reported: false,
                no_progress_episode_reported: false,
            }),
    {
        ProgressTracker {
            forwarded_frames: 0,
            forwarded_bytes: 0,
            idle_episode_reported: false,
            no_progress_episode_reported: false,
        }
    }
}

/// What one observation found.
#[derive(Clone, Copy, Debug, PartialEq, Eq, Structural)]
pub struct Progress {
    pub progressed: bool,
    /// Both directions wait for input, and nothing has been forwarded.
    pub idle: bool,
    /// Something waits to be written, and nothing has been forwarded.
    pub no_progress: bool,
    /// The bytes forwarded since the last observation.
    pub interval_bytes: u64,
}

pub open spec fn sums_fit(upstream: SnapshotModel, downstream: SnapshotModel) -> bool {
    &&& upstream.forwarded_frames + downstream.forwarded_frames <= u64::MAX
    &&& upstream.forwarded_bytes + downstream.forwarded_bytes <= u64::MAX
}

/// What an observation of the two directions finds.
pub open spec fn progress_of(
    tracker: ProgressTracker,
    upstream: SnapshotModel,
    downstream: SnapshotModel,
) -> Progress {
    let frames = upstream.forwarded_frames + downstream.forwarded_frames;
    let bytes = upstream.forwarded_bytes + downstream.forwarded_bytes;
    let progressed = frames != tracker.forwarded_frames;
    Progress {
        progressed,
        idle: !progressed && upstream.stage.waits_for_input() && downstream.stage.waits_for_input(),
        no_progress: !progressed && (upstream.stage.writes() || downstream.stage.writes()),
        interval_bytes: if bytes < tracker.forwarded_bytes {
            0
        } else {
            (bytes - tracker.forwarded_bytes) as u64
        },
    }
}

/// What the tracker holds after an observation.
pub open spec fn tracker_after(
    tracker: ProgressTracker,
    upstream: SnapshotModel,
    downstream: SnapshotModel,
) -> ProgressTracker {
    let progress = progress_of(tracker, upstream, downstream);
    ProgressTracker {
        forwarded_frames: (upstream.forwarded_frames + downstream.forwarded_frames) as u64,
        forwarded_bytes: (upstream.forwarded_bytes + downstream.forwarded_bytes) as u64,
        idle_episode_reported: !progress.progressed && (tracker.idle_episode_reported
            || progress.idle),
        no_progress_episode_reported: !progress.progressed && (
        tracker.no_progress_episode_reported || progress.no_progress),
    }
}

/// What an observation changes in the counters: an episode is counted when it is first seen.
pub open spec fn observed(
    observability: RuntimeObservability,
    tracker: ProgressTracker,
    upstream: SnapshotModel,
    downstream: SnapshotModel,
) -> RuntimeObservability {
    let progress = progress_of(tracker, upstream, downstream);
    if progress.idle && !tracker.idle_episode_reported {
        observability.after_idle()
    } else if progress.no_progress && !tracker.no_progress_episode_reported {
        observability.after_no_progress()
    } else {
        observability
    }
}

/// Whether the sums that an observation takes fit their counters.
pub fn can_observe(upstream: &DirectionSnapshot, downstream: &DirectionSnapshot) -> (r: bool)
    ensures
        r == sums_fit(upstream@, downstream@),
{
    upstream.forwarded_frames <= u64::MAX - downstream.forwarded_frames && upstream.forwarded_bytes
        <= u64::MAX - downstream.forwarded_bytes
}

pub fn observe_progress(
    observability: &mut RuntimeObservability,
    upstream: &DirectionSnapshot,
    downstream: &DirectionSnapshot,
    tracker: &mut ProgressTracker,
) -> (r: Progress)
    requires
        sums_fit(upstream@, downstream@),
    ensures
        r == progress_of(*old(tracker), upstream@, downstream@),
        *final(tracker) == tracker_after(*old(tracker), upstream@, downstream@),
        *final(observability) == observed(
            *old(observability),
            *old(tracker),
            upstream@,
            downstream@,
        ),
{
    let forwarded_frames: u64 = upstream.forwarded_frames + downstream.forwarded_frames;
    let forwarded_bytes: u64 = upstream.forwarded_bytes + downstream.forwarded_bytes;
    let progressed = forwarded_frames != tracker.forwarded_frames;
    let waiting = upstream.stage.is_waiting_for_input() && downstream.stage.is_waiting_for_input();
    let writing = upstream.stage.is_write_path() || downstream.stage.is_write_path();
    if progressed {
        tracker.idle_episode_reported = false;
        tracker.no_progress_episode_reported = false;
    } else if waiting {
        if !tracker.idle_episode_reported {
            observability.record_websocket_idle_event();
            tracker.idle_episode_reported = true;
        }
    } else if writing {
        if !tracker.no_progress_episode_reported {
            observability.record_websocket_no_progress_event();
            tracker.no_progress_episode_reported = true;
        }
    }
    let interval_bytes: u64 = forwarded_bytes.saturating_sub(tracker.forwarded_bytes);
    tracker.forwarded_frames = forwarded_frames;
    tracker.forwarded_bytes = forwarded_bytes;
    Progress {
        progressed,
        idle: !progressed && waiting,
        no_progress: !progressed && writing,
        interval_bytes,
    }
}

/// An episode is counted once: a second observation in a row that finds the same counts changes
/// no counter, if it finds the relay in the same situation.
pub proof fn law_episodes_count_once(
    observability: RuntimeObservability,
    tracker: ProgressTracker,
    upstream: SnapshotModel,
    downstream: SnapshotModel,
)
    requires
        sums_fit(upstream, downstream),
        !progress_of(tracker, upstream, downstream).progressed,
    ensures
        ({
            let next = tracker_after(tracker, upstream, downstream);
            let counted = observed(observability, tracker, upstream, downstream);
            observed(counted, next, upstream, downstream) == counted
        }),
{
}

/// Progress starts a new episode: what was reported before does not keep the next episode from
/// being counted.
pub proof fn law_progress_starts_new_episode(
    tracker: ProgressTracker,
    upstream: SnapshotModel,
    downstream: SnapshotModel,
)
    requires
        sums_fit(upstream, downstream),
        progress_of(tracker, upstream, downstream).progressed,
    ensures
        !tracker_after(tracker, upstream, downstream).idle_episode_reported,
        !tracker_after(tracker, upstream, downstream).no_progress_episode_reported,
{
}

/// Where a relay stands.
#[derive(Clone, Copy, Debug, PartialEq, Eq, Structural)]
pub enum RelayPhase {
    /// Both pumps run.
    Running,
    /// The relay ends for `reason`; the pumps that still run are being collected.
    Draining { reason: CloseReason },
    /// Both pumps are done.
    Closed { reason: CloseReason },
}

/// What happened to a relay.
pub enum RelayEvent {
    Shutdown,
    PumpFinished(PumpReport),
    /// A pump broke off without a report.
    PumpFailed,
    /// No pump is left.
    NoPumps,
}

pub enum RelayEventModel {
    Shutdown,
    PumpFinished(PumpReportModel),
    PumpFailed,
    NoPumps,
}

impl View for RelayEvent {
    type V = RelayEventModel;

    open spec fn view(&self) -> RelayEventModel {
        match self {
            RelayEvent::Shutdown => RelayEventModel::Shutdown,
            RelayEvent::PumpFinished(report) => RelayEventModel::PumpFinished(report@),
            RelayEvent::PumpFailed => RelayEventModel::PumpFailed,
            RelayEvent::NoPumps => RelayEventModel::NoPumps,
        }
    }
}

/// What is to be done with a relay.
pub enum RelayAction {
    /// Cancel the pumps, and collect those that are left.
    Cancel,
    /// Go on collecting.
    Collect,
    /// Send these frames, as far as there are any.
    Close { downstream: Option<Frame>, backend: Option<Frame> },
}

pub enum RelayActionModel {
    Cancel,
    Collect,
    Close { downstream: Option<FrameModel>, backend: Option<FrameModel> },
}

pub open spec fn opt_frame(frame: Option<Frame>) -> Option<FrameModel> {
    match frame {
        Some(frame) => Some(frame@),
        None => None,
    }
}

impl View for RelayAction {
    type V = RelayActionModel;

    open spec fn view(&self) -> RelayActionModel {
        match self {
            RelayAction::Cancel => RelayActionModel::Cancel,
            RelayAction::Collect => RelayActionModel::Collect,
            RelayAction::Close { downstream, backend } => RelayActionModel::Close {
                downstream: opt_frame(*downstream),
                backend: opt_frame(*backend),
            },
        }
    }
}

/// The status that tells a peer why the gateway closes, and the reason in words.
pub open spec fn close_status(reason: CloseReason) -> (u16, Seq<char>) {
    match reason {
        CloseReason::ClientClosed | CloseReason::BackendClosed => (1000, ""@),
        CloseReason::GatewayShutdown => (1001, "gateway shutdown"@),
        CloseReason::RelayError | CloseReason::InternalError => (1011, "gateway relay error"@),
    }
}

pub open spec fn status_frame(reason: CloseReason) -> FrameModel {
    close_frame_model(close_status(reason).0, encode_utf8(close_status(reason).1))
}

/// Whether a peer said itself that it closes.
pub open spec fn closed_by_peer(reason: CloseReason) -> bool {
    reason == CloseReason::ClientClosed || reason == CloseReason::BackendClosed
}

/// What the gateway sends at the end. A WebSocket backend has already got a peer's close frame; a
/// stream backend has none to pass on, so that the client always gets one from the gateway.
pub open spec fn closing_action(backend: BackendKind, reason: CloseReason) -> RelayActionModel {
    match backend {
        BackendKind::WebSocket => if closed_by_peer(reason) {
            RelayActionModel::Close { downstream: None, backend: None }
        } else {
            RelayActionModel::Close {
                downstream: Some(status_frame(reason)),
                backend: Some(status_frame(reason)),
            }
        },
        BackendKind::Tcp => RelayActionModel::Close {
            downstream: Some(status_frame(reason)),
            backend: None,
        },
    }
}

/// A relay from its first frame to its last.
pub struct RelaySession {
    backend: BackendKind,
    phase: RelayPhase,
    reports: Vec<PumpReport>,
}

pub struct RelayModel {
    pub backend: BackendKind,
    pub phase: RelayPhase,
    pub reports: Seq<PumpReportModel>,
}

pub open spec fn report_models(reports: Seq<PumpReport>) -> Seq<PumpReportModel> {
    reports.map_values(|report: PumpReport| report@)
}

impl View for RelaySession {
    type V = RelayModel;

    closed spec fn view(&self) -> RelayModel {
        RelayModel {
            backend: self.backend,
            phase: self.phase,
            reports: report_models(self.reports@),
        }
    }
}

/// What an event means for a relay that runs.
pub open spec fn ending_reason(event: RelayEventModel) -> CloseReason {
    match event {
        RelayEventModel::Shutdown => CloseReason::GatewayShutdown,
        RelayEventModel::PumpFinished(report) => report.reason(),
        RelayEventModel::PumpFailed => CloseReason::InternalError,
        RelayEventModel::NoPumps => CloseReason::InternalError,
    }
}

impl RelayModel {
    pub open spec fn with_report(self, event: RelayEventModel) -> Seq<PumpReportModel> {
        match event {
            RelayEventModel::PumpFinished(report) => self.reports.push(report),
            _ => self.reports,
        }
    }

    /// The relay after an event.
    pub open spec fn after(self, event: RelayEventModel) -> RelayModel {
        RelayModel {
            phase: match self.phase {
                RelayPhase::Running => RelayPhase::Draining { reason: ending_reason(event) },
                RelayPhase::Draining { reason } => if event is NoPumps {
                    RelayPhase::Closed { reason }
                } else {
                    RelayPhase::Draining { reason }
                },
                RelayPhase::Closed { reason } => RelayPhase::Closed { reason },
            },
            reports: if self.phase is Closed {
                self.reports
            } else {
                self.with_report(event)
            },
            ..self
        }
    }

    /// What an event asks for.
    pub open spec fn action(self, event: RelayEventModel) -> RelayActionModel {
        match self.phase {
            RelayPhase::Running => RelayActionModel::Cancel,
            RelayPhase::Draining { reason } => if event is NoPumps {
                closing_action(self.backend, reason)
            } else {
                RelayActionModel::Collect
            },
            RelayPhase::Closed { reason } => RelayActionModel::Collect,
        }
    }
}

/// The first report of an error among the reports from `i` on.
pub open spec fn first_error_from(reports: Seq<PumpReportModel>, i: int) -> Option<PumpReportModel>
    decreases reports.len() - i,
{
    if i < 0 || i >= reports.len() {
        None
    } else if reports[i].is_error() {
        Some(reports[i])
    } else {
        first_error_from(reports, i + 1)
    }
}

/// What is known of a relay when it is over.
pub struct RelaySummary {
    pub close_reason: CloseReason,
    pub duration_ms: u128,
    pub short_lived: bool,
    pub long_lived: bool,
    pub remaining_active: u64,
    pub first_error_direction: &'static str,
    pub first_error_stage: &'static str,
}

impl RelaySession {
    pub fn new(backend: BackendKind) -> (r: RelaySession)
        ensures
            r@ == (RelayModel { backend, phase: RelayPhase::Running, reports: Seq::empty() }),
    {
        let reports: Vec<PumpReport> = Vec::new();
        assert(report_models(reports@) =~= Seq::<PumpReportModel>::empty());
        RelaySession { backend, phase: RelayPhase::Running, reports }
    }

    pub fn phase(&self) -> (r: RelayPhase)
        ensures
            r == self@.phase,
    {
        self.phase
    }

    pub fn reports(&self) -> (r: &Vec<PumpReport>)
        ensures
            report_models(r@) == self@.reports,
    {
        &self.reports
    }

    fn keep_report(&mut self, event: RelayEvent)
        ensures
            final(self)@ == (RelayModel {
                reports: old(self)@.with_report(event@),
                ..old(self)@
            }),
    {
        match event {
            RelayEvent::PumpFinished(report) => {
                let ghost before = self.reports@;
                let ghost added = report@;
                self.reports.push(report);
                assert(report_models(self.reports@) =~= report_models(before).push(added));
            },
            _ => {},
        }
    }

    pub fn on_event(&mut self, event: RelayEvent) -> (r: RelayAction)
        ensures
            final(self)@ == old(self)@.after(event@),
            r@ == old(self)@.action(event@),
    {
        match self.phase {
            RelayPhase::Running => {
                let reason = match &event {
                    RelayEvent::Shutdown => CloseReason::GatewayShutdown,
                    RelayEvent::PumpFinished(report) => report.close_reason(),
                    RelayEvent::PumpFailed => CloseReason::InternalError,
                    RelayEvent::NoPumps => CloseReason::InternalError,
                };
                self.keep_report(event);
                self.phase = RelayPhase::Draining { reason };
                RelayAction::Cancel
            },
            RelayPhase::Draining { reason } => {
                let over = match &event {
                    RelayEvent::NoPumps => true,
                    _ => false,
                };
                self.keep_report(event);
                if over {
                    self.phase = RelayPhase::Closed { reason };
                    closing(self.backend, reason)
                } else {
                    RelayAction::Collect
                }
            },
            RelayPhase::Closed { reason: _ } => RelayAction::Collect,
        }
    }

    fn first_error(&self) -> (r: Option<usize>)
        ensures
            match r {
                Some(i) => i < self@.reports.len() && first_error_from(self@.reports, 0) == Some(
                    self@.reports[i as int],
                ),
                None => first_error_from(self@.reports, 0) is None,
            },
    {
        let mut i: usize = 0;
        while i < self.reports.len()
            invariant
                i <= self.reports@.len(),
                first_error_from(self@.reports, 0) == first_error_from(self@.reports, i as int),
            decreases self.reports@.len() - i,
        {
            assert(self@.reports[i as int] == self.reports@[i as int]@);
            match &self.reports[i].end {
                PumpEnd::Error(_) => {
                    return Some(i);
                },
                _ => {},
            }
            i += 1;
        }
        None
    }

    /// Counts the end of a relay that lasted `duration`, and sums it up.
    pub fn finish(
        &self,
        duration: &Duration,
        active_connection: &ActiveConnection,
        observability: &mut RuntimeObservability,
    ) -> (r: RelaySummary)
        requires
            self@.phase is Closed,
        ensures
            self@.phase matches RelayPhase::Closed { reason } && {
                &&& *final(observability) == old(observability).after_close(
                    reason.class(),
                    duration@ >= seconds(LONG_LIVED_CONNECTION_SECONDS as nat),
                    duration@ <= seconds(SHORT_LIVED_CONNECTION_SECONDS as nat),
                )
                &&& r.close_reason == reason
                &&& r.duration_ms == duration@ / 1_000_000
                &&& r.short_lived == (duration@ / 1_000_000 <= SHORT_LIVED_CONNECTION_SECONDS * 1000)
                &&& r.long_lived == (duration@ / 1_000_000 >= LONG_LIVED_CONNECTION_SECONDS * 1000)
                &&& r.remaining_active == (if old(observability).counters.active(
                    active_connection@,
                ) == 0 {
                    0
                } else {
                    old(observability).counters.active(active_connection@) - 1
                })
                &&& match first_error_from(self@.reports, 0) {
                    Some(report) => r.first_error_direction@ == report.direction.name()
                        && r.first_error_stage@ == report.final_snapshot.stage.name(),
                    None => r.first_error_direction@ == "-"@ && r.first_error_stage@ == "-"@,
                }
            },
    {
        let close_reason = match self.phase {
            RelayPhase::Running => CloseReason::InternalError,
            RelayPhase::Draining { reason } => reason,
            RelayPhase::Closed { reason } => reason,
        };
        let long = Duration::from_secs(LONG_LIVED_CONNECTION_SECONDS);
        let short = Duration::from_secs(SHORT_LIVED_CONNECTION_SECONDS);
        observability.record_websocket_closed(
            close_reason.observability_class(),
            !duration.shorter_than(&long),
            !short.shorter_than(duration),
        );
        let duration_ms: u128 = duration.as_millis();
        let remaining_active: u64 = active_connection.active_connections(
            observability,
        ).saturating_sub(1);
        let (first_error_direction, first_error_stage) = match self.first_error() {
            Some(i) => {
                assert(self@.reports[i as int] == self.reports@[i as int]@);
                (
                    self.reports[i].direction.as_str(),
                    self.reports[i].final_snapshot.stage.as_str(),
                )
            },
            None => ("-", "-"),
        };
        RelaySummary {
            close_reason,
            duration_ms,
            short_lived: duration_ms <= short.as_millis(),
            long_lived: duration_ms >= long.as_millis(),
            remaining_active,
            first_error_direction,
            first_error_stage,
        }
    }
}

fn status(reason: CloseReason) -> (r: Frame)
    ensures
        r@ == status_frame(reason),
{
    match reason {
        CloseReason::ClientClosed | CloseReason::BackendClosed => close_frame(1000, "".as_bytes()),
        CloseReason::GatewayShutdown => close_frame(1001, "gateway shutdown".as_bytes()),
        CloseReason::RelayError | CloseReason::InternalError => close_frame(
            1011,
            "gateway relay error".as_bytes(),
        ),
    }
}

fn closing(backend: BackendKind, reason: CloseReason) -> (r: RelayAction)
    ensures
        r@ == closing_action(backend, reason),
{
    match backend {
        BackendKind::WebSocket => if reason == CloseReason::ClientClosed || reason
            == CloseReason::BackendClosed {
            RelayAction::Close { downstream: None, backend: None }
        } else {
            RelayAction::Close { downstream: Some(status(reason)), backend: Some(status(reason)) }
        },
        BackendKind::Tcp => RelayAction::Close { downstream: Some(status(reason)), backend: None },
    }
}

/// The first thing that ends a relay decides its reason: nothing that happens later changes it.
pub proof fn law_first_end_decides(
    relay: RelayModel,
    first: RelayEventModel,
    second: RelayEventModel,
    third: RelayEventModel,
)
    requires
        relay.phase == RelayPhase::Running,
    ensures
        relay.after(first).phase == (RelayPhase::Draining { reason: ending_reason(first) }),
        relay.after(first).after(second).phase == (if second is NoPumps {
            RelayPhase::Closed { reason: ending_reason(first) }
        } else {
            RelayPhase::Draining { reason: ending_reason(first) }
        }),
        second is NoPumps ==> relay.after(first).after(second).after(third) == relay.after(
            first,
        ).after(second),
{
}

/// A relay that the gateway shuts down tells the client so, with status 1001, and a WebSocket
/// backend too.
pub proof fn law_shutdown_is_announced(backend: BackendKind)
    ensures
        closing_action(backend, CloseReason::GatewayShutdown) matches RelayActionModel::Close {
            downstream,
            backend: other,
        } && {
            let frame = close_frame_model(1001, encode_utf8("gateway shutdown"@));
            &&& downstream == Some(frame)
            &&& backend == BackendKind::WebSocket ==> other == Some(frame)
            &&& backend == BackendKind::Tcp ==> other is None
        },
{
}

/// A client is left without a close frame of the gateway only where a WebSocket peer closed.
pub proof fn law_client_gets_a_close_frame(backend: BackendKind, reason: CloseReason)
    ensures
        closing_action(backend, reason) matches RelayActionModel::Close { downstream, .. } && (
        downstream is None <==> backend == BackendKind::WebSocket && closed_by_peer(reason)),
{
}

/// Every report of a pump is kept until the relay is closed, in the order of the pumps' ends.
pub proof fn law_reports_are_kept(relay: RelayModel, report: PumpReportModel)
    requires
        !(relay.phase is Closed),
    ensures
        relay.after(RelayEventModel::PumpFinished(report)).reports == relay.reports.push(report),
{
}

/// The end of a relay is laid to the one who ended it: to the client or the backend where that
/// peer closed, to the relay where a pump broke, to the gateway where it shuts down, and to an
/// internal error where no pump says why. The first event also cancels the pumps, and keeps the
/// backend.
pub proof fn law_the_end_is_laid_to_its_cause(
    relay: RelayModel,
    report: PumpReportModel,
    event: RelayEventModel,
)
    requires
        relay.phase == RelayPhase::Running,
    ensures
        ({
            let ended = relay.after(RelayEventModel::PumpFinished(report)).phase;
            &&& report.end is PeerClosed && report.direction
                == super::pump::Direction::ClientToBackend ==> ended == (RelayPhase::Draining {
                reason: CloseReason::ClientClosed,
            })
            &&& report.end is PeerClosed && report.direction
                == super::pump::Direction::BackendToClient ==> ended == (RelayPhase::Draining {
                reason: CloseReason::BackendClosed,
            })
            &&& report.end is Error ==> ended == (RelayPhase::Draining {
                reason: CloseReason::RelayError,
            })
            &&& report.end is Cancelled ==> ended == (RelayPhase::Draining {
                reason: CloseReason::InternalError,
            })
        }),
        relay.after(RelayEventModel::Shutdown).phase == (RelayPhase::Draining {
            reason: CloseReason::GatewayShutdown,
        }),
        relay.after(RelayEventModel::PumpFailed).phase == (RelayPhase::Draining {
            reason: CloseReason::InternalError,
        }),
        relay.after(RelayEventModel::NoPumps).phase == (RelayPhase::Draining {
            reason: CloseReason::InternalError,
        }),
        relay.action(event) == RelayActionModel::Cancel,
        relay.after(event).backend == relay.backend,
        !(event is PumpFinished) ==> relay.after(event).reports == relay.reports,
{
}

/// What the peers are told at the end. Between WebSockets nothing more is sent after a peer's own
/// close frame; otherwise both get a close frame with the same status. A client of a stream
/// backend always gets one, and the stream never. The status is 1000 without words after a close,
/// 1001 for a shutdown and 1011 for a failure.
pub proof fn law_peers_are_told_why(relay: RelayModel, reason: CloseReason)
    requires
        relay.phase == (RelayPhase::Draining { reason }),
    ensures
        relay.after(RelayEventModel::NoPumps).phase == (RelayPhase::Closed { reason }),
        relay.action(RelayEventModel::NoPumps) matches RelayActionModel::Close {
            downstream,
            backend,
        } && {
            let quiet = reason == CloseReason::ClientClosed || reason == CloseReason::BackendClosed;
            let (high, low, words) = if quiet {
                (3u8, 232u8, ""@)
            } else if reason == CloseReason::GatewayShutdown {
                (3u8, 233u8, "gateway shutdown"@)
            } else {
                (3u8, 243u8, "gateway relay error"@)
            };
            &&& relay.backend == BackendKind::WebSocket && quiet ==> downstream is None
                && backend is None
            &&& relay.backend == BackendKind::WebSocket && !quiet ==> downstream is Some && backend
                == downstream
            &&& relay.backend == BackendKind::Tcp ==> downstream is Some && backend is None
            &&& downstream matches Some(frame) ==> {
                &&& frame.fin && frame.opcode == super::diagnostics::OpCode::Close
                &&& frame.payload == seq![high, low] + encode_utf8(words)
            }
        },
{
    assert(1000u16 / 256 == 3 && 1000u16 % 256 == 232);
    assert(1001u16 / 256 == 3 && 1001u16 % 256 == 233);
    assert(1011u16 / 256 == 3 && 1011u16 % 256 == 243);
}

/// While a relay ends it waits until no pump is left, whatever the pumps report, and its reason
/// and its backend stay; when it is closed nothing more happens.
pub proof fn law_ending_relays_wait_for_their_pumps(
    relay: RelayModel,
    reason: CloseReason,
    event: RelayEventModel,
)
    ensures
        relay.phase == (RelayPhase::Draining { reason }) && !(event is NoPumps) ==> relay.after(
            event,
        ).phase == (RelayPhase::Draining { reason }) && relay.action(event)
            == RelayActionModel::Collect && relay.after(event).backend == relay.backend,
        relay.phase == (RelayPhase::Draining { reason }) && !(event is PumpFinished)
            ==> relay.after(event).reports == relay.reports,
        relay.phase == (RelayPhase::Closed { reason }) ==> relay.after(event) == relay
            && relay.action(event) == RelayActionModel::Collect,
{
}

/// A close by either peer between two WebSockets, from its frame to the end of the relay: the
/// frame is handed on, the relay ends as closed by that peer, and no other frame is sent.
pub proof fn law_a_peers_close_ends_the_relay_quietly(
    relay: RelayModel,
    pump: super::pump::Pump,
    observability: RuntimeObservability,
    frame: FrameModel,
    now: nat,
    later: nat,
)
    requires
        relay.phase == RelayPhase::Running,
        relay.backend == BackendKind::WebSocket,
        pump.phase == super::pump::PumpPhase::Reading,
        pump.mode == super::pump::PumpMode::WebSocketToWebSocket,
        frame.opcode == super::diagnostics::OpCode::Close,
    ensures
        ({
            let o1 = pump.outcome(
                observability,
                super::pump::PumpEventModel::FrameRead(frame),
                now,
            );
            let o2 = o1.pump.outcome(
                o1.observability,
                super::pump::PumpEventModel::WriterLocked,
                now,
            );
            let o3 = o2.pump.outcome(
                o2.observability,
                super::pump::PumpEventModel::FrameWritten,
                now,
            );
            let o4 = o3.pump.outcome(o3.observability, super::pump::PumpEventModel::Flushed, later);
            &&& o4.action matches super::pump::PumpActionModel::Report(report) && {
                let draining = relay.after(RelayEventModel::PumpFinished(report));
                let closed = draining.after(RelayEventModel::NoPumps);
                &&& closed.phase == (RelayPhase::Closed {
                    reason: if pump.direction == super::pump::Direction::ClientToBackend {
                        CloseReason::ClientClosed
                    } else {
                        CloseReason::BackendClosed
                    },
                })
                &&& draining.action(RelayEventModel::NoPumps) == (RelayActionModel::Close {
                    downstream: None,
                    backend: None,
                })
            }
        }),
{
    super::pump::law_close_frame_ends_as_peer_closed(
        pump,
        observability,
        frame,
        now,
        now,
        now,
        later,
    );
}

/// The first error of a relay is the report of an error before which there is none.
pub proof fn law_first_error_comes_first(reports: Seq<PumpReportModel>, i: int)
    requires
        0 <= i <= reports.len(),
    ensures
        match first_error_from(reports, i) {
            Some(report) => exists|k: int|
                i <= k < reports.len() && #[trigger] reports[k] == report && report.end is Error
                    && forall|j: int| i <= j < k ==> !((#[trigger] reports[j]).end is Error),
            None => forall|j: int| i <= j < reports.len() ==> !((#[trigger] reports[j]).end is Error),
        },
    decreases reports.len() - i,
{
    if i < reports.len() && !reports[i].is_error() {
        law_first_error_comes_first(reports, i + 1);
    } else if i < reports.len() {
        assert(reports[i] == first_error_from(reports, i)->0);
    }
}

/// What an observation finds: progress where the number of forwarded frames has changed; else an
/// idle relay where both directions wait for input, and a stuck one where either is writing. The
/// bytes since the last observation add up to what was forwarded.
pub proof fn law_observations_compare_with_the_last(
    tracker: ProgressTracker,
    upstream: SnapshotModel,
    downstream: SnapshotModel,
)
    requires
        sums_fit(upstream, downstream),
    ensures
        ({
            let found = progress_of(tracker, upstream, downstream);
            let next = tracker_after(tracker, upstream, downstream);
            let waiting = super::diagnostics::RelayStage::AwaitingRead;
            &&& found.progressed <==> upstream.forwarded_frames + downstream.forwarded_frames
                != tracker.forwarded_frames
            &&& found.idle <==> !found.progressed && upstream.stage == waiting && downstream.stage
                == waiting
            &&& found.no_progress ==> !found.progressed && !found.idle
            &&& !found.progressed && !found.idle && !found.no_progress ==> {
                let over = |stage: super::diagnostics::RelayStage|
                    stage == super::diagnostics::RelayStage::PeerClosed || stage
                        == super::diagnostics::RelayStage::Cancelled || stage
                        == super::diagnostics::RelayStage::Ended;
                &&& upstream.stage == waiting || over(upstream.stage)
                &&& downstream.stage == waiting || over(downstream.stage)
            }
            &&& tracker.forwarded_bytes <= upstream.forwarded_bytes + downstream.forwarded_bytes
                ==> tracker.forwarded_bytes + found.interval_bytes == upstream.forwarded_bytes
                + downstream.forwarded_bytes
            &&& tracker.forwarded_bytes > upstream.forwarded_bytes + downstream.forwarded_bytes
                ==> found.interval_bytes == 0
            &&& next.forwarded_frames == upstream.forwarded_frames + downstream.forwarded_frames
            &&& next.forwarded_bytes == upstream.forwarded_bytes + downstream.forwarded_bytes
            &&& !found.progressed ==> (next.idle_episode_reported <==> tracker.idle_episode_reported
                || found.idle)
            &&& !found.progressed ==> (next.no_progress_episode_reported
                <==> tracker.no_progress_episode_reported || found.no_progress)
        }),
{
}

/// An observation counts an idle episode, or one without progress, exactly where it finds one that
/// was not reported before.
pub proof fn law_new_episodes_are_counted(
    observability: RuntimeObservability,
    tracker: ProgressTracker,
    upstream: SnapshotModel,
    downstream: SnapshotModel,
)
    ensures
        ({
            let found = progress_of(tracker, upstream, downstream);
            let after = observed(observability, tracker, upstream, downstream);
            let b = observability.counters;
            &&& after.counters.websocket_idle_events_total != b.websocket_idle_events_total <==> (
            found.idle && !tracker.idle_episode_reported && observability.mode
                == ObservabilityMode::Diagnostic)
            &&& after.counters.websocket_no_progress_events_total
                != b.websocket_no_progress_events_total <==> (found.no_progress
                && !tracker.no_progress_episode_reported)
            &&& b.websocket_no_progress_events_total < u64::MAX
                ==> after.counters.websocket_no_progress_events_total
                <= b.websocket_no_progress_events_total + 1
            &&& !found.idle && !found.no_progress ==> after == observability
        }),
{
}

/// How often a relay is observed: at least a second apart, and otherwise as the profile says.
pub proof fn law_observation_interval(observability: RuntimeObservability)
    ensures
        ({
            let asked = if observability.mode == ObservabilityMode::Production {
                observability.summary_interval_seconds
            } else {
                observability.diagnostic_interval_seconds
            };
            &&& observation_seconds(observability) >= 1
            &&& asked >= 1 ==> observation_seconds(observability) == asked
            &&& asked == 0 ==> observation_seconds(observability) == 1
        }),
{
}

/// Detail is wanted in diagnostic mode and wherever connection events are logged.
pub proof fn law_detail_is_wanted_for_diagnosis_and_logs(observability: RuntimeObservability)
    ensures
        observability.mode is Diagnostic ==> wants_detail(observability),
        observability.connection_event_logs_enabled ==> wants_detail(observability),
        wants_detail(observability) ==> observability.mode is Diagnostic
            || observability.connection_event_logs_enabled,
{
}

} // verus!
