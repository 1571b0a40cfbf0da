//! One direction of a relay: reads from one peer, writes to the other, and records what it did.

use vstd::prelude::*;

use crate::observability::{incremented, RelayDirection, RuntimeObservability, WebSocketCloseClass};
use crate::time::Duration;

use super::diagnostics::{
    DirectionDiagnostics, DirectionSnapshot, OpCode, RelayStage, SnapshotModel,
};
use super::frame::{connection_closed_text, Frame, FrameModel};

verus! {

/// Which peer a pump reads from.
#[derive(Clone, Copy, Debug, PartialEq, Eq, Structural)]
pub enum Direction {
    ClientToBackend,
    BackendToClient,
}

impl Direction {
    pub open spec fn name(self) -> Seq<char> {
        match self {
            Direction::ClientToBackend => "client_to_backend"@,
            Direction::BackendToClient => "backend_to_client"@,
        }
    }

    pub open spec fn relay(self) -> RelayDirection {
        match self {
            Direction::ClientToBackend => RelayDirection::ClientToBackend,
            Direction::BackendToClient => RelayDirection::BackendToClient,
        }
    }

    pub fn as_str(self) -> (r: &'static str)
        ensures
            r@ == self.name(),
    {
        match self {
            Direction::ClientToBackend => "client_to_backend",
            Direction::BackendToClient => "backend_to_client",
        }
    }

    pub fn observability_direction(self) -> (r: RelayDirection)
        ensures
            r == self.relay(),
    {
        match self {
            Direction::ClientToBackend => RelayDirection::ClientToBackend,
            Direction::BackendToClient => RelayDirection::BackendToClient,
        }
    }
}

/// Why a relay came to its end.
#[derive(Clone, Copy, Debug, PartialEq, Eq, Structural)]
pub enum CloseReason {
    ClientClosed,
    BackendClosed,
    GatewayShutdown,
    RelayError,
    InternalError,
}

impl CloseReason {
    pub open spec fn name(self) -> Seq<char> {
        match self {
            CloseReason::ClientClosed => "client_closed"@,
            CloseReason::BackendClosed => "backend_closed"@,
            CloseReason::GatewayShutdown => "gateway_shutdown"@,
            CloseReason::RelayError => "relay_error"@,
            CloseReason::InternalError => "internal_error"@,
        }
    }

    pub open spec fn class(self) -> WebSocketCloseClass {
        match self {
            CloseReason::ClientClosed => WebSocketCloseClass::ClientClosed,
            CloseReason::BackendClosed => WebSocketCloseClass::BackendClosed,
            CloseReason::GatewayShutdown => WebSocketCloseClass::GatewayShutdown,
            CloseReason::RelayError => WebSocketCloseClass::RelayError,
            CloseReason::InternalError => WebSocketCloseClass::InternalError,
        }
    }

    pub fn as_str(self) -> (r: &'static str)
        ensures
            r@ == self.name(),
    {
        match self {
            CloseReason::ClientClosed => "client_closed",
            CloseReason::BackendClosed => "backend_closed",
            CloseReason::GatewayShutdown => "gateway_shutdown",
            CloseReason::RelayError => "relay_error",
            CloseReason::InternalError => "internal_error",
        }
    }

    pub fn observability_class(self) -> (r: WebSocketCloseClass)
        ensures
            r == self.class(),
    {
        match self {
            CloseReason::ClientClosed => WebSocketCloseClass::ClientClosed,
            CloseReason::BackendClosed => WebSocketCloseClass::BackendClosed,
            CloseReason::GatewayShutdown => WebSocketCloseClass::GatewayShutdown,
            CloseReason::RelayError => WebSocketCloseClass::RelayError,
            CloseReason::InternalError => WebSocketCloseClass::InternalError,
        }
    }
}

/// How a pump came to its end.
pub enum PumpEnd {
    PeerClosed,
    Cancelled,
    Error(String),
}

pub enum PumpEndModel {
    PeerClosed,
    Cancelled,
    Error(Seq<char>),
}

impl View for PumpEnd {
    type V = PumpEndModel;

    open spec fn view(&self) -> PumpEndModel {
        match self {
            PumpEnd::PeerClosed => PumpEndModel::PeerClosed,
            PumpEnd::Cancelled => PumpEndModel::Cancelled,
            PumpEnd::Error(error) => PumpEndModel::Error(error@),
        }
    }
}

/// What a pump leaves behind.
pub struct PumpReport {
    pub direction: Direction,
    pub final_snapshot: DirectionSnapshot,
    pub end: PumpEnd,
}

pub struct PumpReportModel {
    pub direction: Direction,
    pub final_snapshot: SnapshotModel,
    pub end: PumpEndModel,
}

impl View for PumpReport {
    type V = PumpReportModel;

    open spec fn view(&self) -> PumpReportModel {
        PumpReportModel {
            direction: self.direction,
            final_snapshot: self.final_snapshot@,
            end: self.end@,
        }
    }
}

impl PumpReportModel {
    /// What the end of this pump, as the first of two, means for the relay.
    pub open spec fn reason(self) -> CloseReason {
        match (self.end, self.direction) {
            (PumpEndModel::PeerClosed, Direction::ClientToBackend) => CloseReason::ClientClosed,
            (PumpEndModel::PeerClosed, Direction::BackendToClient) => CloseReason::BackendClosed,
            (PumpEndModel::Error(_), _) => CloseReason::RelayError,
            (PumpEndModel::Cancelled, _) => CloseReason::InternalError,
        }
    }

    pub open spec fn is_error(self) -> bool {
        self.end is Error
    }
}

impl PumpReport {
    pub fn cancelled(
        direction: Direction,
        diagnostics: &mut DirectionDiagnostics,
        now: &Duration,
    ) -> (r: PumpReport)
        ensures
            *final(diagnostics) == old(diagnostics).at_stage(RelayStage::Cancelled),
            r@ == (PumpReportModel {
                direction,
                final_snapshot: old(diagnostics).at_stage(RelayStage::Cancelled).snapshot_at(now@),
                end: PumpEndModel::Cancelled,
            }),
    {
        let final_snapshot = diagnostics.finish(RelayStage::Cancelled, now);
        PumpReport { direction, final_snapshot, end: PumpEnd::Cancelled }
    }

    pub fn peer_closed(
        direction: Direction,
        diagnostics: &mut DirectionDiagnostics,
        now: &Duration,
    ) -> (r: PumpReport)
        ensures
            *final(diagnostics) == old(diagnostics).at_stage(RelayStage::PeerClosed),
            r@ == (PumpReportModel {
                direction,
                final_snapshot: old(diagnostics).at_stage(RelayStage::PeerClosed).snapshot_at(now@),
                end: PumpEndModel::PeerClosed,
            }),
    {
        let final_snapshot = diagnostics.finish(RelayStage::PeerClosed, now);
        PumpReport { direction, final_snapshot, end: PumpEnd::PeerClosed }
    }

    pub fn error(
        direction: Direction,
        diagnostics: &mut DirectionDiagnostics,
        error: String,
        now: &Duration,
    ) -> (r: PumpReport)
        ensures
            *final(diagnostics) == old(diagnostics).at_stage(RelayStage::Ended),
            r@ == (PumpReportModel {
                direction,
                final_snapshot: old(diagnostics).snapshot_at(now@),
                end: PumpEndModel::Error(error@),
            }),
    {
        let final_snapshot = diagnostics.finish_current_stage(now);
        PumpReport { direction, final_snapshot, end: PumpEnd::Error(error) }
    }

    pub fn close_reason(&self) -> (r: CloseReason)
        ensures
            r == self@.reason(),
    {
        match (&self.end, self.direction) {
            (PumpEnd::PeerClosed, Direction::ClientToBackend) => CloseReason::ClientClosed,
            (PumpEnd::PeerClosed, Direction::BackendToClient) => CloseReason::BackendClosed,
            (PumpEnd::Error(_), _) => CloseReason::RelayError,
            (PumpEnd::Cancelled, _) => CloseReason::InternalError,
        }
    }
}

/// What a pump reads and what it writes.
#[derive(Clone, Copy, Debug, PartialEq, Eq, Structural)]
pub enum PumpMode {
    WebSocketToWebSocket,
    WebSocketToTcp,
    TcpToWebSocket,
}

/// How far the writing of a frame has come.
#[derive(Clone, Copy, Debug, PartialEq, Eq, Structural)]
pub enum WriteStep {
    Locking,
    Writing,
    Flushing,
}

/// What a pump is waiting for.
#[derive(Clone, Copy, Debug, PartialEq, Eq, Structural)]
pub enum PumpPhase {
    /// The next frame or the next bytes.
    Reading,
    /// The answer to a control frame, on the way back to the peer that is read from.
    Replying { step: WriteStep },
    /// A frame on its way to the other peer. After a close frame there is nothing more to read.
    Forwarding { step: WriteStep, closing: bool, payload_bytes: usize },
    /// Bytes on their way to a stream.
    Streaming { payload_bytes: usize },
    /// The end of the stream that is written to.
    ShuttingDown,
    /// Nothing.
    Finished,
}

/// Which of a pump's two peers a frame is written to.
#[derive(Clone, Copy, Debug, PartialEq, Eq, Structural)]
pub enum WriterSide {
    /// The peer that is read from.
    Own,
    /// The other peer.
    Target,
}

/// What happened outside.
pub enum PumpEvent {
    Cancelled,
    /// The reader owes its peer an answer to a control frame.
    ReplyRequested(Frame),
    FrameRead(Frame),
    /// Bytes of a stream; none at its end.
    StreamRead(Vec<u8>),
    ReadFailed(String),
    WriterLocked,
    FrameWritten,
    Flushed,
    StreamWritten,
    WriteFailed(String),
    /// The stream was shut down, or took too long to be.
    StreamShutDown,
}

pub enum PumpEventModel {
    Cancelled,
    ReplyRequested(FrameModel),
    FrameRead(FrameModel),
    StreamRead(Seq<u8>),
    ReadFailed(Seq<char>),
    WriterLocked,
    FrameWritten,
    Flushed,
    StreamWritten,
    WriteFailed(Seq<char>),
    StreamShutDown,
}

impl View for PumpEvent {
    type V = PumpEventModel;

    open spec fn view(&self) -> PumpEventModel {
        match self {
            PumpEvent::Cancelled => PumpEventModel::Cancelled,
            PumpEvent::ReplyRequested(frame) => PumpEventModel::ReplyRequested(frame@),
            PumpEvent::FrameRead(frame) => PumpEventModel::FrameRead(frame@),
            PumpEvent::StreamRead(bytes) => PumpEventModel::StreamRead(bytes@),
            PumpEvent::ReadFailed(error) => PumpEventModel::ReadFailed(error@),
            PumpEvent::WriterLocked => PumpEventModel::WriterLocked,
            PumpEvent::FrameWritten => PumpEventModel::FrameWritten,
            PumpEvent::Flushed => PumpEventModel::Flushed,
            PumpEvent::StreamWritten => PumpEventModel::StreamWritten,
            PumpEvent::WriteFailed(error) => PumpEventModel::WriteFailed(error@),
            PumpEvent::StreamShutDown => PumpEventModel::StreamShutDown,
        }
    }
}

/// What is to be done next.
pub enum PumpAction {
    /// Start to read.
    Read,
    /// Go on with the read that the reply interrupted.
    ResumeRead,
    /// Acquire a writer for the frame.
    Lock { side: WriterSide, frame: Frame },
    /// Write the frame whose writer was acquired.
    Write,
    Flush,
    WriteStream(Vec<u8>),
    ShutDownStream,
    /// The pump is done.
    Report(PumpReport),
}

pub enum PumpActionModel {
    Read,
    ResumeRead,
    Lock { side: WriterSide, frame: FrameModel },
    Write,
    Flush,
    WriteStream(Seq<u8>),
    ShutDownStream,
    Report(PumpReportModel),
}

impl View for PumpAction {
    type V = PumpActionModel;

    open spec fn view(&self) -> PumpActionModel {
        match self {
            PumpAction::Read => PumpActionModel::Read,
            PumpAction::ResumeRead => PumpActionModel::ResumeRead,
            PumpAction::Lock { side, frame } => PumpActionModel::Lock { side: *side, frame: frame@ },
            PumpAction::Write => PumpActionModel::Write,
            PumpAction::Flush => PumpActionModel::Flush,
            PumpAction::WriteStream(bytes) => PumpActionModel::WriteStream(bytes@),
            PumpAction::ShutDownStream => PumpActionModel::ShutDownStream,
            PumpAction::Report(report) => PumpActionModel::Report(report@),
        }
    }
}

/// One direction of a relay.
pub struct Pump {
    pub mode: PumpMode,
    pub direction: Direction,
    pub diagnostics: DirectionDiagnostics,
    pub phase: PumpPhase,
}

/// What an event leads to.
pub struct PumpOutcome {
    pub pump: Pump,
    pub observability: RuntimeObservability,
    pub action: PumpActionModel,
}

impl PumpMode {
    /// Whether a frame of this kind carries data to the other peer.
    pub open spec fn carries(self, opcode: OpCode) -> bool {
        match opcode {
            OpCode::Text | OpCode::Binary => true,
            OpCode::Continuation => self == PumpMode::WebSocketToTcp,
            _ => false,
        }
    }
}

impl Pump {
    /// Whether an event can occur in the pump's phase.
    pub open spec fn accepts(self, event: PumpEventModel) -> bool {
        match self.phase {
            PumpPhase::Reading => match event {
                PumpEventModel::Cancelled | PumpEventModel::ReadFailed(_) => true,
                PumpEventModel::FrameRead(_) | PumpEventModel::ReplyRequested(_) => self.mode
                    != PumpMode::TcpToWebSocket,
                PumpEventModel::StreamRead(_) => self.mode == PumpMode::TcpToWebSocket,
                _ => false,
            },
            PumpPhase::Replying { step } => step_accepts(step, event),
            PumpPhase::Forwarding { step, .. } => step_accepts(step, event),
            PumpPhase::Streaming { .. } => match event {
                PumpEventModel::Cancelled
                | PumpEventModel::StreamWritten
                | PumpEventModel::WriteFailed(_) => true,
                _ => false,
            },
            PumpPhase::ShuttingDown => event is StreamShutDown,
            PumpPhase::Finished => false,
        }
    }

    /// The pump with another record and another phase.
    pub open spec fn with(self, diagnostics: DirectionDiagnostics, phase: PumpPhase) -> Pump {
        Pump { diagnostics, phase, ..self }
    }

    /// Back to reading, with the record `diagnostics`.
    pub open spec fn rereading(
        self,
        diagnostics: DirectionDiagnostics,
        observability: RuntimeObservability,
    ) -> PumpOutcome {
        PumpOutcome {
            pump: self.with(diagnostics.at_stage(RelayStage::AwaitingRead), PumpPhase::Reading),
            observability,
            action: PumpActionModel::Read,
        }
    }

    /// The end, at `stage`.
    pub open spec fn ended(
        self,
        stage: RelayStage,
        end: PumpEndModel,
        observability: RuntimeObservability,
        now: nat,
    ) -> PumpOutcome {
        let diagnostics = self.diagnostics.at_stage(stage);
        PumpOutcome {
            pump: self.with(diagnostics, PumpPhase::Finished),
            observability,
            action: PumpActionModel::Report(
                PumpReportModel {
                    direction: self.direction,
                    final_snapshot: diagnostics.snapshot_at(now),
                    end,
                },
            ),
        }
    }

    /// The end by an error, in the stage where the pump stands.
    pub open spec fn failed(
        self,
        error: Seq<char>,
        observability: RuntimeObservability,
        now: nat,
    ) -> PumpOutcome {
        PumpOutcome {
            pump: self.with(self.diagnostics.at_stage(RelayStage::Ended), PumpPhase::Finished),
            observability,
            action: PumpActionModel::Report(
                PumpReportModel {
                    direction: self.direction,
                    final_snapshot: self.diagnostics.snapshot_at(now),
                    end: PumpEndModel::Error(error),
                },
            ),
        }
    }

    /// A frame starts on its way to the other peer.
    pub open spec fn forwarding(
        self,
        diagnostics: DirectionDiagnostics,
        frame: FrameModel,
        closing: bool,
        observability: RuntimeObservability,
    ) -> PumpOutcome {
        PumpOutcome {
            pump: self.with(
                diagnostics.at_stage(RelayStage::WaitingWriterLock),
                PumpPhase::Forwarding {
                    step: WriteStep::Locking,
                    closing,
                    payload_bytes: frame.payload.len() as usize,
                },
            ),
            observability,
            action: PumpActionModel::Lock { side: WriterSide::Target, frame },
        }
    }

    /// What a frame that was read leads to.
    pub open spec fn frame_outcome(
        self,
        observability: RuntimeObservability,
        frame: FrameModel,
        now: nat,
    ) -> PumpOutcome {
        let bytes = frame.payload.len() as usize;
        if self.mode.carries(frame.opcode) {
            let read = self.diagnostics.after_read(frame.opcode, frame.fin, bytes, now);
            if self.mode == PumpMode::WebSocketToTcp {
                PumpOutcome {
                    pump: self.with(
                        read.at_stage(RelayStage::WritingStreamBytes),
                        PumpPhase::Streaming { payload_bytes: bytes },
                    ),
                    observability,
                    action: PumpActionModel::WriteStream(frame.payload),
                }
            } else {
                self.forwarding(read, frame, false, observability)
            }
        } else {
            let seen = self.diagnostics.after_control_frame(frame.opcode, frame.fin, bytes, now);
            let counted = observability.after_control_frame(self.direction.relay());
            if frame.opcode == OpCode::Close {
                if self.mode == PumpMode::WebSocketToTcp {
                    PumpOutcome {
                        pump: self.with(seen, PumpPhase::ShuttingDown),
                        observability: counted,
                        action: PumpActionModel::ShutDownStream,
                    }
                } else {
                    self.forwarding(seen, frame, true, counted)
                }
            } else {
                self.rereading(seen, counted)
            }
        }
    }

    /// What bytes of a stream lead to: its end, or one binary frame with exactly these bytes.
    pub open spec fn stream_outcome(
        self,
        observability: RuntimeObservability,
        bytes: Seq<u8>,
        now: nat,
    ) -> PumpOutcome {
        if bytes.len() == 0 {
            self.ended(RelayStage::PeerClosed, PumpEndModel::PeerClosed, observability, now)
        } else {
            let frame = FrameModel { fin: true, opcode: OpCode::Binary, payload: bytes };
            self.forwarding(
                self.diagnostics.after_read(OpCode::Binary, true, bytes.len() as usize, now),
                frame,
                false,
                observability,
            )
        }
    }

    /// What the owed answer to a control frame leads to.
    pub open spec fn reply_outcome(
        self,
        observability: RuntimeObservability,
        frame: FrameModel,
        now: nat,
    ) -> PumpOutcome {
        let seen = self.diagnostics.after_control_frame(
            frame.opcode,
            frame.fin,
            frame.payload.len() as usize,
            now,
        );
        PumpOutcome {
            pump: self.with(
                seen.at_stage(RelayStage::WaitingWriterLock),
                PumpPhase::Replying { step: WriteStep::Locking },
            ),
            observability: observability.after_control_frame(self.direction.relay()),
            action: PumpActionModel::Lock { side: WriterSide::Own, frame },
        }
    }

    /// What data that reached the other peer leads to.
    pub open spec fn delivered_outcome(
        self,
        observability: RuntimeObservability,
        payload_bytes: usize,
        now: nat,
    ) -> PumpOutcome {
        self.rereading(
            self.diagnostics.after_forwarded(payload_bytes, now),
            observability.after_frame(self.direction.relay(), payload_bytes),
        )
    }

    /// What an event leads to while a frame goes to the other peer.
    pub open spec fn forwarding_outcome(
        self,
        observability: RuntimeObservability,
        event: PumpEventModel,
        closing: bool,
        payload_bytes: usize,
        now: nat,
    ) -> PumpOutcome {
        match event {
            PumpEventModel::WriterLocked => PumpOutcome {
                pump: self.with(
                    self.diagnostics.at_stage(
                        if closing {
                            RelayStage::WritingControlFrame
                        } else {
                            RelayStage::WritingDataFrame
                        },
                    ),
                    PumpPhase::Forwarding { step: WriteStep::Writing, closing, payload_bytes },
                ),
                observability,
                action: PumpActionModel::Write,
            },
            PumpEventModel::FrameWritten => PumpOutcome {
                pump: self.with(
                    self.diagnostics.at_stage(RelayStage::FlushingFrame),
                    PumpPhase::Forwarding { step: WriteStep::Flushing, closing, payload_bytes },
                ),
                observability,
                action: PumpActionModel::Flush,
            },
            PumpEventModel::Flushed => if closing {
                self.ended(RelayStage::PeerClosed, PumpEndModel::PeerClosed, observability, now)
            } else {
                self.delivered_outcome(observability, payload_bytes, now)
            },
            PumpEventModel::WriteFailed(error) => self.failed(error, observability, now),
            _ => self.failed("Connection is closed"@, observability, now),
        }
    }

    /// What an event leads to while a reply goes back.
    pub open spec fn replying_outcome(
        self,
        observability: RuntimeObservability,
        event: PumpEventModel,
        now: nat,
    ) -> PumpOutcome {
        match event {
            PumpEventModel::WriterLocked => PumpOutcome {
                pump: self.with(
                    self.diagnostics.at_stage(RelayStage::WritingControlFrame),
                    PumpPhase::Replying { step: WriteStep::Writing },
                ),
                observability,
                action: PumpActionModel::Write,
            },
            PumpEventModel::FrameWritten => PumpOutcome {
                pump: self.with(
                    self.diagnostics.at_stage(RelayStage::FlushingFrame),
                    PumpPhase::Replying { step: WriteStep::Flushing },
                ),
                observability,
                action: PumpActionModel::Flush,
            },
            PumpEventModel::Flushed | PumpEventModel::WriteFailed(_) => PumpOutcome {
                pump: self.with(self.diagnostics, PumpPhase::Reading),
                observability,
                action: PumpActionModel::ResumeRead,
            },
            _ => self.ended(RelayStage::Cancelled, PumpEndModel::Cancelled, observability, now),
        }
    }

    /// What an event that the pump accepts leads to.
    pub open spec fn outcome(
        self,
        observability: RuntimeObservability,
        event: PumpEventModel,
        now: nat,
    ) -> PumpOutcome {
        match self.phase {
            PumpPhase::Reading => match event {
                PumpEventModel::FrameRead(frame) => self.frame_outcome(observability, frame, now),
                PumpEventModel::StreamRead(bytes) => self.stream_outcome(observability, bytes, now),
                PumpEventModel::ReplyRequested(frame) => self.reply_outcome(
                    observability,
                    frame,
                    now,
                ),
                PumpEventModel::ReadFailed(error) => self.failed(error, observability, now),
                _ => self.ended(RelayStage::Cancelled, PumpEndModel::Cancelled, observability, now),
            },
            PumpPhase::Replying { .. } => self.replying_outcome(observability, event, now),
            PumpPhase::Forwarding { closing, payload_bytes, .. } => self.forwarding_outcome(
                observability,
                event,
                closing,
                payload_bytes,
                now,
            ),
            PumpPhase::Streaming { payload_bytes } => match event {
                PumpEventModel::StreamWritten => self.delivered_outcome(
                    observability,
                    payload_bytes,
                    now,
                ),
                PumpEventModel::WriteFailed(error) => self.failed(error, observability, now),
                _ => self.ended(RelayStage::Cancelled, PumpEndModel::Cancelled, observability, now),
            },
            _ => self.ended(RelayStage::PeerClosed, PumpEndModel::PeerClosed, observability, now),
        }
    }

    /// A pump that is about to read.
    pub fn new(mode: PumpMode, direction: Direction, diagnostics: DirectionDiagnostics) -> (r: Pump)
        ensures
            r == (Pump {
                mode,
                direction,
                diagnostics: diagnostics.at_stage(RelayStage::AwaitingRead),
                phase: PumpPhase::Reading,
            }),
    {
        let mut diagnostics = diagnostics;
        diagnostics.set_stage(RelayStage::AwaitingRead);
        Pump { mode, direction, diagnostics, phase: PumpPhase::Reading }
    }

    fn reread(&mut self) -> (r: PumpAction)
        ensures
            *final(self) == old(self).with(
                old(self).diagnostics.at_stage(RelayStage::AwaitingRead),
                PumpPhase::Reading,
            ),
            r@ == PumpActionModel::Read,
    {
        self.diagnostics.set_stage(RelayStage::AwaitingRead);
        self.phase = PumpPhase::Reading;
        PumpAction::Read
    }

    fn end_cancelled(&mut self, now: &Duration, Ghost(o): Ghost<RuntimeObservability>) -> (r:
        PumpAction)
        ensures
            (PumpOutcome { pump: *final(self), observability: o, action: r@ }) == old(self).ended(
                RelayStage::Cancelled,
                PumpEndModel::Cancelled,
                o,
                now@,
            ),
    {
        self.phase = PumpPhase::Finished;
        PumpAction::Report(PumpReport::cancelled(self.direction, &mut self.diagnostics, now))
    }

    fn end_peer_closed(&mut self, now: &Duration, Ghost(o): Ghost<RuntimeObservability>) -> (r:
        PumpAction)
        ensures
            (PumpOutcome { pump: *final(self), observability: o, action: r@ }) == old(self).ended(
                RelayStage::PeerClosed,
                PumpEndModel::PeerClosed,
                o,
                now@,
            ),
    {
        self.phase = PumpPhase::Finished;
        PumpAction::Report(PumpReport::peer_closed(self.direction, &mut self.diagnostics, now))
    }

    fn end_error(
        &mut self,
        error: String,
        now: &Duration,
        Ghost(o): Ghost<RuntimeObservability>,
    ) -> (r: PumpAction)
        ensures
            (PumpOutcome { pump: *final(self), observability: o, action: r@ }) == old(self).failed(
                error@,
                o,
                now@,
            ),
    {
        self.phase = PumpPhase::Finished;
        PumpAction::Report(PumpReport::error(self.direction, &mut self.diagnostics, error, now))
    }

    fn forward_frame(
        &mut self,
        frame: Frame,
        closing: bool,
        Ghost(o): Ghost<RuntimeObservability>,
    ) -> (r: PumpAction)
        ensures
            (PumpOutcome { pump: *final(self), observability: o, action: r@ }) == old(
                self,
            ).forwarding(old(self).diagnostics, frame@, closing, o),
    {
        let payload_bytes: usize = frame.payload.len();
        self.diagnostics.set_stage(RelayStage::WaitingWriterLock);
        self.phase = PumpPhase::Forwarding { step: WriteStep::Locking, closing, payload_bytes };
        PumpAction::Lock { side: WriterSide::Target, frame }
    }

    fn on_frame(
        &mut self,
        frame: Frame,
        observability: &mut RuntimeObservability,
        now: &Duration,
    ) -> (r: PumpAction)
        requires
            old(self).mode != PumpMode::TcpToWebSocket,
        ensures
            (PumpOutcome { pump: *final(self), observability: *final(observability), action: r@ })
                == old(self).frame_outcome(*old(observability), frame@, now@),
    {
        let opcode = frame.opcode;
        let fin = frame.fin;
        let payload_bytes: usize = frame.payload.len();
        let to_stream = self.mode == PumpMode::WebSocketToTcp;
        let carries = match opcode {
            OpCode::Text | OpCode::Binary => true,
            OpCode::Continuation => to_stream,
            _ => false,
        };
        if carries {
            self.diagnostics.record_read(opcode, fin, payload_bytes, now);
            if to_stream {
                self.diagnostics.set_stage(RelayStage::WritingStreamBytes);
                self.phase = PumpPhase::Streaming { payload_bytes };
                return PumpAction::WriteStream(frame.payload);
            }
            return self.forward_frame(frame, false, Ghost(*observability));
        }
        self.diagnostics.record_control_frame(opcode, fin, payload_bytes, now);
        observability.record_control_frame(self.direction.observability_direction());
        if opcode == OpCode::Close {
            if to_stream {
                self.phase = PumpPhase::ShuttingDown;
                return PumpAction::ShutDownStream;
            }
            return self.forward_frame(frame, true, Ghost(*observability));
        }
        self.reread()
    }

    fn on_reply(
        &mut self,
        frame: Frame,
        observability: &mut RuntimeObservability,
        now: &Duration,
    ) -> (r: PumpAction)
        ensures
            (PumpOutcome { pump: *final(self), observability: *final(observability), action: r@ })
                == old(self).reply_outcome(*old(observability), frame@, now@),
    {
        self.diagnostics.record_control_frame(frame.opcode, frame.fin, frame.payload.len(), now);
        observability.record_control_frame(self.direction.observability_direction());
        self.diagnostics.set_stage(RelayStage::WaitingWriterLock);
        self.phase = PumpPhase::Replying { step: WriteStep::Locking };
        PumpAction::Lock { side: WriterSide::Own, frame }
    }

    fn on_delivered(
        &mut self,
        payload_bytes: usize,
        observability: &mut RuntimeObservability,
        now: &Duration,
    ) -> (r: PumpAction)
        ensures
            (PumpOutcome { pump: *final(self), observability: *final(observability), action: r@ })
                == old(self).delivered_outcome(*old(observability), payload_bytes, now@),
    {
        self.diagnostics.record_forwarded(payload_bytes, now);
        observability.record_forwarded_frame(
            self.direction.observability_direction(),
            payload_bytes,
        );
        self.reread()
    }

    fn on_reading(
        &mut self,
        event: PumpEvent,
        observability: &mut RuntimeObservability,
        now: &Duration,
    ) -> (r: PumpAction)
        requires
            old(self).phase == PumpPhase::Reading,
            old(self).accepts(event@),
        ensures
            (PumpOutcome { pump: *final(self), observability: *final(observability), action: r@ })
                == old(self).outcome(*old(observability), event@, now@),
    {
        match event {
            PumpEvent::FrameRead(frame) => self.on_frame(frame, observability, now),
            PumpEvent::StreamRead(bytes) => {
                let payload_bytes: usize = bytes.len();
                if payload_bytes == 0 {
                    return self.end_peer_closed(now, Ghost(*observability));
                }
                self.diagnostics.record_read(OpCode::Binary, true, payload_bytes, now);
                self.forward_frame(
                    Frame { fin: true, opcode: OpCode::Binary, payload: bytes },
                    false,
                    Ghost(*observability),
                )
            },
            PumpEvent::ReplyRequested(frame) => self.on_reply(frame, observability, now),
            PumpEvent::ReadFailed(error) => self.end_error(error, now, Ghost(*observability)),
            _ => self.end_cancelled(now, Ghost(*observability)),
        }
    }

    fn on_forwarding(
        &mut self,
        event: PumpEvent,
        closing: bool,
        payload_bytes: usize,
        observability: &mut RuntimeObservability,
        now: &Duration,
    ) -> (r: PumpAction)
        requires
            old(self).phase matches PumpPhase::Forwarding { step, .. } && step_accepts(
                step,
                event@,
            ),
        ensures
            (PumpOutcome { pump: *final(self), observability: *final(observability), action: r@ })
                == old(self).forwarding_outcome(
                *old(observability),
                event@,
                closing,
                payload_bytes,
                now@,
            ),
    {
        match event {
            PumpEvent::WriterLocked => {
                self.diagnostics.set_stage(
                    if closing {
                        RelayStage::WritingControlFrame
                    } else {
                        RelayStage::WritingDataFrame
                    },
                );
                self.phase = PumpPhase::Forwarding {
                    step: WriteStep::Writing,
                    closing,
                    payload_bytes,
                };
                PumpAction::Write
            },
            PumpEvent::FrameWritten => {
                self.diagnostics.set_stage(RelayStage::FlushingFrame);
                self.phase = PumpPhase::Forwarding {
                    step: WriteStep::Flushing,
                    closing,
                    payload_bytes,
                };
                PumpAction::Flush
            },
            PumpEvent::Flushed => {
                if closing {
                    self.end_peer_closed(now, Ghost(*observability))
                } else {
                    self.on_delivered(payload_bytes, observability, now)
                }
            },
            PumpEvent::WriteFailed(error) => self.end_error(error, now, Ghost(*observability)),
            _ => self.end_error(connection_closed_text(), now, Ghost(*observability)),
        }
    }

    fn on_replying(
        &mut self,
        event: PumpEvent,
        now: &Duration,
        Ghost(o): Ghost<RuntimeObservability>,
    ) -> (r: PumpAction)
        requires
            old(self).phase matches PumpPhase::Replying { step } && step_accepts(step, event@),
        ensures
            (PumpOutcome { pump: *final(self), observability: o, action: r@ }) == old(
                self,
            ).replying_outcome(o, event@, now@),
    {
        match event {
            PumpEvent::WriterLocked => {
                self.diagnostics.set_stage(RelayStage::WritingControlFrame);
                self.phase = PumpPhase::Replying { step: WriteStep::Writing };
                PumpAction::Write
            },
            PumpEvent::FrameWritten => {
                self.diagnostics.set_stage(RelayStage::FlushingFrame);
                self.phase = PumpPhase::Replying { step: WriteStep::Flushing };
                PumpAction::Flush
            },
            PumpEvent::Flushed | PumpEvent::WriteFailed(_) => {
                self.phase = PumpPhase::Reading;
                PumpAction::ResumeRead
            },
            _ => self.end_cancelled(now, Ghost(o)),
        }
    }

    /// Whether an event can occur in the pump's phase.
    pub fn expects(&self, event: &PumpEvent) -> (r: bool)
        ensures
            r == self.accepts(event@),
    {
        match self.phase {
            PumpPhase::Reading => match event {
                PumpEvent::Cancelled | PumpEvent::ReadFailed(_) => true,
                PumpEvent::FrameRead(_) | PumpEvent::ReplyRequested(_) => self.mode
                    != PumpMode::TcpToWebSocket,
                PumpEvent::StreamRead(_) => self.mode == PumpMode::TcpToWebSocket,
                _ => false,
            },
            PumpPhase::Replying { step } => step_expects(step, event),
            PumpPhase::Forwarding { step, closing: _, payload_bytes: _ } => step_expects(
                step,
                event,
            ),
            PumpPhase::Streaming { payload_bytes: _ } => match event {
                PumpEvent::Cancelled | PumpEvent::StreamWritten | PumpEvent::WriteFailed(_) => true,
                _ => false,
            },
            PumpPhase::ShuttingDown => match event {
                PumpEvent::StreamShutDown => true,
                _ => false,
            },
            PumpPhase::Finished => false,
        }
    }

    /// Takes an event that the pump accepts, and says what to do next.
    pub fn on_event(
        &mut self,
        event: PumpEvent,
        observability: &mut RuntimeObservability,
        now: &Duration,
    ) -> (r: PumpAction)
        requires
            old(self).accepts(event@),
        ensures
            (PumpOutcome { pump: *final(self), observability: *final(observability), action: r@ })
                == old(self).outcome(*old(observability), event@, now@),
    {
        match self.phase {
            PumpPhase::Reading => self.on_reading(event, observability, now),
            PumpPhase::Replying { step: _ } => self.on_replying(event, now, Ghost(*observability)),
            PumpPhase::Forwarding { step: _, closing, payload_bytes } => self.on_forwarding(
                event,
                closing,
                payload_bytes,
                observability,
                now,
            ),
            PumpPhase::Streaming { payload_bytes } => match event {
                PumpEvent::StreamWritten => self.on_delivered(payload_bytes, observability, now),
                PumpEvent::WriteFailed(error) => self.end_error(error, now, Ghost(*observability)),
                _ => self.end_cancelled(now, Ghost(*observability)),
            },
            PumpPhase::ShuttingDown => self.end_peer_closed(now, Ghost(*observability)),
            PumpPhase::Finished => self.end_peer_closed(now, Ghost(*observability)),
        }
    }
}

pub open spec fn step_accepts(step: WriteStep, event: PumpEventModel) -> bool {
    match event {
        PumpEventModel::Cancelled => true,
        PumpEventModel::WriterLocked => step == WriteStep::Locking,
        PumpEventModel::FrameWritten => step == WriteStep::Writing,
        PumpEventModel::Flushed => step == WriteStep::Flushing,
        PumpEventModel::WriteFailed(_) => step != WriteStep::Locking,
        _ => false,
    }
}

fn step_expects(step: WriteStep, event: &PumpEvent) -> (r: bool)
    ensures
        r == step_accepts(step, event@),
{
    match event {
        PumpEvent::Cancelled => true,
        PumpEvent::WriterLocked => step == WriteStep::Locking,
        PumpEvent::FrameWritten => step == WriteStep::Writing,
        PumpEvent::Flushed => step == WriteStep::Flushing,
        PumpEvent::WriteFailed(_) => step != WriteStep::Locking,
        _ => false,
    }
}

/// Between two WebSocket peers a data frame goes to the other peer as it was read, and so does a
/// close frame.
pub proof fn law_frames_cross_unchanged(
    pump: Pump,
    observability: RuntimeObservability,
    frame: FrameModel,
    now: nat,
)
    requires
        pump.phase == PumpPhase::Reading,
        pump.mode == PumpMode::WebSocketToWebSocket,
        frame.opcode == OpCode::Text || frame.opcode == OpCode::Binary || frame.opcode
            == OpCode::Close,
    ensures
        pump.outcome(observability, PumpEventModel::FrameRead(frame), now).action == (
        PumpActionModel::Lock { side: WriterSide::Target, frame }),
{
}

/// A stream backend gets exactly the payload of each data frame, whatever its fragmentation.
pub proof fn law_payload_reaches_stream_unchanged(
    pump: Pump,
    observability: RuntimeObservability,
    frame: FrameModel,
    now: nat,
)
    requires
        pump.phase == PumpPhase::Reading,
        pump.mode == PumpMode::WebSocketToTcp,
        frame.opcode == OpCode::Text || frame.opcode == OpCode::Binary || frame.opcode
            == OpCode::Continuation,
    ensures
        pump.outcome(observability, PumpEventModel::FrameRead(frame), now).action
            == PumpActionModel::WriteStream(frame.payload),
{
}

/// Bytes from a stream backend reach the client as one final binary frame with these bytes.
pub proof fn law_stream_bytes_become_one_frame(
    pump: Pump,
    observability: RuntimeObservability,
    bytes: Seq<u8>,
    now: nat,
)
    requires
        pump.phase == PumpPhase::Reading,
        pump.mode == PumpMode::TcpToWebSocket,
        bytes.len() > 0,
    ensures
        pump.outcome(observability, PumpEventModel::StreamRead(bytes), now).action == (
        PumpActionModel::Lock {
            side: WriterSide::Target,
            frame: FrameModel { fin: true, opcode: OpCode::Binary, payload: bytes },
        }),
{
}

/// Pings and pongs stay between the gateway and the peer that sent them.
pub proof fn law_pings_do_not_cross(
    pump: Pump,
    observability: RuntimeObservability,
    frame: FrameModel,
    now: nat,
)
    requires
        pump.phase == PumpPhase::Reading,
        pump.mode != PumpMode::TcpToWebSocket,
        frame.opcode == OpCode::Ping || frame.opcode == OpCode::Pong,
    ensures
        pump.outcome(observability, PumpEventModel::FrameRead(frame), now).action
            == PumpActionModel::Read,
{
}

/// A pump reports once: exactly when it reports it is finished, and then nothing can occur.
pub proof fn law_report_is_final(
    pump: Pump,
    observability: RuntimeObservability,
    event: PumpEventModel,
    later: PumpEventModel,
    now: nat,
)
    requires
        pump.accepts(event),
    ensures
        ({
            let outcome = pump.outcome(observability, event, now);
            &&& outcome.action is Report <==> outcome.pump.phase == PumpPhase::Finished
            &&& outcome.action is Report ==> !outcome.pump.accepts(later)
        }),
{
}

/// A pump ends as closed by its peer only after the peer's close frame or the end of its stream.
pub proof fn law_peer_closed_needs_a_close(
    pump: Pump,
    observability: RuntimeObservability,
    event: PumpEventModel,
    now: nat,
)
    requires
        pump.accepts(event),
        pump.outcome(observability, event, now).action matches PumpActionModel::Report(report)
            && report.end is PeerClosed,
    ensures
        pump.phase == PumpPhase::ShuttingDown || event == PumpEventModel::StreamRead(
            Seq::<u8>::empty(),
        ) || (pump.phase matches PumpPhase::Forwarding { closing, .. } && closing),
{
    if let PumpEventModel::StreamRead(bytes) = event {
        assert(bytes =~= Seq::<u8>::empty());
    }
}

/// Frames and bytes count as forwarded only when they have reached the other peer.
pub proof fn law_counted_only_when_delivered(
    pump: Pump,
    observability: RuntimeObservability,
    event: PumpEventModel,
    now: nat,
)
    requires
        pump.accepts(event),
        !(event is Flushed) && !(event is StreamWritten),
    ensures
        ({
            let outcome = pump.outcome(observability, event, now);
            let relay = pump.direction.relay();
            &&& outcome.pump.diagnostics.forwarded_frames == pump.diagnostics.forwarded_frames
            &&& outcome.pump.diagnostics.forwarded_bytes == pump.diagnostics.forwarded_bytes
            &&& outcome.observability.counters.of(relay).bytes_total
                == observability.counters.of(relay).bytes_total
            &&& outcome.observability.counters.of(relay).forwarded_frames_total
                == observability.counters.of(relay).forwarded_frames_total
        }),
{
}

/// What a data frame leads to when everything is written: the pump reads again, and the frame is
/// counted once, with its size.
pub proof fn law_delivery(
    pump: Pump,
    observability: RuntimeObservability,
    frame: FrameModel,
    now: nat,
)
    requires
        pump.phase == PumpPhase::Reading,
        pump.mode == PumpMode::WebSocketToWebSocket,
        frame.opcode == OpCode::Text || frame.opcode == OpCode::Binary,
    ensures
        ({
            let o1 = pump.outcome(observability, PumpEventModel::FrameRead(frame), now);
            let o2 = o1.pump.outcome(o1.observability, PumpEventModel::WriterLocked, now);
            let o3 = o2.pump.outcome(o2.observability, PumpEventModel::FrameWritten, now);
            let o4 = o3.pump.outcome(o3.observability, PumpEventModel::Flushed, now);
            &&& o1.pump.accepts(PumpEventModel::WriterLocked)
            &&& o2.pump.accepts(PumpEventModel::FrameWritten)
            &&& o3.pump.accepts(PumpEventModel::Flushed)
            &&& o4.pump.phase == PumpPhase::Reading
            &&& o4.action == PumpActionModel::Read
            &&& o4.observability == observability.after_frame(
                pump.direction.relay(),
                frame.payload.len() as usize,
            )
            &&& pump.diagnostics.enabled ==> o4.pump.diagnostics.forwarded_frames == incremented(
                pump.diagnostics.forwarded_frames,
            )
        }),
{
}

/// A cancelled pump ends: as cancelled while it waits, and by an error while a frame is on its
/// way to the other WebSocket peer.
pub proof fn law_cancellation_ends(
    pump: Pump,
    observability: RuntimeObservability,
    now: nat,
)
    requires
        pump.accepts(PumpEventModel::Cancelled),
    ensures
        pump.outcome(observability, PumpEventModel::Cancelled, now).action matches
            PumpActionModel::Report(report) && report.end == (if pump.phase is Forwarding {
            PumpEndModel::Error("Connection is closed"@)
        } else {
            PumpEndModel::Cancelled
        }),
{
}

/// A close frame between two WebSocket peers, whichever side sent it: it is handed on as it was
/// read, and once it is written and flushed the pump reports that its peer has closed. It counts
/// as a control frame and not as forwarded data.
pub proof fn law_close_frame_ends_as_peer_closed(
    pump: Pump,
    observability: RuntimeObservability,
    frame: FrameModel,
    read_at: nat,
    locked_at: nat,
    written_at: nat,
    flushed_at: nat,
)
    requires
        pump.phase == PumpPhase::Reading,
        pump.mode == PumpMode::WebSocketToWebSocket,
        frame.opcode == OpCode::Close,
    ensures
        ({
            let o1 = pump.outcome(observability, PumpEventModel::FrameRead(frame), read_at);
            let o2 = o1.pump.outcome(o1.observability, PumpEventModel::WriterLocked, locked_at);
            let o3 = o2.pump.outcome(o2.observability, PumpEventModel::FrameWritten, written_at);
            let o4 = o3.pump.outcome(o3.observability, PumpEventModel::Flushed, flushed_at);
            &&& o1.pump.accepts(PumpEventModel::WriterLocked)
            &&& o2.pump.accepts(PumpEventModel::FrameWritten)
            &&& o3.pump.accepts(PumpEventModel::Flushed)
            &&& o1.action == (PumpActionModel::Lock { side: WriterSide::Target, frame })
            &&& o2.action == PumpActionModel::Write
            &&& o3.action == PumpActionModel::Flush
            &&& o4.action matches PumpActionModel::Report(report) && {
                &&& report.end == PumpEndModel::PeerClosed
                &&& report.direction == pump.direction
                &&& pump.diagnostics.enabled ==> report.final_snapshot.stage
                    == RelayStage::PeerClosed
                &&& report.final_snapshot.forwarded_frames == pump.diagnostics.forwarded_frames
                &&& report.final_snapshot.forwarded_bytes == pump.diagnostics.forwarded_bytes
                &&& report.final_snapshot.read_frames == pump.diagnostics.read_frames
            }
            &&& o4.observability == observability.after_control_frame(pump.direction.relay())
        }),
{
}

/// A close frame towards a stream ends the stream, and the end of a stream closes towards the
/// client: either way the pump reports that its peer has closed.
pub proof fn law_stream_relays_end_as_peer_closed(
    pump: Pump,
    observability: RuntimeObservability,
    frame: FrameModel,
    read_at: nat,
    now: nat,
)
    requires
        pump.phase == PumpPhase::Reading,
        frame.opcode == OpCode::Close,
    ensures
        pump.mode == PumpMode::WebSocketToTcp ==> ({
            let o1 = pump.outcome(observability, PumpEventModel::FrameRead(frame), read_at);
            let o2 = o1.pump.outcome(o1.observability, PumpEventModel::StreamShutDown, now);
            &&& o1.action == PumpActionModel::ShutDownStream
            &&& o1.pump.accepts(PumpEventModel::StreamShutDown)
            &&& !o1.pump.accepts(PumpEventModel::Cancelled)
            &&& o2.action matches PumpActionModel::Report(report) && report.end
                == PumpEndModel::PeerClosed && report.direction == pump.direction && (
            pump.diagnostics.enabled ==> report.final_snapshot.stage == RelayStage::PeerClosed)
            &&& o2.observability == observability.after_control_frame(pump.direction.relay())
        }),
        pump.mode == PumpMode::TcpToWebSocket ==> ({
            let o = pump.outcome(observability, PumpEventModel::StreamRead(Seq::empty()), now);
            &&& o.action matches PumpActionModel::Report(report) && report.end
                == PumpEndModel::PeerClosed && report.direction == pump.direction && (
            pump.diagnostics.enabled ==> report.final_snapshot.stage == RelayStage::PeerClosed)
            &&& o.observability == observability
        }),
{
}

/// A pump ends by an error exactly where reading fails, writing to the other peer fails, or it is
/// cancelled while a frame goes to the other peer. It reports the error in its own words, its own
/// direction, and the stage it stood in.
pub proof fn law_errors_are_reported(
    pump: Pump,
    observability: RuntimeObservability,
    event: PumpEventModel,
    now: nat,
)
    requires
        pump.accepts(event),
    ensures
        ({
            let o = pump.outcome(observability, event, now);
            let broken = match event {
                PumpEventModel::ReadFailed(_) => true,
                PumpEventModel::WriteFailed(_) => !(pump.phase is Replying),
                PumpEventModel::Cancelled => pump.phase is Forwarding,
                _ => false,
            };
            &&& (o.action matches PumpActionModel::Report(report) && report.end is Error) <==> broken
            &&& o.action matches PumpActionModel::Report(report) ==> {
                &&& report.direction == pump.direction
                &&& event matches PumpEventModel::ReadFailed(error) ==> report.end
                    == PumpEndModel::Error(error)
                &&& event matches PumpEventModel::WriteFailed(error) ==> report.end
                    == PumpEndModel::Error(error)
                &&& report.end is Error ==> report.final_snapshot.stage == RelayStage::of_code(
                    pump.diagnostics.stage,
                )
                &&& report.end is Error ==> o.observability == observability
            }
        }),
{
}

/// The answer to a control frame goes back to the peer that is owed it, as it was asked for, and
/// then the pump goes on reading, whether the answer could be written or not.
#[verifier::rlimit(40)]
pub proof fn law_replies_go_back_to_the_peer(
    pump: Pump,
    observability: RuntimeObservability,
    frame: FrameModel,
    error: Seq<char>,
    now: nat,
    locked_at: nat,
    written_at: nat,
    done_at: nat,
)
    requires
        pump.phase == PumpPhase::Reading,
        pump.mode != PumpMode::TcpToWebSocket,
    ensures
        ({
            let o1 = pump.outcome(observability, PumpEventModel::ReplyRequested(frame), now);
            let o2 = o1.pump.outcome(o1.observability, PumpEventModel::WriterLocked, locked_at);
            let o3 = o2.pump.outcome(o2.observability, PumpEventModel::FrameWritten, written_at);
            let o4 = o3.pump.outcome(o3.observability, PumpEventModel::Flushed, done_at);
            let unwritten = o2.pump.outcome(
                o2.observability,
                PumpEventModel::WriteFailed(error),
                done_at,
            );
            let unflushed = o3.pump.outcome(
                o3.observability,
                PumpEventModel::WriteFailed(error),
                done_at,
            );
            &&& o1.pump.accepts(PumpEventModel::WriterLocked)
            &&& o2.pump.accepts(PumpEventModel::FrameWritten)
            &&& o2.pump.accepts(PumpEventModel::WriteFailed(error))
            &&& o3.pump.accepts(PumpEventModel::Flushed)
            &&& o3.pump.accepts(PumpEventModel::WriteFailed(error))
            &&& o1.action == (PumpActionModel::Lock { side: WriterSide::Own, frame })
            &&& o2.action == PumpActionModel::Write
            &&& o3.action == PumpActionModel::Flush
            &&& o4.action == PumpActionModel::ResumeRead && o4.pump.phase == PumpPhase::Reading
            &&& unwritten.action == PumpActionModel::ResumeRead && unwritten.pump.phase
                == PumpPhase::Reading
            &&& unflushed.action == PumpActionModel::ResumeRead && unflushed.pump.phase
                == PumpPhase::Reading
            &&& o4.observability == observability.after_control_frame(pump.direction.relay())
            &&& o4.pump.diagnostics.forwarded_frames == pump.diagnostics.forwarded_frames
            &&& o4.pump.diagnostics.read_frames == pump.diagnostics.read_frames
            &&& pump.diagnostics.detailed ==> o4.pump.diagnostics.control_frames == incremented(
                pump.diagnostics.control_frames,
            )
        }),
{
}

/// A frame that is read is recorded once: as data with its size where it carries data, and as a
/// control frame otherwise. The frame itself is on record.
pub proof fn law_frames_are_recorded_as_read(
    pump: Pump,
    observability: RuntimeObservability,
    frame: FrameModel,
    now: nat,
)
    requires
        pump.phase == PumpPhase::Reading,
        pump.mode != PumpMode::TcpToWebSocket,
        pump.diagnostics.enabled && pump.diagnostics.detailed,
        frame.payload.len() <= usize::MAX,
    ensures
        ({
            let o = pump.outcome(observability, PumpEventModel::FrameRead(frame), now);
            let b = pump.diagnostics;
            let a = o.pump.diagnostics;
            let data = frame.opcode == OpCode::Text || frame.opcode == OpCode::Binary || (
            frame.opcode == OpCode::Continuation && pump.mode == PumpMode::WebSocketToTcp);
            &&& data ==> a.read_frames == incremented(b.read_frames) && a.control_frames
                == b.control_frames && o.observability == observability
            &&& data ==> a.read_bytes == (b.read_bytes + frame.payload.len())
                % 0x1_0000_0000_0000_0000
            &&& !data ==> a.read_frames == b.read_frames && a.read_bytes == b.read_bytes
                && a.control_frames == incremented(b.control_frames) && o.observability
                == observability.after_control_frame(pump.direction.relay())
            &&& a.last_frame_opcode == frame.opcode.code()
            &&& a.last_frame_fin == frame.fin
            &&& a.last_frame_payload_bytes == frame.payload.len()
            &&& a.forwarded_frames == b.forwarded_frames && a.forwarded_bytes == b.forwarded_bytes
        }),
{
}

/// Data towards a stream is counted once, with its size, when the stream has taken it, and the
/// pump reads again.
#[verifier::rlimit(40)]
pub proof fn law_delivery_to_a_stream(
    pump: Pump,
    observability: RuntimeObservability,
    frame: FrameModel,
    now: nat,
    later: nat,
)
    requires
        pump.phase == PumpPhase::Reading,
        pump.mode == PumpMode::WebSocketToTcp,
        frame.opcode == OpCode::Text || frame.opcode == OpCode::Binary || frame.opcode
            == OpCode::Continuation,
    ensures
        ({
            let o1 = pump.outcome(observability, PumpEventModel::FrameRead(frame), now);
            let o2 = o1.pump.outcome(o1.observability, PumpEventModel::StreamWritten, later);
            &&& o1.pump.accepts(PumpEventModel::StreamWritten)
            &&& o2.action == PumpActionModel::Read && o2.pump.phase == PumpPhase::Reading
            &&& o2.observability == observability.after_frame(
                pump.direction.relay(),
                frame.payload.len() as usize,
            )
            &&& pump.diagnostics.enabled ==> o2.pump.diagnostics.forwarded_frames == incremented(
                pump.diagnostics.forwarded_frames,
            )
        }),
{
}

/// Bytes from a stream are counted once, with their number, when the client has taken them, and
/// the pump reads again.
#[verifier::rlimit(40)]
pub proof fn law_delivery_from_a_stream(
    pump: Pump,
    observability: RuntimeObservability,
    bytes: Seq<u8>,
    now: nat,
    later: nat,
)
    requires
        pump.phase == PumpPhase::Reading,
        pump.mode == PumpMode::TcpToWebSocket,
        bytes.len() > 0,
    ensures
        ({
            let o1 = pump.outcome(observability, PumpEventModel::StreamRead(bytes), now);
            let o2 = o1.pump.outcome(o1.observability, PumpEventModel::WriterLocked, now);
            let o3 = o2.pump.outcome(o2.observability, PumpEventModel::FrameWritten, now);
            let o4 = o3.pump.outcome(o3.observability, PumpEventModel::Flushed, later);
            &&& o1.pump.accepts(PumpEventModel::WriterLocked)
            &&& o2.pump.accepts(PumpEventModel::FrameWritten)
            &&& o3.pump.accepts(PumpEventModel::Flushed)
            &&& o2.action == PumpActionModel::Write && o3.action == PumpActionModel::Flush
            &&& o4.action == PumpActionModel::Read && o4.pump.phase == PumpPhase::Reading
            &&& o4.observability == observability.after_frame(
                pump.direction.relay(),
                bytes.len() as usize,
            )
            &&& pump.diagnostics.enabled ==> o4.pump.diagnostics.forwarded_frames == incremented(
                pump.diagnostics.forwarded_frames,
            )
        }),
{
}

/// Data between two WebSocket peers takes the same three steps whatever the time of each, and is
/// counted with its own size and in its own direction.
pub proof fn law_websocket_delivery_is_counted(
    pump: Pump,
    observability: RuntimeObservability,
    frame: FrameModel,
    read_at: nat,
    locked_at: nat,
    written_at: nat,
    flushed_at: nat,
)
    requires
        pump.phase == PumpPhase::Reading,
        pump.mode == PumpMode::WebSocketToWebSocket,
        frame.opcode == OpCode::Text || frame.opcode == OpCode::Binary,
        frame.payload.len() <= usize::MAX,
        pump.diagnostics.enabled && pump.diagnostics.detailed,
    ensures
        ({
            let o1 = pump.outcome(observability, PumpEventModel::FrameRead(frame), read_at);
            let o2 = o1.pump.outcome(o1.observability, PumpEventModel::WriterLocked, locked_at);
            let o3 = o2.pump.outcome(o2.observability, PumpEventModel::FrameWritten, written_at);
            let o4 = o3.pump.outcome(o3.observability, PumpEventModel::Flushed, flushed_at);
            let b = pump.diagnostics;
            let a = o4.pump.diagnostics;
            let n = 0x1_0000_0000_0000_0000int;
            &&& o2.action == PumpActionModel::Write && o3.action == PumpActionModel::Flush
            &&& o4.action == PumpActionModel::Read
            &&& a.forwarded_frames == (b.forwarded_frames + 1) % n
            &&& a.forwarded_bytes == (b.forwarded_bytes + frame.payload.len()) % n
            &&& a.read_frames == (b.read_frames + 1) % n
            &&& a.read_bytes == (b.read_bytes + frame.payload.len()) % n
            &&& a.control_frames == b.control_frames
            &&& pump.direction == Direction::ClientToBackend
                ==> o4.observability.counters.backend_to_client
                == observability.counters.backend_to_client
            &&& pump.direction == Direction::BackendToClient
                ==> o4.observability.counters.client_to_backend
                == observability.counters.client_to_backend
            &&& observability.mode != crate::config::observability::ObservabilityMode::Off && (
            pump.direction == Direction::ClientToBackend)
                ==> o4.observability.counters.client_to_backend.bytes_total == (
            observability.counters.client_to_backend.bytes_total + frame.payload.len()) % n
            &&& observability.mode != crate::config::observability::ObservabilityMode::Off && (
            pump.direction == Direction::BackendToClient)
                ==> o4.observability.counters.backend_to_client.bytes_total == (
            observability.counters.backend_to_client.bytes_total + frame.payload.len()) % n
        }),
{
}

/// A pump stays between the same two peers, and where anything is recorded its record shows what
/// it is doing.
#[verifier::rlimit(60)]
#[verifier::spinoff_prover]
pub proof fn law_record_shows_the_phase(
    pump: Pump,
    observability: RuntimeObservability,
    event: PumpEventModel,
    now: nat,
)
    requires
        pump.accepts(event),
    ensures
        ({
            let o = pump.outcome(observability, event, now);
            let stage = RelayStage::of_code(o.pump.diagnostics.stage);
            &&& o.pump.mode == pump.mode && o.pump.direction == pump.direction
            &&& o.pump.diagnostics.enabled == pump.diagnostics.enabled
            &&& o.pump.diagnostics.detailed == pump.diagnostics.detailed
            &&& o.pump.diagnostics.started == pump.diagnostics.started
            &&& pump.diagnostics.enabled ==> match (o.pump.phase, o.action) {
                (PumpPhase::Reading, PumpActionModel::ResumeRead) => o.pump.diagnostics
                    == pump.diagnostics,
                (PumpPhase::Reading, action) => action is Read && stage == RelayStage::AwaitingRead,
                (PumpPhase::Replying { step: WriteStep::Locking }, _) => stage
                    == RelayStage::WaitingWriterLock,
                (PumpPhase::Replying { step: WriteStep::Writing }, _) => stage
                    == RelayStage::WritingControlFrame,
                (PumpPhase::Replying { step: WriteStep::Flushing }, _) => stage
                    == RelayStage::FlushingFrame,
                (PumpPhase::Forwarding { step: WriteStep::Locking, .. }, _) => stage
                    == RelayStage::WaitingWriterLock,
                (PumpPhase::Forwarding { step: WriteStep::Writing, closing, .. }, _) => stage == (
                if closing {
                    RelayStage::WritingControlFrame
                } else {
                    RelayStage::WritingDataFrame
                }),
                (PumpPhase::Forwarding { step: WriteStep::Flushing, .. }, _) => stage
                    == RelayStage::FlushingFrame,
                (PumpPhase::Streaming { .. }, _) => stage == RelayStage::WritingStreamBytes,
                (PumpPhase::ShuttingDown, _) => stage == RelayStage::of_code(
                    pump.diagnostics.stage,
                ),
                (PumpPhase::Finished, PumpActionModel::Report(report)) => match report.end {
                    PumpEndModel::PeerClosed => stage == RelayStage::PeerClosed
                        && report.final_snapshot.stage == stage,
                    PumpEndModel::Cancelled => stage == RelayStage::Cancelled
                        && report.final_snapshot.stage == stage,
                    PumpEndModel::Error(_) => stage == RelayStage::Ended,
                },
                _ => false,
            }
        }),
{
    match pump.phase {
        PumpPhase::Reading => match event {
            PumpEventModel::FrameRead(frame) => {},
            PumpEventModel::StreamRead(bytes) => {},
            _ => {},
        },
        PumpPhase::Replying { step } => {},
        PumpPhase::Forwarding { step, closing, payload_bytes } => {},
        _ => {},
    }
}

/// Which events a pump takes: a reader of frames takes any frame and any reply that is owed, a
/// reader of a stream any bytes; a frame is locked, written and flushed in this order; and only a
/// pump that ends a stream, or is done, cannot be cancelled.
pub proof fn law_pumps_take_events_in_order(
    pump: Pump,
    frame: FrameModel,
    bytes: Seq<u8>,
    error: Seq<char>,
)
    ensures
        ({
            let frames = pump.mode != PumpMode::TcpToWebSocket;
            let at = |step: WriteStep| match pump.phase {
                PumpPhase::Replying { step: now } => now == step,
                PumpPhase::Forwarding { step: now, .. } => now == step,
                _ => false,
            };
            &&& pump.accepts(PumpEventModel::FrameRead(frame)) <==> pump.phase is Reading && frames
            &&& pump.accepts(PumpEventModel::ReplyRequested(frame)) <==> pump.phase is Reading
                && frames
            &&& pump.accepts(PumpEventModel::StreamRead(bytes)) <==> pump.phase is Reading
                && !frames
            &&& pump.accepts(PumpEventModel::ReadFailed(error)) <==> pump.phase is Reading
            &&& pump.accepts(PumpEventModel::WriterLocked) <==> at(WriteStep::Locking)
            &&& pump.accepts(PumpEventModel::FrameWritten) <==> at(WriteStep::Writing)
            &&& pump.accepts(PumpEventModel::Flushed) <==> at(WriteStep::Flushing)
            &&& pump.accepts(PumpEventModel::StreamWritten) <==> pump.phase is Streaming
            &&& pump.accepts(PumpEventModel::WriteFailed(error)) <==> at(WriteStep::Writing) || at(
                WriteStep::Flushing,
            ) || pump.phase is Streaming
            &&& pump.accepts(PumpEventModel::StreamShutDown) <==> pump.phase is ShuttingDown
            &&& pump.accepts(PumpEventModel::Cancelled) <==> !(pump.phase is ShuttingDown)
                && !(pump.phase is Finished)
        }),
{
}

/// A continuation frame between two WebSocket peers, which the reader has joined to its message,
/// carries nothing of its own: nothing is written, and the pump reads on.
pub proof fn law_only_data_and_close_frames_cross(
    pump: Pump,
    observability: RuntimeObservability,
    frame: FrameModel,
    now: nat,
)
    requires
        pump.phase == PumpPhase::Reading,
        pump.mode == PumpMode::WebSocketToWebSocket,
    ensures
        ({
            let action = pump.outcome(observability, PumpEventModel::FrameRead(frame), now).action;
            &&& action is Lock <==> (frame.opcode == OpCode::Text || frame.opcode == OpCode::Binary
                || frame.opcode == OpCode::Close)
            &&& !(action is Lock) ==> action is Read
        }),
{
}

/// The names of the two directions and of the reasons of a relay's end tell them apart.
pub proof fn law_names_are_distinct(a: CloseReason, b: CloseReason)
    ensures
        a.name() == b.name() ==> a == b,
        a.class() == b.class() ==> a == b,
        Direction::ClientToBackend.name() != Direction::BackendToClient.name(),
        Direction::ClientToBackend.relay() == RelayDirection::ClientToBackend,
        Direction::BackendToClient.relay() == RelayDirection::BackendToClient,
        CloseReason::ClientClosed.class() == WebSocketCloseClass::ClientClosed,
        CloseReason::BackendClosed.class() == WebSocketCloseClass::BackendClosed,
        CloseReason::GatewayShutdown.class() == WebSocketCloseClass::GatewayShutdown,
        a.class() == WebSocketCloseClass::RelayError || a.class()
            == WebSocketCloseClass::InternalError <==> a == CloseReason::RelayError || a
            == CloseReason::InternalError,
{
    reveal_strlit("client_closed");
    reveal_strlit("backend_closed");
    reveal_strlit("gateway_shutdown");
    reveal_strlit("relay_error");
    reveal_strlit("internal_error");
    reveal_strlit("client_to_backend");
    reveal_strlit("backend_to_client");
    assert("client_closed"@[0] == 'c' && "backend_closed"@[0] == 'b' && "gateway_shutdown"@[0]
        == 'g' && "relay_error"@[0] == 'r' && "internal_error"@[0] == 'i');
    assert("client_to_backend"@[0] == 'c' && "backend_to_client"@[0] == 'b');
}

/// The end of the first pump to end is laid to the peer that it reads from where that peer closed,
/// and to the relay where it failed.
pub proof fn law_ends_are_laid_to_their_peer(report: PumpReportModel)
    ensures
        report.reason() is ClientClosed <==> report.end is PeerClosed && report.direction
            is ClientToBackend,
        report.reason() is BackendClosed <==> report.end is PeerClosed && report.direction
            is BackendToClient,
        report.reason() is RelayError <==> report.end is Error,
        report.reason() is InternalError <==> report.end is Cancelled,
        report.is_error() <==> report.end is Error,
{
}

/// How the reason for the end of a relay is named on record.
pub proof fn law_reasons_are_named(reason: CloseReason)
    ensures
        match reason {
            CloseReason::ClientClosed => reason.name() == "client_closed"@,
            CloseReason::BackendClosed => reason.name() == "backend_closed"@,
            CloseReason::GatewayShutdown => reason.name() == "gateway_shutdown"@,
            CloseReason::RelayError => reason.name() == "relay_error"@,
            CloseReason::InternalError => reason.name() == "internal_error"@,
        },
{
}

} // verus!
