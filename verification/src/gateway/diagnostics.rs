//! What one direction of a relay has seen, and where it stands.

use vstd::prelude::*;

use crate::observability::{added, incremented, larger};
use crate::time::{millis_u64, saturated_millis, Duration};

verus! {

/// The kinds of WebSocket frames.
#[derive(Clone, Copy, Debug, PartialEq, Eq, Structural)]
pub enum OpCode {
    Continuation,
    Text,
    Binary,
    Close,
    Ping,
    Pong,
}

impl OpCode {
    /// The number that stands for the kind in a frame's header.
    pub open spec fn code(self) -> u8 {
        match self {
            OpCode::Continuation => 0x0,
            OpCode::Text => 0x1,
            OpCode::Binary => 0x2,
            OpCode::Close => 0x8,
            OpCode::Ping => 0x9,
            OpCode::Pong => 0xA,
        }
    }

    pub fn as_u8(self) -> (r: u8)
        ensures
            r == self.code(),
    {
        match self {
            OpCode::Continuation => 0x0,
            OpCode::Text => 0x1,
            OpCode::Binary => 0x2,
            OpCode::Close => 0x8,
            OpCode::Ping => 0x9,
            OpCode::Pong => 0xA,
        }
    }
}

pub open spec fn opcode_text(opcode: u8) -> Seq<char> {
    if opcode == 0x0 {
        "continuation"@
    } else if opcode == 0x1 {
        "text"@
    } else if opcode == 0x2 {
        "binary"@
    } else if opcode == 0x8 {
        "close"@
    } else if opcode == 0x9 {
        "ping"@
    } else if opcode == 0xA {
        "pong"@
    } else {
        "none"@
    }
}

pub fn opcode_name(opcode: u8) -> (r: &'static str)
    ensures
        r@ == opcode_text(opcode),
{
    match opcode {
        0x0 => "continuation",
        0x1 => "text",
        0x2 => "binary",
        0x8 => "close",
        0x9 => "ping",
        0xA => "pong",
        _ => "none",
    }
}

/// Where one direction of a relay stands.
#[derive(Clone, Copy, Debug, PartialEq, Eq, Structural)]
pub enum RelayStage {
    AwaitingRead,
    WaitingWriterLock,
    WritingDataFrame,
    WritingControlFrame,
    WritingStreamBytes,
    FlushingFrame,
    PeerClosed,
    Cancelled,
    Ended,
}

impl RelayStage {
    /// The number under which the stage is kept.
    pub open spec fn code(self) -> u8 {
        match self {
            RelayStage::AwaitingRead => 0,
            RelayStage::WaitingWriterLock => 1,
            RelayStage::WritingDataFrame => 2,
            RelayStage::WritingControlFrame => 3,
            RelayStage::WritingStreamBytes => 4,
            RelayStage::FlushingFrame => 5,
            RelayStage::PeerClosed => 6,
            RelayStage::Cancelled => 7,
            RelayStage::Ended => 8,
        }
    }

    /// The stage that a number stands for; numbers past the last stage stand for the last.
    pub open spec fn of_code(value: u8) -> RelayStage {
        if value == 0 {
            RelayStage::AwaitingRead
        } else if value == 1 {
            RelayStage::WaitingWriterLock
        } else if value == 2 {
            RelayStage::WritingDataFrame
        } else if value == 3 {
            RelayStage::WritingControlFrame
        } else if value == 4 {
            RelayStage::WritingStreamBytes
        } else if value == 5 {
            RelayStage::FlushingFrame
        } else if value == 6 {
            RelayStage::PeerClosed
        } else if value == 7 {
            RelayStage::Cancelled
        } else {
            RelayStage::Ended
        }
    }

    pub fn as_u8(self) -> (r: u8)
        ensures
            r == self.code(),
    {
        match self {
            RelayStage::AwaitingRead => 0,
            RelayStage::WaitingWriterLock => 1,
            RelayStage::WritingDataFrame => 2,
            RelayStage::WritingControlFrame => 3,
            RelayStage::WritingStreamBytes => 4,
            RelayStage::FlushingFrame => 5,
            RelayStage::PeerClosed => 6,
            RelayStage::Cancelled => 7,
            RelayStage::Ended => 8,
        }
    }

    pub fn from_u8(value: u8) -> (r: RelayStage)
        ensures
            r == RelayStage::of_code(value),
    {
        match value {
            0 => RelayStage::AwaitingRead,
            1 => RelayStage::WaitingWriterLock,
            2 => RelayStage::WritingDataFrame,
            3 => RelayStage::WritingControlFrame,
            4 => RelayStage::WritingStreamBytes,
            5 => RelayStage::FlushingFrame,
            6 => RelayStage::PeerClosed,
            7 => RelayStage::Cancelled,
            _ => RelayStage::Ended,
        }
    }

    pub open spec fn name(self) -> Seq<char> {
        match self {
            RelayStage::AwaitingRead => "awaiting_read"@,
            RelayStage::WaitingWriterLock => "waiting_writer_lock"@,
            RelayStage::WritingDataFrame => "writing_data_frame"@,
            RelayStage::WritingControlFrame => "writing_control_frame"@,
            RelayStage::WritingStreamBytes => "writing_stream_bytes"@,
            RelayStage::FlushingFrame => "flushing_frame"@,
            RelayStage::PeerClosed => "peer_closed"@,
            RelayStage::Cancelled => "cancelled"@,
            RelayStage::Ended => "ended"@,
        }
    }

    pub fn as_str(self) -> (r: &'static str)
        ensures
            r@ == self.name(),
    {
        match self {
            RelayStage::AwaitingRead => "awaiting_read",
            RelayStage::WaitingWriterLock => "waiting_writer_lock",
            RelayStage::WritingDataFrame => "writing_data_frame",
            RelayStage::WritingControlFrame => "writing_control_frame",
            RelayStage::WritingStreamBytes => "writing_stream_bytes",
            RelayStage::FlushingFrame => "flushing_frame",
            RelayStage::PeerClosed => "peer_closed",
            RelayStage::Cancelled => "cancelled",
            RelayStage::Ended => "ended",
        }
    }

    /// Nothing to do until the peer sends.
    pub open spec fn waits_for_input(self) -> bool {
        self == RelayStage::AwaitingRead
    }

    /// Something read is on its way to the other peer.
    pub open spec fn writes(self) -> bool {
        self == RelayStage::WaitingWriterLock || self == RelayStage::WritingDataFrame || self
            == RelayStage::WritingControlFrame || self == RelayStage::WritingStreamBytes || self
            == RelayStage::FlushingFrame
    }

    pub fn is_waiting_for_input(self) -> (r: bool)
        ensures
            r == self.waits_for_input(),
    {
        self == RelayStage::AwaitingRead
    }

    pub fn is_write_path(self) -> (r: bool)
        ensures
            r == self.writes(),
    {
        match self {
            RelayStage::WaitingWriterLock
            | RelayStage::WritingDataFrame
            | RelayStage::WritingControlFrame
            | RelayStage::WritingStreamBytes
            | RelayStage::FlushingFrame => true,
            _ => false,
        }
    }
}

/// A stage is found again from the number it is kept under.
pub proof fn law_stage_round_trip(stage: RelayStage)
    ensures
        RelayStage::of_code(stage.code()) == stage,
{
}

/// No stage both waits for input and writes.
pub proof fn law_waiting_is_not_writing(stage: RelayStage)
    ensures
        !(stage.waits_for_input() && stage.writes()),
{
}

/// The record of one direction of a relay.
#[derive(Clone, Copy, Debug)]
pub struct DirectionDiagnostics {
    pub started: Duration,
    pub enabled: bool,
    pub detailed: bool,
    pub stage: u8,
    pub read_frames: u64,
    pub forwarded_frames: u64,
    pub read_bytes: u64,
    pub forwarded_bytes: u64,
    pub small_frames: u64,
    pub control_frames: u64,
    pub minimum_frame_bytes: u64,
    pub maximum_frame_bytes: u64,
    pub last_frame_elapsed_ms: u64,
    pub last_read_elapsed_ms: u64,
    pub last_write_elapsed_ms: u64,
    pub last_activity_elapsed_ms: u64,
    pub max_inter_frame_gap_ms: u64,
    pub last_frame_opcode: u8,
    pub last_frame_fin: bool,
    pub last_frame_payload_bytes: u64,
}

/// The record of one direction at one moment.
pub struct DirectionSnapshot {
    pub stage: RelayStage,
    pub read_frames: u64,
    pub forwarded_frames: u64,
    pub read_bytes: u64,
    pub forwarded_bytes: u64,
    pub small_frames: u64,
    pub control_frames: u64,
    pub minimum_frame_bytes: Option<u64>,
    pub maximum_frame_bytes: u64,
    pub max_inter_frame_gap_ms: u64,
    pub last_activity_idle_ms: u64,
    pub last_read_idle_ms: u64,
    pub last_write_idle_ms: u64,
    pub last_frame_opcode: &'static str,
    pub last_frame_fin: bool,
    pub last_frame_payload_bytes: u64,
}

pub struct SnapshotModel {
    pub stage: RelayStage,
    pub read_frames: u64,
    pub forwarded_frames: u64,
    pub read_bytes: u64,
    pub forwarded_bytes: u64,
    pub small_frames: u64,
    pub control_frames: u64,
    pub minimum_frame_bytes: Option<u64>,
    pub maximum_frame_bytes: u64,
    pub max_inter_frame_gap_ms: u64,
    pub last_activity_idle_ms: u64,
    pub last_read_idle_ms: u64,
    pub last_write_idle_ms: u64,
    pub last_frame_opcode: Seq<char>,
    pub last_frame_fin: bool,
    pub last_frame_payload_bytes: u64,
}

impl View for DirectionSnapshot {
    type V = SnapshotModel;

    open spec fn view(&self) -> SnapshotModel {
        SnapshotModel {
            stage: self.stage,
            read_frames: self.read_frames,
            forwarded_frames: self.forwarded_frames,
            read_bytes: self.read_bytes,
            forwarded_bytes: self.forwarded_bytes,
            small_frames: self.small_frames,
            control_frames: self.control_frames,
            minimum_frame_bytes: self.minimum_frame_bytes,
            maximum_frame_bytes: self.maximum_frame_bytes,
            max_inter_frame_gap_ms: self.max_inter_frame_gap_ms,
            last_activity_idle_ms: self.last_activity_idle_ms,
            last_read_idle_ms: self.last_read_idle_ms,
            last_write_idle_ms: self.last_write_idle_ms,
            last_frame_opcode: self.last_frame_opcode@,
            last_frame_fin: self.last_frame_fin,
            last_frame_payload_bytes: self.last_frame_payload_bytes,
        }
    }
}

pub open spec fn smaller(a: u64, b: u64) -> u64 {
    if b < a {
        b
    } else {
        a
    }
}

pub open spec fn difference(a: u64, b: u64) -> u64 {
    if a < b {
        0
    } else {
        (a - b) as u64
    }
}

impl DirectionDiagnostics {
    /// The milliseconds from the start to `now`.
    pub open spec fn elapsed(self, now: nat) -> u64 {
        saturated_millis(
            if self.started@ <= now {
                (now - self.started@) as nat
            } else {
                0
            },
        ) as u64
    }

    pub open spec fn at_stage(self, stage: RelayStage) -> DirectionDiagnostics {
        if self.enabled {
            DirectionDiagnostics { stage: stage.code(), ..self }
        } else {
            self
        }
    }

    pub open spec fn with_last_frame(
        self,
        opcode: OpCode,
        fin: bool,
        payload_bytes: u64,
    ) -> DirectionDiagnostics {
        DirectionDiagnostics {
            last_frame_opcode: opcode.code(),
            last_frame_fin: fin,
            last_frame_payload_bytes: payload_bytes,
            ..self
        }
    }

    /// What a data frame that was read changes.
    pub open spec fn after_read(
        self,
        opcode: OpCode,
        fin: bool,
        payload_bytes: usize,
        now: nat,
    ) -> DirectionDiagnostics {
        let bytes = payload_bytes as u64;
        let at = self.elapsed(now);
        if self.enabled && self.detailed {
            DirectionDiagnostics {
                last_frame_elapsed_ms: at,
                max_inter_frame_gap_ms: if self.last_frame_elapsed_ms > 0 {
                    larger(self.max_inter_frame_gap_ms, difference(at, self.last_frame_elapsed_ms))
                } else {
                    self.max_inter_frame_gap_ms
                },
                last_activity_elapsed_ms: at,
                last_read_elapsed_ms: at,
                read_frames: incremented(self.read_frames),
                read_bytes: added(self.read_bytes, bytes),
                small_frames: if bytes <= 1024 {
                    incremented(self.small_frames)
                } else {
                    self.small_frames
                },
                minimum_frame_bytes: smaller(self.minimum_frame_bytes, bytes),
                maximum_frame_bytes: larger(self.maximum_frame_bytes, bytes),
                ..self.with_last_frame(opcode, fin, bytes)
            }
        } else {
            self
        }
    }

    /// What a frame that reached the other peer changes.
    pub open spec fn after_forwarded(
        self,
        payload_bytes: usize,
        now: nat,
    ) -> DirectionDiagnostics {
        let at = self.elapsed(now);
        if self.enabled && self.detailed {
            DirectionDiagnostics {
                forwarded_frames: incremented(self.forwarded_frames),
                forwarded_bytes: added(self.forwarded_bytes, payload_bytes as u64),
                last_activity_elapsed_ms: at,
                last_write_elapsed_ms: at,
                ..self.at_stage(RelayStage::AwaitingRead)
            }
        } else if self.enabled {
            DirectionDiagnostics {
                forwarded_frames: incremented(self.forwarded_frames),
                ..self.at_stage(RelayStage::AwaitingRead)
            }
        } else {
            self
        }
    }

    /// What a control frame changes.
    pub open spec fn after_control_frame(
        self,
        opcode: OpCode,
        fin: bool,
        payload_bytes: usize,
        now: nat,
    ) -> DirectionDiagnostics {
        let at = self.elapsed(now);
        if self.detailed {
            DirectionDiagnostics {
                control_frames: incremented(self.control_frames),
                last_activity_elapsed_ms: at,
                last_read_elapsed_ms: at,
                ..self.with_last_frame(opcode, fin, payload_bytes as u64)
            }
        } else {
            self
        }
    }

    pub open spec fn snapshot_at(self, now: nat) -> SnapshotModel {
        let at = self.elapsed(now);
        SnapshotModel {
            stage: RelayStage::of_code(self.stage),
            read_frames: self.read_frames,
            forwarded_frames: self.forwarded_frames,
            read_bytes: self.read_bytes,
            forwarded_bytes: self.forwarded_bytes,
            small_frames: self.small_frames,
            control_frames: self.control_frames,
            minimum_frame_bytes: if self.minimum_frame_bytes != u64::MAX {
                Some(self.minimum_frame_bytes)
            } else {
                None
            },
            maximum_frame_bytes: self.maximum_frame_bytes,
            max_inter_frame_gap_ms: self.max_inter_frame_gap_ms,
            last_activity_idle_ms: difference(at, self.last_activity_elapsed_ms),
            last_read_idle_ms: difference(at, self.last_read_elapsed_ms),
            last_write_idle_ms: difference(at, self.last_write_elapsed_ms),
            last_frame_opcode: opcode_text(self.last_frame_opcode),
            last_frame_fin: self.last_frame_fin,
            last_frame_payload_bytes: self.last_frame_payload_bytes,
        }
    }

    /// An empty record.
    pub open spec fn fresh(
        started: Duration,
        enabled: bool,
        detailed: bool,
    ) -> DirectionDiagnostics {
        DirectionDiagnostics {
            started,
            enabled,
            detailed,
            stage: RelayStage::AwaitingRead.code(),
            read_frames: 0,
            forwarded_frames: 0,
            read_bytes: 0,
            forwarded_bytes: 0,
            small_frames: 0,
            control_frames: 0,
            minimum_frame_bytes: u64::MAX,
            maximum_frame_bytes: 0,
            last_frame_elapsed_ms: 0,
            last_read_elapsed_ms: 0,
            last_write_elapsed_ms: 0,
            last_activity_elapsed_ms: 0,
            max_inter_frame_gap_ms: 0,
            last_frame_opcode: u8::MAX,
            last_frame_fin: false,
            last_frame_payload_bytes: 0,
        }
    }

    /// An empty record. The flags say whether anything is recorded, and whether in detail.
    pub fn new(started: Duration, enabled: bool, detailed: bool) -> (r: DirectionDiagnostics)
        ensures
            r == DirectionDiagnostics::fresh(started, enabled, detailed),
    {
        DirectionDiagnostics {
            started,
            enabled,
            detailed,
            stage: RelayStage::AwaitingRead.as_u8(),
            read_frames: 0,
            forwarded_frames: 0,
            read_bytes: 0,
            forwarded_bytes: 0,
            small_frames: 0,
            control_frames: 0,
            minimum_frame_bytes: u64::MAX,
            maximum_frame_bytes: 0,
            last_frame_elapsed_ms: 0,
            last_read_elapsed_ms: 0,
            last_write_elapsed_ms: 0,
            last_activity_elapsed_ms: 0,
            max_inter_frame_gap_ms: 0,
            last_frame_opcode: u8::MAX,
            last_frame_fin: false,
            last_frame_payload_bytes: 0,
        }
    }

    pub fn set_stage(&mut self, stage: RelayStage)
        ensures
            *final(self) == old(self).at_stage(stage),
    {
        if !self.enabled {
            return;
        }
        self.stage = stage.as_u8();
    }

    pub fn record_read(&mut self, opcode: OpCode, fin: bool, payload_bytes: usize, now: &Duration)
        ensures
            *final(self) == old(self).after_read(opcode, fin, payload_bytes, now@),
    {
        if !self.enabled {
            return;
        }
        if !self.detailed {
            return;
        }
        let bytes: u64 = payload_bytes as u64;
        let at: u64 = self.elapsed_millis(now);
        let previous: u64 = self.last_frame_elapsed_ms;
        self.last_frame_elapsed_ms = at;
        if previous > 0 {
            let gap: u64 = at.saturating_sub(previous);
            if self.max_inter_frame_gap_ms < gap {
                self.max_inter_frame_gap_ms = gap;
            }
        }
        self.last_activity_elapsed_ms = at;
        self.last_read_elapsed_ms = at;
        self.record_last_frame(opcode, fin, bytes);
        self.read_frames = self.read_frames.wrapping_add(1);
        self.read_bytes = self.read_bytes.wrapping_add(bytes);
        if bytes <= 1024 {
            self.small_frames = self.small_frames.wrapping_add(1);
        }
        if bytes < self.minimum_frame_bytes {
            self.minimum_frame_bytes = bytes;
        }
        if self.maximum_frame_bytes < bytes {
            self.maximum_frame_bytes = bytes;
        }
    }

    pub fn record_forwarded(&mut self, payload_bytes: usize, now: &Duration)
        ensures
            *final(self) == old(self).after_forwarded(payload_bytes, now@),
    {
        if !self.enabled {
            return;
        }
        self.forwarded_frames = self.forwarded_frames.wrapping_add(1);
        if !self.detailed {
            self.set_stage(RelayStage::AwaitingRead);
            return;
        }
        let at: u64 = self.elapsed_millis(now);
        self.forwarded_bytes = self.forwarded_bytes.wrapping_add(payload_bytes as u64);
        self.last_activity_elapsed_ms = at;
        self.last_write_elapsed_ms = at;
        self.set_stage(RelayStage::AwaitingRead);
    }

    pub fn record_control_frame(
        &mut self,
        opcode: OpCode,
        fin: bool,
        payload_bytes: usize,
        now: &Duration,
    )
        ensures
            *final(self) == old(self).after_control_frame(opcode, fin, payload_bytes, now@),
    {
        if !self.detailed {
            return;
        }
        let at: u64 = self.elapsed_millis(now);
        self.control_frames = self.control_frames.wrapping_add(1);
        self.last_activity_elapsed_ms = at;
        self.last_read_elapsed_ms = at;
        self.record_last_frame(opcode, fin, payload_bytes as u64);
    }

    pub fn record_last_frame(&mut self, opcode: OpCode, fin: bool, payload_bytes: u64)
        ensures
            *final(self) == old(self).with_last_frame(opcode, fin, payload_bytes),
    {
        self.last_frame_opcode = opcode.as_u8();
        self.last_frame_fin = fin;
        self.last_frame_payload_bytes = payload_bytes;
    }

    /// Ends the record at `stage`.
    pub fn finish(&mut self, stage: RelayStage, now: &Duration) -> (r: DirectionSnapshot)
        ensures
            *final(self) == old(self).at_stage(stage),
            r@ == old(self).at_stage(stage).snapshot_at(now@),
    {
        self.set_stage(stage);
        self.snapshot(now)
    }

    /// Ends the record; the snapshot still shows the stage that it ended in.
    pub fn finish_current_stage(&mut self, now: &Duration) -> (r: DirectionSnapshot)
        ensures
            *final(self) == old(self).at_stage(RelayStage::Ended),
            r@ == old(self).snapshot_at(now@),
    {
        let snapshot = self.snapshot(now);
        self.set_stage(RelayStage::Ended);
        snapshot
    }

    pub fn snapshot(&self, now: &Duration) -> (r: DirectionSnapshot)
        ensures
            r@ == self.snapshot_at(now@),
    {
        let elapsed_ms: u64 = self.elapsed_millis(now);
        let minimum: u64 = self.minimum_frame_bytes;
        DirectionSnapshot {
            stage: RelayStage::from_u8(self.stage),
            read_frames: self.read_frames,
            forwarded_frames: self.forwarded_frames,
            read_bytes: self.read_bytes,
            forwarded_bytes: self.forwarded_bytes,
            small_frames: self.small_frames,
            control_frames: self.control_frames,
            minimum_frame_bytes: if minimum != u64::MAX {
                Some(minimum)
            } else {
                None
            },
            maximum_frame_bytes: self.maximum_frame_bytes,
            max_inter_frame_gap_ms: self.max_inter_frame_gap_ms,
            last_activity_idle_ms: elapsed_ms.saturating_sub(self.last_activity_elapsed_ms),
            last_read_idle_ms: elapsed_ms.saturating_sub(self.last_read_elapsed_ms),
            last_write_idle_ms: elapsed_ms.saturating_sub(self.last_write_elapsed_ms),
            last_frame_opcode: opcode_name(self.last_frame_opcode),
            last_frame_fin: self.last_frame_fin,
            last_frame_payload_bytes: self.last_frame_payload_bytes,
        }
    }

    pub fn elapsed_millis(&self, now: &Duration) -> (r: u64)
        ensures
            r == self.elapsed(now@),
    {
        millis_u64(&now.saturating_sub(&self.started))
    }
}

/// Where nothing is recorded, nothing that is read or forwarded changes the record.
pub proof fn law_disabled_records_nothing(
    d: DirectionDiagnostics,
    stage: RelayStage,
    opcode: OpCode,
    fin: bool,
    bytes: usize,
    now: nat,
)
    requires
        !d.enabled,
    ensures
        d.at_stage(stage) == d,
        d.after_read(opcode, fin, bytes, now) == d,
        d.after_forwarded(bytes, now) == d,
{
}

/// Every frame that was read in detail lies between the smallest and the largest recorded size.
pub proof fn law_sizes_are_bounds(d: DirectionDiagnostics, opcode: OpCode, fin: bool, bytes: usize, now: nat)
    requires
        d.enabled && d.detailed,
    ensures
        ({
            let after = d.after_read(opcode, fin, bytes, now);
            &&& after.minimum_frame_bytes <= bytes <= after.maximum_frame_bytes
            &&& after.minimum_frame_bytes <= d.minimum_frame_bytes
            &&& d.maximum_frame_bytes <= after.maximum_frame_bytes
        }),
{
}

/// A data frame that is read in detail is the last frame, adds one frame and its size to what was
/// read, and changes neither what was forwarded nor the stage; otherwise it leaves no trace.
pub proof fn law_reads_are_recorded(
    d: DirectionDiagnostics,
    opcode: OpCode,
    fin: bool,
    bytes: usize,
    now: nat,
)
    ensures
        ({
            let after = d.after_read(opcode, fin, bytes, now);
            let n = 0x1_0000_0000_0000_0000int;
            &&& !(d.enabled && d.detailed) ==> after == d
            &&& d.enabled && d.detailed ==> {
                &&& after.read_frames == (d.read_frames + 1) % n
                &&& after.read_bytes == (d.read_bytes + bytes) % n
                &&& after.small_frames != d.small_frames <==> bytes <= 1024
                &&& after.minimum_frame_bytes == d.minimum_frame_bytes || after.minimum_frame_bytes
                    == bytes
                &&& after.maximum_frame_bytes == d.maximum_frame_bytes || after.maximum_frame_bytes
                    == bytes
                &&& opcode_text(after.last_frame_opcode) == opcode_text(opcode.code())
                &&& after.last_frame_fin == fin
                &&& after.last_frame_payload_bytes == bytes
                &&& after.last_read_elapsed_ms == after.last_activity_elapsed_ms
                &&& after.last_frame_elapsed_ms == after.last_activity_elapsed_ms
                &&& after.snapshot_at(now).last_read_idle_ms == 0
                &&& after.snapshot_at(now).last_activity_idle_ms == 0
                &&& after.max_inter_frame_gap_ms >= d.max_inter_frame_gap_ms
            }
            &&& after.forwarded_frames == d.forwarded_frames
            &&& after.forwarded_bytes == d.forwarded_bytes
            &&& after.control_frames == d.control_frames
            &&& after.last_write_elapsed_ms == d.last_write_elapsed_ms
            &&& after.stage == d.stage && after.started == d.started
            &&& after.enabled == d.enabled && after.detailed == d.detailed
        }),
{
}

/// A frame that reached the other peer adds one frame to what was forwarded and, in detail, its
/// size; the direction waits for input again, and what was read stays as it was.
pub proof fn law_deliveries_are_recorded(d: DirectionDiagnostics, bytes: usize, now: nat)
    ensures
        ({
            let after = d.after_forwarded(bytes, now);
            let n = 0x1_0000_0000_0000_0000int;
            &&& d.enabled ==> after.forwarded_frames == (d.forwarded_frames + 1) % n
            &&& d.enabled ==> after.snapshot_at(now).stage == RelayStage::AwaitingRead
            &&& d.enabled && d.detailed ==> after.forwarded_bytes == (d.forwarded_bytes + bytes) % n
            &&& d.enabled && d.detailed ==> after.snapshot_at(now).last_write_idle_ms == 0
                && after.snapshot_at(now).last_activity_idle_ms == 0
            &&& !d.detailed ==> after.forwarded_bytes == d.forwarded_bytes
            &&& after == (DirectionDiagnostics {
                forwarded_frames: after.forwarded_frames,
                forwarded_bytes: after.forwarded_bytes,
                last_activity_elapsed_ms: after.last_activity_elapsed_ms,
                last_write_elapsed_ms: after.last_write_elapsed_ms,
                stage: after.stage,
                ..d
            })
        }),
{
}

/// A control frame in detail is the last frame and counts as a control frame, not as one that was
/// read or forwarded; without detail it leaves no trace.
pub proof fn law_control_frames_are_recorded(
    d: DirectionDiagnostics,
    opcode: OpCode,
    fin: bool,
    bytes: usize,
    now: nat,
)
    ensures
        ({
            let after = d.after_control_frame(opcode, fin, bytes, now);
            &&& !d.detailed ==> after == d
            &&& d.detailed ==> {
                &&& after.control_frames == (d.control_frames + 1) % 0x1_0000_0000_0000_0000
                &&& after.last_frame_opcode == opcode.code()
                &&& after.last_frame_fin == fin
                &&& after.last_frame_payload_bytes == bytes
                &&& after.snapshot_at(now).last_read_idle_ms == 0
                &&& after.snapshot_at(now).last_activity_idle_ms == 0
            }
            &&& after == (DirectionDiagnostics {
                control_frames: after.control_frames,
                last_activity_elapsed_ms: after.last_activity_elapsed_ms,
                last_read_elapsed_ms: after.last_read_elapsed_ms,
                last_frame_opcode: after.last_frame_opcode,
                last_frame_fin: after.last_frame_fin,
                last_frame_payload_bytes: after.last_frame_payload_bytes,
                ..d
            })
        }),
{
}

/// Entering a stage is all that changes, and where anything is recorded a snapshot shows it.
pub proof fn law_stages_are_shown(d: DirectionDiagnostics, stage: RelayStage, now: nat)
    ensures
        d.enabled ==> d.at_stage(stage).snapshot_at(now).stage == stage,
        d.at_stage(stage) == (DirectionDiagnostics { stage: d.at_stage(stage).stage, ..d }),
{
}

/// A snapshot shows the counts as they stand, and how long ago things happened: never more than
/// the time since the start, and by as much longer as the snapshot is later.
pub proof fn law_snapshot_shows_the_record(d: DirectionDiagnostics, now: nat)
    ensures
        ({
            let s = d.snapshot_at(now);
            let at = d.elapsed(now);
            &&& s.read_frames == d.read_frames && s.forwarded_frames == d.forwarded_frames
            &&& s.read_bytes == d.read_bytes && s.forwarded_bytes == d.forwarded_bytes
            &&& s.small_frames == d.small_frames && s.control_frames == d.control_frames
            &&& s.maximum_frame_bytes == d.maximum_frame_bytes
            &&& s.max_inter_frame_gap_ms == d.max_inter_frame_gap_ms
            &&& s.minimum_frame_bytes matches Some(m) ==> m == d.minimum_frame_bytes
            &&& s.minimum_frame_bytes is None <==> d.minimum_frame_bytes == u64::MAX
            &&& d.last_activity_elapsed_ms <= at ==> s.last_activity_idle_ms
                + d.last_activity_elapsed_ms == at
            &&& d.last_read_elapsed_ms <= at ==> s.last_read_idle_ms + d.last_read_elapsed_ms == at
            &&& d.last_write_elapsed_ms <= at ==> s.last_write_idle_ms + d.last_write_elapsed_ms
                == at
            &&& d.last_activity_elapsed_ms > at ==> s.last_activity_idle_ms == 0
            &&& d.last_read_elapsed_ms > at ==> s.last_read_idle_ms == 0
            &&& d.last_write_elapsed_ms > at ==> s.last_write_idle_ms == 0
            &&& s.last_frame_fin == d.last_frame_fin
            &&& s.last_frame_payload_bytes == d.last_frame_payload_bytes
        }),
{
}

/// The time since the start is told in whole milliseconds, as long as the counter holds them.
pub proof fn law_elapsed_is_in_milliseconds(d: DirectionDiagnostics, now: nat)
    requires
        d.started@ <= now,
        now - d.started@ < 0x1_0000_0000_0000_0000 * 1_000_000,
    ensures
        d.elapsed(now) * 1_000_000 <= now - d.started@ < (d.elapsed(now) + 1) * 1_000_000,
{
}

/// No two kinds of frames share a number or a name.
pub proof fn law_opcodes_are_distinct(a: OpCode, b: OpCode)
    ensures
        a.code() == b.code() ==> a == b,
        opcode_text(a.code()) == opcode_text(b.code()) ==> a == b,
        opcode_text(a.code()) != "none"@,
{
    reveal_strlit("continuation");
    reveal_strlit("text");
    reveal_strlit("binary");
    reveal_strlit("close");
    reveal_strlit("ping");
    reveal_strlit("pong");
    reveal_strlit("none");
    assert("continuation"@.len() == 12 && "text"@.len() == 4 && "binary"@.len() == 6
        && "close"@.len() == 5 && "ping"@.len() == 4 && "pong"@.len() == 4 && "none"@.len() == 4);
    assert("text"@[0] == 't' && "ping"@[1] == 'i' && "pong"@[1] == 'o' && "ping"@[0] == 'p'
        && "pong"@[0] == 'p' && "none"@[0] == 'n');
}

/// A direction waits for input in one stage, and writes in all others but those of its end.
pub proof fn law_stages_are_divided(stage: RelayStage)
    ensures
        stage.waits_for_input() <==> stage == RelayStage::AwaitingRead,
        !stage.waits_for_input() && !stage.writes() <==> (stage == RelayStage::PeerClosed || stage
            == RelayStage::Cancelled || stage == RelayStage::Ended),
{
}

/// A record starts out empty: nothing read, nothing forwarded, waiting for the first frame.
pub proof fn law_records_start_empty(started: Duration, enabled: bool, detailed: bool)
    ensures
        ({
            let record = DirectionDiagnostics::fresh(started, enabled, detailed);
            &&& record.started == started
            &&& record.enabled == enabled
            &&& record.detailed == detailed
            &&& RelayStage::of_code(record.stage) is AwaitingRead
            &&& record.read_frames == 0 && record.forwarded_frames == 0
            &&& record.read_bytes == 0 && record.forwarded_bytes == 0
            &&& record.small_frames == 0 && record.control_frames == 0
            &&& record.maximum_frame_bytes == 0 && record.minimum_frame_bytes == u64::MAX
            &&& record.last_frame_elapsed_ms == 0 && record.last_read_elapsed_ms == 0
            &&& record.last_write_elapsed_ms == 0 && record.last_activity_elapsed_ms == 0
            &&& record.max_inter_frame_gap_ms == 0 && record.last_frame_opcode == 255
            &&& !record.last_frame_fin && record.last_frame_payload_bytes == 0
        }),
{
}

/// How the stages of a relay and the kinds of frames are named on record.
pub proof fn law_stages_and_frames_are_named(stage: RelayStage, opcode: OpCode)
    ensures
        match stage {
            RelayStage::AwaitingRead => stage.name() == "awaiting_read"@,
            RelayStage::WaitingWriterLock => stage.name() == "waiting_writer_lock"@,
            RelayStage::WritingDataFrame => stage.name() == "writing_data_frame"@,
            RelayStage::WritingControlFrame => stage.name() == "writing_control_frame"@,
            RelayStage::WritingStreamBytes => stage.name() == "writing_stream_bytes"@,
            RelayStage::FlushingFrame => stage.name() == "flushing_frame"@,
            RelayStage::PeerClosed => stage.name() == "peer_closed"@,
            RelayStage::Cancelled => stage.name() == "cancelled"@,
            RelayStage::Ended => stage.name() == "ended"@,
        },
        match opcode {
            OpCode::Continuation => opcode_text(opcode.code()) == "continuation"@,
            OpCode::Text => opcode_text(opcode.code()) == "text"@,
            OpCode::Binary => opcode_text(opcode.code()) == "binary"@,
            OpCode::Close => opcode_text(opcode.code()) == "close"@,
            OpCode::Ping => opcode_text(opcode.code()) == "ping"@,
            OpCode::Pong => opcode_text(opcode.code()) == "pong"@,
        },
{
}

} // verus!
