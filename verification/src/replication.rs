//! The replication session state machine: frame classification, the
//! acknowledgment (feedback) state, and the handshake and status-update
//! wire messages.
//!
//! The session itself performs no I/O.  The surrounding process owns the
//! connection: it hands every inbound frame to [`ReplicationSession::handle_frame`],
//! reports completed processing through [`ReplicationSession::acknowledge`],
//! and sends the bytes of [`ReplicationSession::status_update_frame`] back
//! to the server.

use vstd::prelude::*;

use crate::decoder::{
    Change, ChangeModel, DecodeError, RelationCache, RelationModel, ColumnInfo, decode_message,
    spec_decode_message,
};
use crate::lsn::{format_lsn, lsn_text};
use crate::wire::{be64_at, push_be64, spec_be64, spec_be64_bytes};
use vstd::slice::slice_subrange;

verus! {

/// Frame type byte of a log-data frame.
pub const FRAME_LOG_DATA: u8 = 119;

/// Frame type byte of a primary-keepalive frame.
pub const FRAME_KEEPALIVE: u8 = 107;

/// Frame type byte of an outbound status-update frame.
pub const FRAME_STATUS_UPDATE: u8 = 114;

/// The recommended idle interval between unsolicited status updates.
pub const STATUS_INTERVAL_MILLIS: i64 = 10_000;

/// The lifecycle of a session.  No transition skips `Handshaking`, and a
/// closed session stays closed.
#[derive(Clone, Copy, Debug, PartialEq, Eq, Structural)]
pub enum SessionPhase {
    Connecting,
    Handshaking,
    Streaming,
    Closed,
}

/// A fatal session failure, by taxonomy kind.
#[derive(Debug)]
pub enum ReplicationError {
    /// A frame inconsistent with the negotiated protocol.
    Protocol { offset: usize },
    /// A malformed change record or one referencing an unknown relation.
    Decode(DecodeError),
    /// A transport-level failure, reported by the surrounding process.
    Connection(String),
    /// The named replication slot was missing or already present.
    Slot(String),
}

impl ReplicationError {
    /// A description naming the failure's taxonomy kind and its detail.
    pub fn describe(&self) -> (r: String)
        ensures
            r@ == match *self {
                ReplicationError::Protocol { offset } => "protocol error at byte offset "@
                    + crate::text::dec_text(offset as int),
                ReplicationError::Decode(e) => "decode error: "@ + match e {
                    DecodeError::Malformed { offset } => "malformed change record at byte offset "@
                        + crate::text::dec_text(offset as int),
                    DecodeError::ColumnCountMismatch { expected, found } => "column count mismatch: expected "@
                        + crate::text::dec_text(expected as int) + ", found "@
                        + crate::text::dec_text(found as int),
                    DecodeError::UnknownRelation { relation_id } => "unknown relation "@
                        + crate::text::dec_text(relation_id as int),
                },
                ReplicationError::Connection(msg) => "connection error: "@ + msg@,
                ReplicationError::Slot(msg) => "replication slot error: "@ + msg@,
            },
    {
        match self {
            ReplicationError::Protocol { offset } => {
                let mut s = "protocol error at byte offset ".to_owned();
                s.append(crate::text::u64_dec_string(*offset as u64).as_str());
                s
            },
            ReplicationError::Decode(e) => {
                let mut s = "decode error: ".to_owned();
                s.append(e.describe().as_str());
                s
            },
            ReplicationError::Connection(msg) => {
                let mut s = "connection error: ".to_owned();
                s.append(msg.as_str());
                s
            },
            ReplicationError::Slot(msg) => {
                let mut s = "replication slot error: ".to_owned();
                s.append(msg.as_str());
                s
            },
        }
    }
}

/// What handling one inbound frame produced.
#[derive(Debug)]
pub enum FrameOutcome {
    /// A log-data frame decoded to a change event.
    Change(Change),
    /// Protocol housekeeping: a skipped record, an idle keepalive, or a
    /// dropped frame of an unknown type.  The caller retries without delay.
    NoChange,
    /// A keepalive asked for an immediate status update.
    ReplyRequested,
}

/// Model of a frame outcome.
pub enum FrameOutcomeModel {
    Change(ChangeModel),
    NoChange,
    ReplyRequested,
}

/// The model of a frame-handling result.
pub open spec fn frame_result_model(r: Result<FrameOutcome, ReplicationError>) -> Result<
    FrameOutcomeModel,
    ReplicationError,
> {
    match r {
        Ok(FrameOutcome::Change(c)) => Ok(FrameOutcomeModel::Change(c@)),
        Ok(FrameOutcome::NoChange) => Ok(FrameOutcomeModel::NoChange),
        Ok(FrameOutcome::ReplyRequested) => Ok(FrameOutcomeModel::ReplyRequested),
        Err(e) => Err(e),
    }
}

/// What classifying one inbound frame against a cache state yields: the
/// outcome, the cache afterwards, and the position the frame carried.
pub struct FrameStep {
    pub outcome: Result<FrameOutcomeModel, ReplicationError>,
    pub cache: Map<u32, RelationModel>,
    pub position: Option<u64>,
}

/// Classifies one inbound frame.  A log-data frame (start position, end
/// position, send time, then one change record) is decoded; a keepalive
/// (end-of-log position, send time, reply flag) may request a reply; any
/// other frame type is dropped without an error and without a position.
pub open spec fn spec_classify_frame(cache: Map<u32, RelationModel>, f: Seq<u8>) -> FrameStep {
    if f.len() < 1 {
        FrameStep {
            outcome: Err(ReplicationError::Protocol { offset: 0 }),
            cache,
            position: None,
        }
    } else if f[0] == FRAME_LOG_DATA {
        if f.len() < 25 {
            FrameStep {
                outcome: Err(ReplicationError::Protocol { offset: 1 }),
                cache,
                position: None,
            }
        } else {
            let start = spec_be64(f, 1) as u64;
            let out = spec_decode_message(cache, f.subrange(25, f.len() as int));
            FrameStep {
                outcome: match out.result {
                    Ok(Some(c)) => Ok(FrameOutcomeModel::Change(c)),
                    Ok(None) => Ok(FrameOutcomeModel::NoChange),
                    Err(e) => Err(ReplicationError::Decode(e)),
                },
                cache: out.cache,
                position: Some(start),
            }
        }
    } else if f[0] == FRAME_KEEPALIVE {
        if f.len() < 18 {
            FrameStep {
                outcome: Err(ReplicationError::Protocol { offset: 1 }),
                cache,
                position: None,
            }
        } else {
            FrameStep {
                outcome: if f[17] != 0 {
                    Ok(FrameOutcomeModel::ReplyRequested)
                } else {
                    Ok(FrameOutcomeModel::NoChange)
                },
                cache,
                position: Some(spec_be64(f, 1) as u64),
            }
        }
    } else {
        FrameStep { outcome: Ok(FrameOutcomeModel::NoChange), cache, position: None }
    }
}

/// The bytes of an outbound status-update frame: the type byte, then the
/// written, flushed and applied positions (all three the acknowledged
/// position), the client send time, and a zero reply-requested flag.
pub open spec fn spec_status_frame(acknowledged: u64, send_time: u64) -> Seq<u8> {
    seq![FRAME_STATUS_UPDATE] + spec_be64_bytes(acknowledged) + spec_be64_bytes(acknowledged)
        + spec_be64_bytes(acknowledged) + spec_be64_bytes(send_time) + seq![0u8]
}

/// A replication session's protocol state: its lifecycle phase, the
/// relation cache, and the two acknowledgment watermarks.
pub struct ReplicationSession {
    phase: SessionPhase,
    cache: RelationCache,
    last_received: u64,
    last_acknowledged: u64,
}

impl ReplicationSession {
    /// The session's lifecycle phase.
    pub closed spec fn phase_spec(&self) -> SessionPhase {
        self.phase
    }

    /// The highest position any frame has carried.
    pub closed spec fn received_spec(&self) -> u64 {
        self.last_received
    }

    /// The highest position whose processing the caller has confirmed.
    pub closed spec fn acked_spec(&self) -> u64 {
        self.last_acknowledged
    }

    /// The relation cache's contents.
    pub closed spec fn cache_spec(&self) -> Map<u32, RelationModel> {
        self.cache@
    }

    /// The acknowledged position never runs ahead of the received one.
    pub open spec fn wf(&self) -> bool {
        self.acked_spec() <= self.received_spec()
    }

    /// A fresh session, about to connect.  `start_position`, when given,
    /// seeds both watermarks with the requested stream start.
    pub fn new(start_position: Option<u64>) -> (s: ReplicationSession)
        ensures
            s.phase_spec() == SessionPhase::Connecting,
            s.received_spec() == match start_position {
                Some(p) => p,
                None => 0u64,
            },
            s.acked_spec() == s.received_spec(),
            s.cache_spec() =~= Map::<u32, RelationModel>::empty(),
            s.wf(),
    {
        let start: u64 = match start_position {
            Some(p) => p,
            None => 0,
        };
        ReplicationSession {
            phase: SessionPhase::Connecting,
            cache: RelationCache::new(),
            last_received: start,
            last_acknowledged: start,
        }
    }

    /// Marks the connection as established; the handshake begins.
    pub fn begin_handshake(&mut self)
        requires
            old(self).phase_spec() == SessionPhase::Connecting,
        ensures
            final(self).phase_spec() == SessionPhase::Handshaking,
            final(self).received_spec() == old(self).received_spec(),
            final(self).acked_spec() == old(self).acked_spec(),
            final(self).cache_spec() == old(self).cache_spec(),
    {
        self.phase = SessionPhase::Handshaking;
    }

    /// Marks the start-replication handshake as accepted; streaming begins.
    pub fn begin_streaming(&mut self)
        requires
            old(self).phase_spec() == SessionPhase::Handshaking,
        ensures
            final(self).phase_spec() == SessionPhase::Streaming,
            final(self).received_spec() == old(self).received_spec(),
            final(self).acked_spec() == old(self).acked_spec(),
            final(self).cache_spec() == old(self).cache_spec(),
    {
        self.phase = SessionPhase::Streaming;
    }

    /// Closes the session; it cannot be reopened.
    pub fn close(&mut self)
        ensures
            final(self).phase_spec() == SessionPhase::Closed,
            final(self).received_spec() == old(self).received_spec(),
            final(self).acked_spec() == old(self).acked_spec(),
            final(self).cache_spec() == old(self).cache_spec(),
    {
        self.phase = SessionPhase::Closed;
    }

    /// Handles one inbound frame while streaming: classifies it, decodes
    /// a log-data frame's change record, and advances the received
    /// watermark to the frame's position when that position is higher.
    ///
    /// The received watermark never decreases, and the acknowledged
    /// watermark is untouched.
    pub fn handle_frame(&mut self, f: &[u8]) -> (r: Result<FrameOutcome, ReplicationError>)
        requires
            old(self).phase_spec() == SessionPhase::Streaming,
            old(self).wf(),
        ensures
            final(self).wf(),
            final(self).phase_spec() == SessionPhase::Streaming,
            final(self).acked_spec() == old(self).acked_spec(),
            final(self).received_spec() >= old(self).received_spec(),
            ({
                let step = spec_classify_frame(old(self).cache_spec(), f@);
                &&& frame_result_model(r) == step.outcome
                &&& final(self).cache_spec() == step.cache
                &&& final(self).received_spec() == match step.position {
                    Some(p) => if p > old(self).received_spec() {
                        p
                    } else {
                        old(self).received_spec()
                    },
                    None => old(self).received_spec(),
                }
            }),
    {
        if f.len() < 1 {
            return Err(ReplicationError::Protocol { offset: 0 });
        }
        let tag = f[0];
        if tag == FRAME_LOG_DATA {
            if f.len() < 25 {
                return Err(ReplicationError::Protocol { offset: 1 });
            }
            let start: u64 = be64_at(f, 1);
            if start > self.last_received {
                self.last_received = start;
            }
            let record = slice_subrange(f, 25, f.len());
            match decode_message(&mut self.cache, record) {
                Ok(Some(c)) => Ok(FrameOutcome::Change(c)),
                Ok(None) => Ok(FrameOutcome::NoChange),
                Err(e) => Err(ReplicationError::Decode(e)),
            }
        } else if tag == FRAME_KEEPALIVE {
            if f.len() < 18 {
                return Err(ReplicationError::Protocol { offset: 1 });
            }
            let end: u64 = be64_at(f, 1);
            if end > self.last_received {
                self.last_received = end;
            }
            if f[17] != 0 {
                Ok(FrameOutcome::ReplyRequested)
            } else {
                Ok(FrameOutcome::NoChange)
            }
        } else {
            Ok(FrameOutcome::NoChange)
        }
    }

    /// Confirms that every change up to `position` has been fully
    /// processed.  The acknowledged watermark never decreases and never
    /// passes the received watermark, whatever position the caller names.
    pub fn acknowledge(&mut self, position: u64)
        requires
            old(self).wf(),
        ensures
            final(self).wf(),
            final(self).acked_spec() >= old(self).acked_spec(),
            final(self).acked_spec() <= final(self).received_spec(),
            final(self).acked_spec() == if position <= old(self).acked_spec() {
                old(self).acked_spec()
            } else if position <= old(self).received_spec() {
                position
            } else {
                old(self).received_spec()
            },
            final(self).phase_spec() == old(self).phase_spec(),
            final(self).received_spec() == old(self).received_spec(),
            final(self).cache_spec() == old(self).cache_spec(),
    {
        if position <= self.last_acknowledged {
            return ;
        }
        if position <= self.last_received {
            self.last_acknowledged = position;
        } else {
            self.last_acknowledged = self.last_received;
        }
    }

    /// The bytes of a status-update frame reporting the acknowledged
    /// position as written, flushed and applied.
    pub fn status_update_frame(&self, send_time: u64) -> (r: Vec<u8>)
        ensures
            r@ =~= spec_status_frame(self.acked_spec(), send_time),
    {
        let mut out: Vec<u8> = Vec::new();
        out.push(FRAME_STATUS_UPDATE);
        push_be64(&mut out, self.last_acknowledged);
        push_be64(&mut out, self.last_acknowledged);
        push_be64(&mut out, self.last_acknowledged);
        push_be64(&mut out, send_time);
        out.push(0);
        out
    }

    /// Whether a status update is due: either the server asked for one,
    /// or the idle interval has passed since the last one was sent.
    pub fn status_update_due(reply_requested: bool, now_millis: i64, last_sent_millis: i64) -> (r:
        bool)
        ensures
            r == (reply_requested || now_millis - last_sent_millis >= STATUS_INTERVAL_MILLIS
                || now_millis < last_sent_millis),
    {
        if reply_requested {
            return true;
        }
        if now_millis < last_sent_millis {
            return true;
        }
        let elapsed: i128 = now_millis as i128 - last_sent_millis as i128;
        elapsed >= STATUS_INTERVAL_MILLIS as i128
    }

    /// The session's lifecycle phase.
    pub fn phase(&self) -> (r: SessionPhase)
        ensures
            r == self.phase_spec(),
    {
        self.phase
    }

    /// The highest position any frame has carried.
    pub fn last_received_position(&self) -> (r: u64)
        ensures
            r == self.received_spec(),
    {
        self.last_received
    }

    /// The highest position whose processing the caller has confirmed.
    pub fn last_acknowledged_position(&self) -> (r: u64)
        ensures
            r == self.acked_spec(),
    {
        self.last_acknowledged
    }

    /// Read-only access to the cached column list of a relation, for
    /// schema-aware downstream converters.
    pub fn relation_columns(&self, relation_id: u32) -> (r: Option<Vec<ColumnInfo>>)
        ensures
            match r {
                Some(cols) => self.cache_spec().contains_key(relation_id) && cols@.len()
                    == self.cache_spec()[relation_id].columns.len() && forall|i: int|
                    0 <= i < cols@.len() ==> cols@[i]@ == self.cache_spec()[relation_id].columns[i],
                None => !self.cache_spec().contains_key(relation_id),
            },
    {
        self.cache.get_relation_columns(relation_id)
    }
}

// ---------------------------------------------------------------------------
// Laws
// ---------------------------------------------------------------------------

/// A keepalive frame built by the encoder classifies as a keepalive: it
/// carries the end-of-log position it was built with, asks for a reply
/// exactly when the flag was set, and leaves the cache alone.
pub proof fn lemma_classify_encoded_keepalive(
    cache: Map<u32, RelationModel>,
    end_position: u64,
    send_time: u64,
    reply_requested: bool,
)
    ensures
        ({
            let step = spec_classify_frame(
                cache,
                crate::encoder::spec_encode_keepalive_frame(end_position, send_time, reply_requested),
            );
            &&& step.outcome == Ok::<FrameOutcomeModel, ReplicationError>(
                if reply_requested {
                    FrameOutcomeModel::ReplyRequested
                } else {
                    FrameOutcomeModel::NoChange
                },
            )
            &&& step.cache == cache
            &&& step.position == Some(end_position)
        }),
{
    let f = crate::encoder::spec_encode_keepalive_frame(end_position, send_time, reply_requested);
    crate::wire::lemma_be64_roundtrip(end_position);
    assert(f.subrange(1, 9) =~= crate::wire::spec_be64_bytes(end_position));
    assert(spec_be64(f, 1) == spec_be64(f.subrange(1, 9), 0)) by {
        assert(forall|j: int| 0 <= j < 8 ==> f[1 + j] == #[trigger] f.subrange(1, 9)[j]);
    }
}

/// A log-data frame built by the encoder classifies as a log-data frame:
/// it carries the start position it was built with, and its record is
/// decoded against the cache exactly as the bare record would be.
pub proof fn lemma_classify_encoded_log_data(
    cache: Map<u32, RelationModel>,
    start_position: u64,
    end_position: u64,
    send_time: u64,
    record: Seq<u8>,
)
    ensures
        ({
            let step = spec_classify_frame(
                cache,
                crate::encoder::spec_encode_log_data_frame(
                    start_position,
                    end_position,
                    send_time,
                    record,
                ),
            );
            let out = spec_decode_message(cache, record);
            &&& step.position == Some(start_position)
            &&& step.cache == out.cache
            &&& step.outcome == match out.result {
                Ok(Some(c)) => Ok::<FrameOutcomeModel, ReplicationError>(
                    FrameOutcomeModel::Change(c),
                ),
                Ok(None) => Ok(FrameOutcomeModel::NoChange),
                Err(e) => Err(ReplicationError::Decode(e)),
            }
        }),
{
    let f = crate::encoder::spec_encode_log_data_frame(
        start_position,
        end_position,
        send_time,
        record,
    );
    crate::wire::lemma_be64_roundtrip(start_position);
    assert(f.subrange(1, 9) =~= crate::wire::spec_be64_bytes(start_position));
    assert(spec_be64(f, 1) == spec_be64(f.subrange(1, 9), 0)) by {
        assert(forall|j: int| 0 <= j < 8 ==> f[1 + j] == #[trigger] f.subrange(1, 9)[j]);
    }
    assert(f.subrange(25, f.len() as int) =~= record);
}

/// The status-update frame always reports the acknowledged position for
/// all three watermark fields and never asks the server for a reply.
pub proof fn lemma_status_frame_shape(acknowledged: u64, send_time: u64)
    ensures
        ({
            let f = spec_status_frame(acknowledged, send_time);
            &&& f.len() == 34
            &&& f[0] == FRAME_STATUS_UPDATE
            &&& spec_be64(f, 1) == acknowledged
            &&& spec_be64(f, 9) == acknowledged
            &&& spec_be64(f, 17) == acknowledged
            &&& spec_be64(f, 25) == send_time
            &&& f[33] == 0
        }),
{
    let f = spec_status_frame(acknowledged, send_time);
    crate::wire::lemma_be64_roundtrip(acknowledged);
    crate::wire::lemma_be64_roundtrip(send_time);
    assert(f.subrange(1, 9) =~= crate::wire::spec_be64_bytes(acknowledged));
    assert(f.subrange(9, 17) =~= crate::wire::spec_be64_bytes(acknowledged));
    assert(f.subrange(17, 25) =~= crate::wire::spec_be64_bytes(acknowledged));
    assert(f.subrange(25, 33) =~= crate::wire::spec_be64_bytes(send_time));
    assert(spec_be64(f, 1) == spec_be64(f.subrange(1, 9), 0)) by {
        assert(forall|j: int| 0 <= j < 8 ==> f[1 + j] == #[trigger] f.subrange(1, 9)[j]);
    }
    assert(spec_be64(f, 9) == spec_be64(f.subrange(9, 17), 0)) by {
        assert(forall|j: int| 0 <= j < 8 ==> f[9 + j] == #[trigger] f.subrange(9, 17)[j]);
    }
    assert(spec_be64(f, 17) == spec_be64(f.subrange(17, 25), 0)) by {
        assert(forall|j: int| 0 <= j < 8 ==> f[17 + j] == #[trigger] f.subrange(17, 25)[j]);
    }
    assert(spec_be64(f, 25) == spec_be64(f.subrange(25, 33), 0)) by {
        assert(forall|j: int| 0 <= j < 8 ==> f[25 + j] == #[trigger] f.subrange(25, 33)[j]);
    }
}

// ---------------------------------------------------------------------------
// Handshake commands
// ---------------------------------------------------------------------------

/// The start-replication command for a slot and publication, beginning at
/// `start_position` (the zero position asks the server to resume from the
/// slot's last confirmed position).
pub fn start_replication_query(slot: &str, publication: &str, start_position: Option<u64>) -> (r:
    String)
    ensures
        r@ =~= "START_REPLICATION SLOT \""@ + slot@ + "\" LOGICAL "@ + lsn_text(
            match start_position {
                Some(p) => p,
                None => 0u64,
            },
        ) + " (proto_version '1', publication_names '\""@ + publication@ + "\"')"@,
{
    let start: u64 = match start_position {
        Some(p) => p,
        None => 0,
    };
    let mut q = "START_REPLICATION SLOT \"".to_owned();
    q.append(slot);
    q.append("\" LOGICAL ");
    q.append(format_lsn(start).as_str());
    q.append(" (proto_version '1', publication_names '\"");
    q.append(publication);
    q.append("\"')");
    q
}

/// The command that creates a logical replication slot for the decoder's
/// wire format.
pub fn create_slot_query(slot: &str) -> (r: String)
    ensures
        r@ =~= "CREATE_REPLICATION_SLOT \""@ + slot@ + "\" LOGICAL pgoutput NOEXPORT_SNAPSHOT"@,
{
    let mut q = "CREATE_REPLICATION_SLOT \"".to_owned();
    q.append(slot);
    q.append("\" LOGICAL pgoutput NOEXPORT_SNAPSHOT");
    q
}

} // verus!
