//! Telemetry frames and the latest-sample mailbox.
//!
//! A frame is one datagram of exactly 24 big-endian 32-bit fields; anything
//! shorter or longer is rejected, never partially decoded. Fields carry raw
//! 32-bit patterns (floating-point bit images on the wire); this module
//! never interprets them numerically. [`InputPoll`] is the poller's state
//! machine: the worker publishes each decoded frame over the previous one,
//! so a consumer only ever observes the most recent sample — there is no
//! queue.

use crate::codec::be32;
use vstd::prelude::*;

verus! {

/// Bytes in one telemetry datagram.
pub const FRAME_BYTES: usize = 96;

/// 32-bit fields in one telemetry datagram.
pub const FRAME_WORDS: usize = 24;

#[derive(Clone, Copy, Debug, PartialEq, Eq, Structural)]
pub enum TelemetryError {
    /// The datagram is not exactly one frame long.
    BadFrameLength,
    /// `stop_polling` was called before `start_polling`.
    NotStarted,
}

/// The poller's phase. The machine only ever moves forward:
/// `Idle` to `Running` to `Stopped`.
#[derive(Clone, Copy, Debug, PartialEq, Eq, Structural)]
pub enum PollPhase {
    Idle,
    Running,
    Stopped,
}

/// One decoded sample: the raw bit patterns of the first six fields of a
/// frame, in wire order.
#[derive(Clone, Copy, Debug, PartialEq, Eq, Structural)]
pub struct TelemetrySample {
    pub pos_x: u32,
    pub pos_y: u32,
    pub pos_z: u32,
    pub rot_x: u32,
    pub rot_y: u32,
    pub rot_z: u32,
}

impl TelemetrySample {
    pub fn zeroed() -> (r: TelemetrySample)
        ensures
            r == (TelemetrySample { pos_x: 0, pos_y: 0, pos_z: 0, rot_x: 0, rot_y: 0, rot_z: 0 }),
    {
        TelemetrySample { pos_x: 0, pos_y: 0, pos_z: 0, rot_x: 0, rot_y: 0, rot_z: 0 }
    }
}

/// The `i`-th big-endian 32-bit field of a frame.
pub open spec fn word_at(bytes: Seq<u8>, i: int) -> u32 {
    be32(bytes.subrange(4 * i, 4 * i + 4))
}

/// The sample a frame decodes to.
pub open spec fn sample_of(bytes: Seq<u8>) -> TelemetrySample {
    TelemetrySample {
        pos_x: word_at(bytes, 0),
        pos_y: word_at(bytes, 1),
        pos_z: word_at(bytes, 2),
        rot_x: word_at(bytes, 3),
        rot_y: word_at(bytes, 4),
        rot_z: word_at(bytes, 5),
    }
}

/// Decode one datagram into its 24 fields. A datagram that is not exactly
/// `FRAME_BYTES` long is rejected whole.
pub fn decode_frame(buf: &Vec<u8>) -> (r: Result<Vec<u32>, TelemetryError>)
    ensures
        r is Ok <==> buf@.len() == FRAME_BYTES,
        r matches Err(e) ==> e == TelemetryError::BadFrameLength,
        r matches Ok(words) ==> words@.len() == FRAME_WORDS && forall|i: int|
            0 <= i < FRAME_WORDS ==> words@[i] == word_at(buf@, i),
{
    if buf.len() != FRAME_BYTES {
        return Err(TelemetryError::BadFrameLength);
    }
    let mut words: Vec<u32> = Vec::new();
    let mut i: usize = 0;
    while i < FRAME_WORDS
        invariant
            i <= FRAME_WORDS,
            buf@.len() == FRAME_BYTES,
            words@.len() == i,
            forall|j: int| 0 <= j < i ==> words@[j] == word_at(buf@, j),
        decreases FRAME_WORDS - i,
    {
        let w = crate::codec::read_be32(buf, 4 * i);
        words.push(w);
        i = i + 1;
    }
    Ok(words)
}

/// Decode one datagram into a sample: the first six fields.
pub fn decode_sample(buf: &Vec<u8>) -> (r: Result<TelemetrySample, TelemetryError>)
    ensures
        r is Ok <==> buf@.len() == FRAME_BYTES,
        r matches Err(e) ==> e == TelemetryError::BadFrameLength,
        r matches Ok(s) ==> s == sample_of(buf@),
{
    let words = match decode_frame(buf) {
        Ok(w) => w,
        Err(e) => {
            return Err(e);
        },
    };
    Ok(
        TelemetrySample {
            pos_x: words[0],
            pos_y: words[1],
            pos_z: words[2],
            rot_x: words[3],
            rot_y: words[4],
            rot_z: words[5],
        },
    )
}

/// The poller's state machine: phase, the most recent sample, and whether
/// that sample has not yet been handed out.
///
/// The worker thread that owns the datagram socket, and the join on it,
/// live outside this library; the worker feeds every received datagram to
/// [`InputPoll::publish_frame`] and the consumer drains with
/// [`InputPoll::get_input`].
pub struct InputPoll {
    pub phase: PollPhase,
    pub latest: Option<TelemetrySample>,
    pub fresh: bool,
}

/// The state after a frame is published: the new sample replaces whatever
/// was there, unread or not.
pub open spec fn publish_spec(p: InputPoll, bytes: Seq<u8>) -> InputPoll {
    InputPoll { phase: p.phase, latest: Some(sample_of(bytes)), fresh: true }
}

impl InputPoll {
    pub fn new() -> (r: InputPoll)
        ensures
            r.phase == PollPhase::Idle,
            r.latest is None,
            r.fresh == false,
    {
        InputPoll { phase: PollPhase::Idle, latest: None, fresh: false }
    }

    /// Enter `Running`. The caller spawns exactly one worker alongside.
    pub fn start_polling(&mut self)
        requires
            old(self).phase == PollPhase::Idle,
        ensures
            final(self).phase == PollPhase::Running,
            final(self).latest == old(self).latest,
            final(self).fresh == old(self).fresh,
    {
        self.phase = PollPhase::Running;
    }

    /// Publish one received datagram: decode it and overwrite the previous
    /// sample. A malformed datagram is rejected and changes nothing.
    pub fn publish_frame(&mut self, buf: &Vec<u8>) -> (r: Result<(), TelemetryError>)
        requires
            old(self).phase == PollPhase::Running,
        ensures
            r is Ok <==> buf@.len() == FRAME_BYTES,
            r matches Err(e) ==> e == TelemetryError::BadFrameLength && *final(self) == *old(self),
            r is Ok ==> *final(self) == publish_spec(*old(self), buf@),
    {
        let sample = match decode_sample(buf) {
            Ok(s) => s,
            Err(e) => {
                return Err(e);
            },
        };
        self.latest = Some(sample);
        self.fresh = true;
        Ok(())
    }

    /// Hand out the most recent sample if one arrived since the last call;
    /// otherwise leave `out` untouched. Never blocks; stale data at the
    /// consumer's faster poll rate is expected. Works in every phase, so a
    /// consumer keeps reading the last published sample after a stop.
    pub fn get_input(&mut self, out: &mut TelemetrySample) -> (updated: bool)
        ensures
            final(self).phase == old(self).phase,
            final(self).latest == old(self).latest,
            updated == (old(self).fresh && old(self).latest is Some),
            updated ==> (old(self).latest matches Some(s) && *final(out) == s && !final(self).fresh),
            !updated ==> *final(out) == *old(out) && final(self).fresh == old(self).fresh,
    {
        if !self.fresh {
            return false;
        }
        match self.latest {
            Some(s) => {
                *out = s;
                self.fresh = false;
                true
            },
            None => false,
        }
    }

    /// Leave `Running`. The caller joins the worker before this returns to
    /// its own caller. Stopping from `Idle` is an error; stopping an
    /// already stopped poller is accepted and changes nothing, so no second
    /// join can happen. The last published sample stays readable.
    pub fn stop_polling(&mut self) -> (r: Result<(), TelemetryError>)
        ensures
            final(self).latest == old(self).latest,
            final(self).fresh == old(self).fresh,
            r is Ok <==> old(self).phase != PollPhase::Idle,
            r matches Err(e) ==> e == TelemetryError::NotStarted && *final(self) == *old(self),
            r is Ok ==> final(self).phase == PollPhase::Stopped,
    {
        match self.phase {
            PollPhase::Idle => Err(TelemetryError::NotStarted),
            PollPhase::Running => {
                self.phase = PollPhase::Stopped;
                Ok(())
            },
            PollPhase::Stopped => Ok(()),
        }
    }
}

/// Latest-sample semantics: publishing frame `a` and then frame `b` before
/// any read leaves exactly the state that publishing `b` alone leaves — the
/// intermediate sample can never be observed, because nothing is queued.
pub proof fn lemma_latest_sample_overwrites(p: InputPoll, a: Seq<u8>, b: Seq<u8>)
    ensures
        publish_spec(publish_spec(p, a), b) == publish_spec(p, b),
{
}

} // verus!
