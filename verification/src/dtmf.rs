//! Telephone events (DTMF digits, RFC 4733) in the caller's RTP stream.
//!
//! An event payload holds the event code (8 bits), the end flag (1 bit), a
//! reserved bit, the volume (6 bits) and the duration (16 bits), big
//! endian. A digit is sent in several packets that share one RTP
//! timestamp; it is reported once.
use vstd::prelude::*;

verus! {

/// The field of an event payload that the payload is too short for.
#[derive(Debug, Clone, Copy, PartialEq, Eq, Structural)]
pub enum DtmfEventError {
    /// Failed to read event
    Event,
    /// Failed to read is_end
    IsEnd,
    /// Failed to read duration
    Duration,
}

/// The event code of a payload; the payload must hold all four bytes of
/// the event's fields.
pub open spec fn spec_read_dtmf_event(payload: Seq<u8>) -> Result<u8, DtmfEventError> {
    if payload.len() == 0 {
        Err(DtmfEventError::Event)
    } else if payload.len() == 1 {
        Err(DtmfEventError::IsEnd)
    } else if payload.len() < 4 {
        Err(DtmfEventError::Duration)
    } else {
        Ok(payload[0])
    }
}

pub fn read_dtmf_event(payload: &[u8]) -> (r: Result<u8, DtmfEventError>)
    ensures
        r == spec_read_dtmf_event(payload@),
{
    let n = payload.len();
    if n == 0 {
        Err(DtmfEventError::Event)
    } else if n == 1 {
        Err(DtmfEventError::IsEnd)
    } else if n < 4 {
        Err(DtmfEventError::Duration)
    } else {
        Ok(payload[0])
    }
}

/// What becomes of a packet of the caller's audio RTP stream.
#[derive(Debug, Clone, Copy, PartialEq, Eq, Structural)]
pub enum DtmfFilterDecision {
    /// A media packet: pass it on
    Forward,
    /// A new telephone event with this code: report it
    Digit(u8),
    /// Anything else: drop it
    Drop,
}

/// Splits the telephone events out of an audio stream.
#[derive(Debug)]
pub struct DtmfFilter {
    /// Payload type of the audio
    pub media_pt: u8,
    /// Payload type of the telephone events, where they were negotiated
    pub dtmf_pt: Option<u8>,
    /// RTP timestamp of the last event reported
    pub last_dtmf_timestamp: Option<u32>,
}

/// `Option`'s order: `None` before every `Some`.
pub open spec fn timestamp_before(a: Option<u32>, b: u32) -> bool {
    match a {
        None => true,
        Some(x) => x < b,
    }
}

pub open spec fn spec_filter(f: DtmfFilter, pt: u8, timestamp: u32, payload: Seq<u8>) -> (DtmfFilterDecision, Option<u32>) {
    if pt == f.media_pt {
        (DtmfFilterDecision::Forward, f.last_dtmf_timestamp)
    } else if f.dtmf_pt == Some(pt) {
        match spec_read_dtmf_event(payload) {
            Err(_) => (DtmfFilterDecision::Drop, f.last_dtmf_timestamp),
            Ok(event) => if timestamp_before(f.last_dtmf_timestamp, timestamp) {
                (DtmfFilterDecision::Digit(event), Some(timestamp))
            } else {
                (DtmfFilterDecision::Drop, f.last_dtmf_timestamp)
            },
        }
    } else {
        (DtmfFilterDecision::Drop, f.last_dtmf_timestamp)
    }
}

impl DtmfFilter {
    /// Classifies one packet by its payload type, timestamp and payload;
    /// a reported event moves the last timestamp on.
    pub fn filter_packet(&mut self, pt: u8, timestamp: u32, payload: &[u8]) -> (r: DtmfFilterDecision)
        ensures
            r == spec_filter(*old(self), pt, timestamp, payload@).0,
            final(self).last_dtmf_timestamp == spec_filter(*old(self), pt, timestamp, payload@).1,
            final(self).media_pt == old(self).media_pt,
            final(self).dtmf_pt == old(self).dtmf_pt,
    {
        if pt == self.media_pt {
            return DtmfFilterDecision::Forward;
        }
        let is_dtmf = match self.dtmf_pt {
            Some(dpt) => dpt == pt,
            None => false,
        };
        if !is_dtmf {
            return DtmfFilterDecision::Drop;
        }
        match read_dtmf_event(payload) {
            Err(_) => DtmfFilterDecision::Drop,
            Ok(event) => {
                let newer = match self.last_dtmf_timestamp {
                    None => true,
                    Some(last) => last < timestamp,
                };
                if newer {
                    self.last_dtmf_timestamp = Some(timestamp);
                    DtmfFilterDecision::Digit(event)
                } else {
                    DtmfFilterDecision::Drop
                }
            },
        }
    }
}

/// The packets of one telephone event share a timestamp: once it has been
/// reported, its repetitions are dropped.
pub proof fn lemma_event_reported_once(f: DtmfFilter, pt: u8, timestamp: u32, p1: Seq<u8>, p2: Seq<u8>)
    requires
        f.media_pt != pt,
        spec_filter(f, pt, timestamp, p1).0 is Digit,
    ensures
        spec_filter(
            DtmfFilter { last_dtmf_timestamp: spec_filter(f, pt, timestamp, p1).1, ..f },
            pt,
            timestamp,
            p2,
        ).0 == DtmfFilterDecision::Drop,
{
}

} // verus!
