//! Sequence numbers: which of two is newer, and which packets a receiver
//! lets through.
//!
//! Sequence numbers are 16 bits and wrap. One number is newer than another
//! when it lies ahead of it by less than half the circle.

use vstd::prelude::*;

verus! {

/// How far `a` lies ahead of `b` on the circle of 16-bit numbers:
/// `a - b` modulo 65536.
pub open spec fn seq_diff(a: u16, b: u16) -> int {
    if a >= b { a - b } else { a - b + 65536 }
}

/// `a` is ahead of `b` by more than zero and less than half the circle.
pub open spec fn newer(a: u16, b: u16) -> bool {
    seq_diff(a, b) != 0 && seq_diff(a, b) < 32768
}

/// True when `a` is newer than `b`: see [`newer`].
pub fn is_newer_u16(a: u16, b: u16) -> (r: bool)
    ensures
        r == newer(a, b),
{
    let diff = a.wrapping_sub(b);
    diff != 0 && diff < 0x8000
}

/// What the tracker decides about one packet.
#[derive(Clone, Copy, Debug, PartialEq, Eq, Structural)]
pub enum Verdict {
    /// First packet, or newer than the last one applied.
    Apply,
    /// Same sequence number as the last one applied.
    Duplicate,
    /// Older than the last one applied.
    OutOfOrder,
}

/// The verdict on sequence number `s` when `last` was applied last.
pub open spec fn verdict(last: Option<u16>, s: u16) -> Verdict {
    match last {
        None => Verdict::Apply,
        Some(p) => if s == p {
            Verdict::Duplicate
        } else if newer(s, p) {
            Verdict::Apply
        } else {
            Verdict::OutOfOrder
        },
    }
}

/// How many packets are taken as lost when `s` arrives after `last`: those
/// between the two, where `s` is newer than `last`; none otherwise.
pub open spec fn lost_between(last: Option<u16>, s: u16) -> int {
    match last {
        Some(p) => if newer(s, p) { seq_diff(s, p) - 1 } else { 0 },
        None => 0,
    }
}

/// The number that follows `p` on the circle is applied after `p`, also
/// where it wraps from 65535 to 0, and nothing counts as lost.
pub proof fn lemma_successor_applies(p: u16)
    ensures
        verdict(Some(p), if p == u16::MAX { 0u16 } else { (p + 1) as u16 }) == Verdict::Apply,
        lost_between(Some(p), if p == u16::MAX { 0u16 } else { (p + 1) as u16 }) == 0,
{
}

/// Of two different numbers at most one is newer than the other, and
/// exactly one unless they lie half the circle apart.
pub proof fn lemma_newer_one_way(a: u16, b: u16)
    ensures
        !(newer(a, b) && newer(b, a)),
        !newer(a, a),
        a != b && seq_diff(a, b) != 32768 ==> newer(a, b) || newer(b, a),
{
}

/// Only a packet that is applied moves the last sequence number, and then
/// to its own; the same packet once more is never applied. While the
/// counters have room, each packet adds one to exactly one of `applied`,
/// `duplicate` and `out_of_order`, and what it skipped to `lost_estimate`.
pub proof fn lemma_after(t: SequenceTracker, seq: u16)
    requires
        t.has_room(),
    ensures
        t.after(seq).last_seq == (if verdict(t.last_seq, seq) == Verdict::Apply {
            Some(seq)
        } else {
            t.last_seq
        }),
        verdict(t.after(seq).last_seq, seq) != Verdict::Apply,
        t.after(seq).applied == t.applied + (if verdict(t.last_seq, seq) == Verdict::Apply {
            1int
        } else {
            0
        }),
        t.after(seq).duplicate == t.duplicate + (if verdict(t.last_seq, seq) == Verdict::Duplicate {
            1int
        } else {
            0
        }),
        t.after(seq).out_of_order == t.out_of_order + (if verdict(t.last_seq, seq)
            == Verdict::OutOfOrder {
            1int
        } else {
            0
        }),
        t.after(seq).lost_estimate == t.lost_estimate + lost_between(t.last_seq, seq),
        0 <= lost_between(t.last_seq, seq) <= MAX_GAP,
{
}

/// Most packets that one step can count as lost.
pub const MAX_GAP: u64 = 32766;

/// The last sequence number applied from one source, with counters of what
/// was seen. The counters are for display; no decision reads them.
#[derive(Clone, Copy, Debug, PartialEq, Eq)]
pub struct SequenceTracker {
    pub last_seq: Option<u16>,
    pub applied: u64,
    pub duplicate: u64,
    pub out_of_order: u64,
    pub lost_estimate: u64,
}

impl SequenceTracker {
    /// No counter is so close to `u64::MAX` that one more packet could
    /// overflow it.
    pub open spec fn has_room(&self) -> bool {
        &&& self.applied < u64::MAX
        &&& self.duplicate < u64::MAX
        &&& self.out_of_order < u64::MAX
        &&& self.lost_estimate <= u64::MAX - MAX_GAP
    }

    /// The tracker after a packet with sequence number `seq`, while the
    /// counters have room.
    ///
    /// The first packet is applied. After that a packet is applied when it is
    /// newer than the last one applied, and the packets skipped in between
    /// are added to `lost_estimate`. An equal number is a duplicate, any
    /// other one is out of order; neither moves `last_seq`.
    pub open spec fn after(self, seq: u16) -> SequenceTracker {
        match verdict(self.last_seq, seq) {
            Verdict::Apply => SequenceTracker {
                last_seq: Some(seq),
                applied: (self.applied + 1) as u64,
                lost_estimate: (self.lost_estimate + lost_between(self.last_seq, seq)) as u64,
                ..self
            },
            Verdict::Duplicate => SequenceTracker { duplicate: (self.duplicate + 1) as u64, ..self },
            Verdict::OutOfOrder => SequenceTracker {
                out_of_order: (self.out_of_order + 1) as u64,
                ..self
            },
        }
    }

    /// A tracker that has seen nothing.
    pub fn new() -> (t: Self)
        ensures
            t.last_seq.is_none(),
            t.applied == 0,
            t.duplicate == 0,
            t.out_of_order == 0,
            t.lost_estimate == 0,
            t.has_room(),
    {
        SequenceTracker { last_seq: None, applied: 0, duplicate: 0, out_of_order: 0, lost_estimate: 0 }
    }

    /// Whether one more packet can be counted: see [`Self::has_room`].
    pub fn can_count(&self) -> (r: bool)
        ensures
            r == self.has_room(),
    {
        self.applied < u64::MAX && self.duplicate < u64::MAX && self.out_of_order < u64::MAX
            && self.lost_estimate <= u64::MAX - MAX_GAP
    }

    /// Takes note of a packet with sequence number `seq` and says what to do
    /// with it: see [`verdict`] and [`Self::after`].
    pub fn observe(&mut self, seq: u16) -> (v: Verdict)
        requires
            old(self).has_room(),
        ensures
            v == verdict(old(self).last_seq, seq),
            *final(self) == old(self).after(seq),
    {
        let v = match self.last_seq {
            None => Verdict::Apply,
            Some(prev) => {
                if seq == prev {
                    self.duplicate += 1;
                    Verdict::Duplicate
                } else if is_newer_u16(seq, prev) {
                    let diff: u16 = seq.wrapping_sub(prev);
                    if diff > 1 {
                        self.lost_estimate += (diff - 1) as u64;
                    }
                    Verdict::Apply
                } else {
                    self.out_of_order += 1;
                    Verdict::OutOfOrder
                }
            },
        };
        if v == Verdict::Apply {
            self.last_seq = Some(seq);
            self.applied += 1;
        }
        v
    }
}

} // verus!
