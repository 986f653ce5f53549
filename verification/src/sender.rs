//! The sending side: when to send, and what.

use vstd::prelude::*;
use crate::axis::AxisRange;
use crate::state::SharedState;
use crate::wire::{encode_vkb2, frame, packet_of};

verus! {

/// Nanoseconds in a second.
pub const NANOS_PER_SEC: u64 = 1_000_000_000;

/// The sequence number of the first frame that a sender sends.
pub const FIRST_SEQ: u16 = 0;

/// The sequence number after `seq`; it wraps.
pub open spec fn next_seq(seq: u16) -> u16 {
    if seq == u16::MAX { 0 } else { (seq + 1) as u16 }
}

/// The sequence number of frame `n` of a sender, counted from 0: the first
/// frame has `FIRST_SEQ`, and each frame after it the number that follows.
pub open spec fn nth_seq(n: nat) -> u16
    decreases n,
{
    if n == 0 { FIRST_SEQ } else { next_seq(nth_seq((n - 1) as nat)) }
}

/// Sequence numbers start at 0, go up by one with each frame and wrap after
/// 65535: frame `n` has the number `n` modulo 65536.
pub proof fn lemma_nth_seq(n: nat)
    ensures
        nth_seq(n) == n % 65536,
    decreases n,
{
    if n > 0 {
        lemma_nth_seq((n - 1) as nat);
    }
}

/// The time between two frames at `send_hz` frames a second, in nanoseconds
/// and rounded down, but never zero.
pub open spec fn period_of(send_hz: u64) -> int {
    if NANOS_PER_SEC / send_hz >= 1 { (NANOS_PER_SEC / send_hz) as int } else { 1 }
}

/// The time between two frames: see [`period_of`].
pub fn period_nanos(send_hz: u64) -> (period: u64)
    requires
        send_hz > 0,
    ensures
        period == period_of(send_hz),
        period >= 1,
{
    let p: u64 = NANOS_PER_SEC / send_hz;
    if p >= 1 {
        p
    } else {
        1
    }
}

/// What the sender does when a tick's work is done.
#[derive(Clone, Copy, Debug, PartialEq, Eq, Structural)]
pub struct Wake {
    /// How long to sleep, in nanoseconds.
    pub sleep_nanos: u64,
    /// The time from which the next tick is counted.
    pub next: u64,
}

/// Decides how long to sleep at time `now` when the tick after this one is
/// due at `next`. Before `next` the sender sleeps until then. At or after
/// `next` it does not sleep and counts on from `now`: a tick that was missed
/// is not made up for.
pub fn plan_wake(next: u64, now: u64) -> (w: Wake)
    ensures
        next > now ==> w.sleep_nanos == next - now && w.next == next,
        next <= now ==> w.sleep_nanos == 0 && w.next == now,
{
    if next > now {
        Wake { sleep_nanos: next - now, next }
    } else {
        Wake { sleep_nanos: 0, next: now }
    }
}

/// The clock of the sender. Times are nanoseconds since some fixed moment.
#[derive(Clone, Copy, Debug, PartialEq, Eq, Structural)]
pub struct Pacer {
    /// Time between two ticks.
    pub period: u64,
    /// When the tick after the current one is due.
    pub next: u64,
}

impl Pacer {
    /// A pacer for `send_hz` ticks a second that starts counting at `now`.
    pub fn new(send_hz: u64, now: u64) -> (p: Self)
        requires
            send_hz > 0,
        ensures
            p.period == period_of(send_hz),
            p.next == now,
    {
        Pacer { period: period_nanos(send_hz), next: now }
    }

    /// Whether the next due time still fits the clock.
    pub fn can_begin(&self) -> (r: bool)
        ensures
            r == (self.next + self.period <= u64::MAX),
    {
        self.period <= u64::MAX - self.next
    }

    /// Starts a tick: the due time moves on by one period, counted from the
    /// last due time and not from the present, so that lateness does not add
    /// up.
    pub fn begin_tick(&mut self)
        requires
            old(self).next + old(self).period <= u64::MAX,
        ensures
            final(self).next == old(self).next + old(self).period,
            final(self).period == old(self).period,
    {
        self.next = self.next + self.period;
    }

    /// Ends a tick at time `now` and says how long to sleep: see
    /// [`plan_wake`].
    pub fn end_tick(&mut self, now: u64) -> (sleep_nanos: u64)
        ensures
            final(self).period == old(self).period,
            old(self).next > now ==> sleep_nanos == old(self).next - now && final(self).next == old(
                self,
            ).next,
            old(self).next <= now ==> sleep_nanos == 0 && final(self).next == now,
    {
        let w = plan_wake(self.next, now);
        self.next = w.next;
        w.sleep_nanos
    }
}

/// Writes the frame of a snapshot under the sequence number `*seq` into
/// `buf` and moves `*seq` on by one. A sender starts with `FIRST_SEQ`.
pub fn emit(buf: &mut [u8; 42], seq: &mut u16, st: &SharedState, ranges: &[AxisRange; 8])
    ensures
        final(buf)@ == frame(packet_of(*old(seq), st@, ranges@)),
        *final(seq) == next_seq(*old(seq)),
{
    encode_vkb2(buf, *seq, st, ranges);
    *seq = seq.wrapping_add(1);
}

} // verus!
