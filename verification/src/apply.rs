//! The receiving side: from a datagram to the writes on the virtual device.

use vstd::prelude::*;
use crate::bits::{
    bit_is_set, lemma_mask_test, lemma_same_buttons, lemma_with_button, lemma_xor_bit, pressed,
    with_button,
};
use crate::sequence::{verdict, SequenceTracker, Verdict};
use crate::hat::{hat_state, hatstate_from_xy, HatState};
use crate::wire::{decode_vkb2, decoded, DecodeError};

verus! {

/// One write of a button of the virtual device.
#[derive(Clone, Copy, Debug, PartialEq, Eq, Structural)]
pub struct ButtonWrite {
    /// Number of the button, from 1 to 128.
    pub id: u8,
    /// The button is down.
    pub down: bool,
}

/// The writes that bring the buttons 1 to `n` from `last` to `new`: one for
/// each button whose position differs, in ascending order of the buttons.
pub open spec fn writes_upto(new: Seq<u8>, last: Seq<u8>, n: nat) -> Seq<ButtonWrite>
    decreases n,
{
    if n == 0 {
        Seq::empty()
    } else {
        let before = writes_upto(new, last, (n - 1) as nat);
        if pressed(new, n as int) != pressed(last, n as int) {
            before.push(ButtonWrite { id: n as u8, down: pressed(new, n as int) })
        } else {
            before
        }
    }
}

/// The writes that bring all 128 buttons from `last` to `new`.
pub open spec fn button_writes(new: Seq<u8>, last: Seq<u8>) -> Seq<ButtonWrite> {
    writes_upto(new, last, 128)
}

/// The button set after the writes `ws`, in their order, on `buttons`.
pub open spec fn after_writes(buttons: Seq<u8>, ws: Seq<ButtonWrite>) -> Seq<u8>
    decreases ws.len(),
{
    if ws.len() == 0 {
        buttons
    } else {
        with_button(after_writes(buttons, ws.drop_last()), ws.last().id as int, ws.last().down)
    }
}

/// Bytewise exclusive or of two button sets.
pub fn xor_16(a: [u8; 16], b: [u8; 16]) -> (out: [u8; 16])
    ensures
        forall|i: int| 0 <= i < 16 ==> out@[i] == a@[i] ^ b@[i],
{
    let mut out = [0u8; 16];
    let mut i: usize = 0;
    while i < 16
        invariant
            i <= 16,
            forall|k: int| 0 <= k < i ==> out@[k] == a@[k] ^ b@[k],
        decreases 16 - i,
    {
        out[i] = a[i] ^ b[i];
        i += 1;
    }
    out
}

/// Buttons that do not differ add no write.
proof fn lemma_no_writes(new: Seq<u8>, last: Seq<u8>, from: nat, to: nat)
    requires
        from <= to,
        forall|n: int| from < n <= to ==> pressed(new, n) == pressed(last, n),
    ensures
        writes_upto(new, last, to) == writes_upto(new, last, from),
    decreases to - from,
{
    if from < to {
        lemma_no_writes(new, last, from, (to - 1) as nat);
    }
}

/// The writes for the buttons 1 to `n` bring these buttons to their
/// position in `new` and leave the others as they are in `last`.
proof fn lemma_writes_upto(new: Seq<u8>, last: Seq<u8>, n: nat)
    requires
        new.len() == 16,
        last.len() == 16,
        n <= 128,
    ensures
        after_writes(last, writes_upto(new, last, n)).len() == 16,
        forall|id: int|
            1 <= id <= n ==> pressed(after_writes(last, writes_upto(new, last, n)), id) == pressed(
                new,
                id,
            ),
        forall|id: int|
            n < id <= 128 ==> pressed(after_writes(last, writes_upto(new, last, n)), id)
                == pressed(last, id),
    decreases n,
{
    if n > 0 {
        lemma_writes_upto(new, last, (n - 1) as nat);
        let before = writes_upto(new, last, (n - 1) as nat);
        let mid = after_writes(last, before);
        if pressed(new, n as int) != pressed(last, n as int) {
            let w = ButtonWrite { id: n as u8, down: pressed(new, n as int) };
            assert(before.push(w).drop_last() =~= before);
            let now = after_writes(last, before.push(w));
            assert(now == with_button(mid, n as int, w.down));
            assert forall|id: int| 1 <= id <= 128 implies pressed(now, id) == (if id == n {
                w.down
            } else {
                pressed(mid, id)
            }) by {
                lemma_with_button(mid, n as int, w.down, id);
            }
        }
    }
}

/// The writes are complete: made in their order on the buttons as they were
/// written last, they give the new buttons.
pub proof fn lemma_writes_reach_new(new: Seq<u8>, last: Seq<u8>)
    requires
        new.len() == 16,
        last.len() == 16,
    ensures
        after_writes(last, button_writes(new, last)) == new,
{
    lemma_writes_upto(new, last, 128);
    lemma_same_buttons(after_writes(last, button_writes(new, last)), new);
}

/// Every write is for a button that differs: its number lies between 1 and
/// 128, the button's position in `new` is the one written, and in `last` it
/// is the other one.
pub proof fn lemma_writes_are_changes(new: Seq<u8>, last: Seq<u8>, n: nat, i: int)
    requires
        n <= 128,
        0 <= i < writes_upto(new, last, n).len(),
    ensures
        1 <= writes_upto(new, last, n)[i].id <= n,
        writes_upto(new, last, n)[i].down == pressed(new, writes_upto(new, last, n)[i].id as int),
        writes_upto(new, last, n)[i].down != pressed(last, writes_upto(new, last, n)[i].id as int),
    decreases n,
{
    if n > 0 {
        let before = writes_upto(new, last, (n - 1) as nat);
        if i < before.len() {
            lemma_writes_are_changes(new, last, (n - 1) as nat, i);
        }
    }
}

/// Two button sets that differ in one button give one write, for that
/// button.
pub proof fn lemma_single_change(new: Seq<u8>, last: Seq<u8>, id: int)
    requires
        1 <= id <= 128,
        pressed(new, id) != pressed(last, id),
        forall|n: int| 1 <= n <= 128 && n != id ==> pressed(new, n) == pressed(last, n),
    ensures
        button_writes(new, last) == seq![ButtonWrite { id: id as u8, down: pressed(new, id) }],
{
    lemma_no_writes(new, last, 0, (id - 1) as nat);
    lemma_no_writes(new, last, id as nat, 128);
    assert(writes_upto(new, last, 0) =~= Seq::<ButtonWrite>::empty());
    assert(writes_upto(new, last, id as nat) =~= seq![
        ButtonWrite { id: id as u8, down: pressed(new, id) },
    ]);
}

/// Equal button sets give no write.
pub proof fn lemma_no_change(buttons: Seq<u8>)
    ensures
        button_writes(buttons, buttons) == Seq::<ButtonWrite>::empty(),
{
    lemma_no_writes(buttons, buttons, 0, 128);
}

/// The button writes that lead from `last` to `new`: see [`button_writes`].
pub fn button_changes(new: &[u8; 16], last: &[u8; 16]) -> (out: Vec<ButtonWrite>)
    ensures
        out@ == button_writes(new@, last@),
{
    let delta = xor_16(*new, *last);
    let mut out: Vec<ButtonWrite> = Vec::new();
    let mut byte_i: usize = 0;
    while byte_i < 16
        invariant
            byte_i <= 16,
            forall|i: int| 0 <= i < 16 ==> delta@[i] == new@[i] ^ last@[i],
            out@ == writes_upto(new@, last@, (8 * byte_i) as nat),
        decreases 16 - byte_i,
    {
        let changed: u8 = delta[byte_i];
        if changed == 0 {
            proof {
                assert forall|n: int| 8 * byte_i < n <= 8 * byte_i + 8 implies pressed(new@, n)
                    == pressed(last@, n) by {
                    let k = ((n - 1) % 8) as u8;
                    assert((n - 1) / 8 == byte_i);
                    lemma_xor_bit(new@[byte_i as int], last@[byte_i as int], k);
                    assert(!bit_is_set(0u8, k)) by (bit_vector);
                }
                lemma_no_writes(new@, last@, (8 * byte_i) as nat, (8 * byte_i + 8) as nat);
            }
            byte_i += 1;
            continue;
        }
        let mut bit: u8 = 0;
        while bit < 8
            invariant
                bit <= 8,
                byte_i < 16,
                changed == new@[byte_i as int] ^ last@[byte_i as int],
                out@ == writes_upto(new@, last@, (8 * byte_i + bit) as nat),
            decreases 8 - bit,
        {
            let n: Ghost<int> = Ghost(8 * byte_i + bit + 1);
            proof {
                assert((n@ - 1) / 8 == byte_i);
                assert((n@ - 1) % 8 == bit);
                lemma_mask_test(changed, bit);
                lemma_xor_bit(new@[byte_i as int], last@[byte_i as int], bit);
                lemma_mask_test(new@[byte_i as int], bit);
            }
            if changed & (1u8 << bit) != 0 {
                let id: u8 = (byte_i * 8 + bit as usize + 1) as u8;
                let down = new[byte_i] & (1u8 << bit) != 0;
                out.push(ButtonWrite { id, down });
            }
            bit += 1;
        }
        byte_i += 1;
    }
    out
}

/// What to write to the virtual device for one accepted packet.
#[derive(Debug, PartialEq, Eq)]
pub struct Update {
    /// The value of each axis; slot `i` goes to the device's axis `i + 1`.
    pub axes: [u16; 8],
    /// The state of the first hat, where the device has one.
    pub hat: Option<HatState>,
    /// The buttons that changed, in ascending order.
    pub buttons: Vec<ButtonWrite>,
}

/// What became of one datagram.
#[derive(Debug, PartialEq, Eq)]
pub enum Outcome {
    /// It is no frame.
    Bad(DecodeError),
    /// It repeats the packet applied last.
    Duplicate,
    /// It is older than the packet applied last.
    OutOfOrder,
    /// It is to be applied.
    Apply(Update),
}

/// The state of the receiving side for one source.
#[derive(Clone, Copy, Debug, PartialEq, Eq)]
pub struct Receiver {
    pub tracker: SequenceTracker,
    /// The buttons as they were written last.
    pub last_buttons: [u8; 16],
    /// Datagrams seen.
    pub received: u64,
    /// Datagrams that were no frame.
    pub bad: u64,
}

impl Receiver {
    /// No counter is so close to `u64::MAX` that one more datagram could
    /// overflow it.
    pub open spec fn has_room(&self) -> bool {
        self.tracker.has_room() && self.received < u64::MAX && self.bad < u64::MAX
    }

    /// A receiver that has seen nothing; all buttons count as up.
    pub fn new() -> (r: Self)
        ensures
            r.tracker.last_seq.is_none(),
            r.tracker.applied == 0,
            r.tracker.duplicate == 0,
            r.tracker.out_of_order == 0,
            r.tracker.lost_estimate == 0,
            r.last_buttons@ == Seq::new(16, |i: int| 0u8),
            r.received == 0,
            r.bad == 0,
            r.has_room(),
    {
        let r = Receiver {
            tracker: SequenceTracker::new(),
            last_buttons: [0u8; 16],
            received: 0,
            bad: 0,
        };
        assert(r.last_buttons@ =~= Seq::new(16, |i: int| 0u8));
        r
    }

    /// Whether one more datagram can be counted: see [`Self::has_room`].
    pub fn can_count(&self) -> (r: bool)
        ensures
            r == self.has_room(),
    {
        self.tracker.can_count() && self.received < u64::MAX && self.bad < u64::MAX
    }

    /// Takes one datagram and says what to write to the virtual device.
    ///
    /// A datagram that is no frame is counted as bad and changes nothing
    /// else. A frame goes to the sequence tracker. Where the tracker lets it
    /// through, the result holds its axes, the hat state in the mode of
    /// `hat_mode` if `hats_enabled`, and one write for each button that
    /// differs from what was written last; the packet's buttons are then
    /// remembered as written.
    pub fn handle(&mut self, data: &[u8], hat_mode: HatState, hats_enabled: bool) -> (out: Outcome)
        requires
            old(self).has_room(),
        ensures
            final(self).received == old(self).received + 1,
            match decoded(data@) {
                Err(e) => {
                    &&& out == Outcome::Bad(e)
                    &&& final(self).bad == old(self).bad + 1
                    &&& final(self).tracker == old(self).tracker
                    &&& final(self).last_buttons == old(self).last_buttons
                },
                Ok(p) => {
                    &&& final(self).bad == old(self).bad
                    &&& final(self).tracker == old(self).tracker.after(p.seq)
                    &&& match verdict(old(self).tracker.last_seq, p.seq) {
                        Verdict::Duplicate => {
                            &&& out == Outcome::Duplicate
                            &&& final(self).last_buttons == old(self).last_buttons
                        },
                        Verdict::OutOfOrder => {
                            &&& out == Outcome::OutOfOrder
                            &&& final(self).last_buttons == old(self).last_buttons
                        },
                        Verdict::Apply => {
                            &&& final(self).last_buttons@ == p.buttons
                            &&& out matches Outcome::Apply(u)
                            &&& u.axes@ == p.axes
                            &&& u.hat == (if hats_enabled {
                                Some(hat_state(p.hat_x as int, p.hat_y as int, hat_mode))
                            } else {
                                None
                            })
                            &&& u.buttons@ == button_writes(p.buttons, old(self).last_buttons@)
                        },
                    }
                },
            },
    {
        self.received += 1;
        let pkt = match decode_vkb2(data) {
            Ok(p) => p,
            Err(e) => {
                self.bad += 1;
                return Outcome::Bad(e);
            },
        };
        match self.tracker.observe(pkt.seq) {
            Verdict::Duplicate => Outcome::Duplicate,
            Verdict::OutOfOrder => Outcome::OutOfOrder,
            Verdict::Apply => {
                let hat = if hats_enabled {
                    Some(hatstate_from_xy(pkt.hat_x, pkt.hat_y, hat_mode))
                } else {
                    None
                };
                let buttons = button_changes(&pkt.buttons, &self.last_buttons);
                self.last_buttons = pkt.buttons;
                Outcome::Apply(Update { axes: pkt.axes, hat, buttons })
            },
        }
    }
}

} // verus!
