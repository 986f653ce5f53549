//! The snapshot of one physical device and the rules by which input events
//! change it.

use vstd::prelude::*;
use crate::bits::{lemma_with_button, pressed, with_button};
use crate::buttons::ButtonMap;
use crate::codes::{axis_codes, axis_table, event_of, hat_codes, summarize, HAT_X_CODE, HAT_Y_CODE};

verus! {

/// Latest known state of one physical device.
///
/// `buttons` is a set of 128 bits: button `id` (counted from 1) is bit
/// `(id - 1) % 8` of byte `(id - 1) / 8`. `revision` counts the changes of
/// state and wraps.
#[derive(Clone, Copy, Debug, PartialEq, Eq)]
pub struct SharedState {
    pub axes_raw: [i32; 8],
    pub hat_x: i8,
    pub hat_y: i8,
    pub buttons: [u8; 16],
    pub revision: u64,
}

/// A snapshot as mathematical value.
pub struct StateView {
    pub axes_raw: Seq<i32>,
    pub hat_x: i8,
    pub hat_y: i8,
    pub buttons: Seq<u8>,
    pub revision: u64,
}

impl StateView {
    /// Eight axes and sixteen bytes of buttons.
    pub open spec fn wf(self) -> bool {
        self.axes_raw.len() == 8 && self.buttons.len() == 16
    }

    /// Both hat axes are -1, 0 or 1.
    pub open spec fn hat_in_range(self) -> bool {
        -1 <= self.hat_x <= 1 && -1 <= self.hat_y <= 1
    }

    /// Axes, hat and buttons of `self` and `other` are the same; the
    /// revisions may differ.
    pub open spec fn same_controls(self, other: StateView) -> bool {
        &&& self.axes_raw == other.axes_raw
        &&& self.hat_x == other.hat_x
        &&& self.hat_y == other.hat_y
        &&& self.buttons == other.buttons
    }
}

impl View for SharedState {
    type V = StateView;

    open spec fn view(&self) -> StateView {
        StateView {
            axes_raw: self.axes_raw@,
            hat_x: self.hat_x,
            hat_y: self.hat_y,
            buttons: self.buttons@,
            revision: self.revision,
        }
    }
}

impl Default for SharedState {
    fn default() -> (st: Self)
        ensures
            st@.axes_raw == Seq::new(8, |i: int| 0i32),
            st@.hat_x == 0,
            st@.hat_y == 0,
            st@.buttons == Seq::new(16, |i: int| 0u8),
            st@.revision == 0,
            st@.wf(),
            st@.hat_in_range(),
    {
        let st = SharedState {
            axes_raw: [0i32; 8],
            hat_x: 0,
            hat_y: 0,
            buttons: [0u8; 16],
            revision: 0,
        };
        assert(st.axes_raw@ =~= Seq::new(8, |i: int| 0i32));
        assert(st.buttons@ =~= Seq::new(16, |i: int| 0u8));
        st
    }
}

/// One input event, sorted by what it speaks of.
#[derive(Clone, Copy, Debug, PartialEq, Eq, Structural)]
pub enum RawEvent {
    /// An absolute axis, hat axes included, took a value.
    AbsoluteAxis { code: u16, value: i32 },
    /// A key or button went down (`value` not zero) or up.
    Key { code: u16, value: i32 },
    /// Anything else.
    Other,
}

/// `v` held to -1, 0 or 1.
pub open spec fn unit(v: i32) -> i8 {
    if v < -1 { -1i8 } else if v > 1 { 1i8 } else { v as i8 }
}

/// The revision after `r`; it wraps.
pub open spec fn next_revision(r: u64) -> u64 {
    if r == u64::MAX { 0 } else { (r + 1) as u64 }
}

/// The slot of the axis with the given code, if it has one: the eight axes
/// that are sent have the codes 0 to 7, and each has the slot of its code.
pub open spec fn slot_of(code: u16) -> Option<int> {
    if code < 8 { Some(code as int) } else { None }
}

/// The snapshot after the hat's x axis reported `value`.
pub open spec fn after_hat_x(v: StateView, value: i32) -> StateView {
    if v.hat_x == unit(value) {
        v
    } else {
        StateView { hat_x: unit(value), revision: next_revision(v.revision), ..v }
    }
}

/// The snapshot after the hat's y axis reported `value`.
pub open spec fn after_hat_y(v: StateView, value: i32) -> StateView {
    if v.hat_y == unit(value) {
        v
    } else {
        StateView { hat_y: unit(value), revision: next_revision(v.revision), ..v }
    }
}

/// The snapshot after the axis in `slot` reported `value`.
pub open spec fn after_axis(v: StateView, slot: int, value: i32) -> StateView {
    if v.axes_raw[slot] == value {
        v
    } else {
        StateView {
            axes_raw: v.axes_raw.update(slot, value),
            revision: next_revision(v.revision),
            ..v
        }
    }
}

/// The snapshot after button `id` (from 1 to 128) went down or up.
pub open spec fn after_button(v: StateView, id: int, down: bool) -> StateView {
    if pressed(v.buttons, id) == down {
        v
    } else {
        StateView {
            buttons: with_button(v.buttons, id, down),
            revision: next_revision(v.revision),
            ..v
        }
    }
}

/// The snapshot after one event, where `ids` gives the button of each key.
///
/// The two hat axes are held to -1, 0 or 1. Another axis goes to its slot; an
/// axis without a slot and a key without a button change nothing.
pub open spec fn after_event(v: StateView, ev: RawEvent, ids: Map<u16, u8>) -> StateView {
    match ev {
        RawEvent::AbsoluteAxis { code, value } => if code == HAT_X_CODE {
            after_hat_x(v, value)
        } else if code == HAT_Y_CODE {
            after_hat_y(v, value)
        } else {
            match slot_of(code) {
                Some(slot) => after_axis(v, slot, value),
                None => v,
            }
        },
        RawEvent::Key { code, value } => if ids.contains_key(code) {
            after_button(v, ids[code] as int, value != 0)
        } else {
            v
        },
        RawEvent::Other => v,
    }
}

/// The revision counts the changes: an event that changes an axis, the hat
/// or a button moves the revision on by exactly one, and an event that
/// changes none of them leaves the whole snapshot as it was.
pub proof fn lemma_revision_counts_changes(v: StateView, ev: RawEvent, ids: Map<u16, u8>)
    requires
        v.wf(),
        forall|c: u16| #[trigger] ids.contains_key(c) ==> 1 <= ids[c] <= 128,
    ensures
        after_event(v, ev, ids).wf(),
        after_event(v, ev, ids).same_controls(v) ==> after_event(v, ev, ids) == v,
        !after_event(v, ev, ids).same_controls(v) ==> after_event(v, ev, ids).revision
            == next_revision(v.revision),
{
    let w = after_event(v, ev, ids);
    match ev {
        RawEvent::AbsoluteAxis { code, value } => {
            if code != HAT_X_CODE && code != HAT_Y_CODE {
                match slot_of(code) {
                    Some(slot) => {
                        if v.axes_raw[slot] != value {
                            assert(w.axes_raw[slot] == value);
                        }
                    },
                    None => {},
                }
            }
        },
        RawEvent::Key { code, value } => {
            if ids.contains_key(code) {
                let id = ids[code] as int;
                lemma_with_button(v.buttons, id, value != 0, id);
            }
        },
        RawEvent::Other => {},
    }
}

/// The snapshot after the event `ev` has come `n` times in a row.
pub open spec fn after_repeats(v: StateView, ev: RawEvent, ids: Map<u16, u8>, n: nat) -> StateView
    decreases n,
{
    if n == 0 {
        v
    } else {
        after_event(after_repeats(v, ev, ids, (n - 1) as nat), ev, ids)
    }
}

/// However often the same event comes in a row, the snapshot is as after
/// the first of them: the revision moves on at most once.
pub proof fn lemma_repeats(v: StateView, ev: RawEvent, ids: Map<u16, u8>, n: nat)
    requires
        v.wf(),
        forall|c: u16| #[trigger] ids.contains_key(c) ==> 1 <= ids[c] <= 128,
        n >= 1,
    ensures
        after_repeats(v, ev, ids, n) == after_event(v, ev, ids),
    decreases n,
{
    if n > 1 {
        lemma_repeats(v, ev, ids, (n - 1) as nat);
        lemma_repeated_event(v, ev, ids);
    } else {
        assert(after_repeats(v, ev, ids, 0) == v);
    }
}

/// An event leaves the hat axes within -1, 0 and 1.
pub proof fn lemma_event_keeps_hat_in_range(v: StateView, ev: RawEvent, ids: Map<u16, u8>)
    requires
        v.hat_in_range(),
    ensures
        after_event(v, ev, ids).hat_in_range(),
{
}

/// The same event a second time changes nothing, the revision included.
pub proof fn lemma_repeated_event(v: StateView, ev: RawEvent, ids: Map<u16, u8>)
    requires
        v.wf(),
        forall|c: u16| #[trigger] ids.contains_key(c) ==> 1 <= ids[c] <= 128,
    ensures
        after_event(after_event(v, ev, ids), ev, ids) == after_event(v, ev, ids),
{
    let w = after_event(v, ev, ids);
    match ev {
        RawEvent::AbsoluteAxis { code, value } => {
            if code != HAT_X_CODE && code != HAT_Y_CODE {
                match slot_of(code) {
                    Some(slot) => {
                        assert(w.axes_raw[slot] == value);
                    },
                    None => {},
                }
            }
        },
        RawEvent::Key { code, value } => {
            if ids.contains_key(code) {
                let id = ids[code] as int;
                lemma_with_button(v.buttons, id, value != 0, id);
            }
        },
        RawEvent::Other => {},
    }
}

/// Holds a hat value to -1, 0 or 1.
pub fn clamp_hat(value: i32) -> (r: i8)
    ensures
        r == unit(value),
{
    if value < -1 {
        -1
    } else if value > 1 {
        1
    } else {
        value as i8
    }
}

/// The slot of the axis with the given code: its place among the eight axes
/// that are sent, X, Y, Z, RX, RY, RZ, throttle and rudder.
pub fn axis_slot(code: u16) -> (r: Option<usize>)
    ensures
        match r {
            Some(slot) => slot_of(code) == Some(slot as int) && slot < 8 && axis_table()[slot as int]
                == code,
            None => slot_of(code).is_none(),
        },
{
    let table = axis_codes();
    let mut i: usize = 0;
    while i < 8
        invariant
            i <= 8,
            table@ == axis_table(),
            forall|k: int| 0 <= k < i ==> axis_table()[k] != code,
        decreases 8 - i,
    {
        if table[i] == code {
            return Some(i);
        }
        i += 1;
    }
    None
}

/// Byte and bit of button `btn_id_1_based` in the button set: button 1 is
/// bit 0 of byte 0, button 9 is bit 0 of byte 1.
pub fn button_bitpos(btn_id_1_based: u8) -> (pos: (usize, u8))
    requires
        btn_id_1_based >= 1,
    ensures
        pos.0 == (btn_id_1_based - 1) / 8,
        pos.1 == (btn_id_1_based - 1) % 8,
{
    let zero_based: usize = (btn_id_1_based - 1) as usize;
    (zero_based / 8, (zero_based % 8) as u8)
}

impl SharedState {
    /// Takes a value of the hat's x axis. Says whether the state changed.
    pub fn set_hat_x(&mut self, value: i32) -> (changed: bool)
        ensures
            final(self)@ == after_hat_x(old(self)@, value),
            changed == (old(self)@.hat_x != unit(value)),
    {
        let v = clamp_hat(value);
        if self.hat_x != v {
            self.hat_x = v;
            self.revision = self.revision.wrapping_add(1);
            true
        } else {
            false
        }
    }

    /// Takes a value of the hat's y axis. Says whether the state changed.
    pub fn set_hat_y(&mut self, value: i32) -> (changed: bool)
        ensures
            final(self)@ == after_hat_y(old(self)@, value),
            changed == (old(self)@.hat_y != unit(value)),
    {
        let v = clamp_hat(value);
        if self.hat_y != v {
            self.hat_y = v;
            self.revision = self.revision.wrapping_add(1);
            true
        } else {
            false
        }
    }

    /// Takes a raw value of the axis in `slot`. Says whether the state
    /// changed.
    pub fn set_axis(&mut self, slot: usize, value: i32) -> (changed: bool)
        requires
            slot < 8,
        ensures
            final(self)@ == after_axis(old(self)@, slot as int, value),
            changed == (old(self)@.axes_raw[slot as int] != value),
    {
        if self.axes_raw[slot] != value {
            self.axes_raw[slot] = value;
            self.revision = self.revision.wrapping_add(1);
            true
        } else {
            false
        }
    }

    /// Button `btn_id` (from 1 to 128) is down.
    pub fn button(&self, btn_id: u8) -> (down: bool)
        requires
            1 <= btn_id <= 128,
        ensures
            down == pressed(self@.buttons, btn_id as int),
    {
        let (byte_i, bit_i) = button_bitpos(btn_id);
        (self.buttons[byte_i] >> bit_i) & 1 == 1
    }

    /// Takes the new position of button `btn_id` (from 1 to 128). Says
    /// whether the state changed.
    pub fn set_button(&mut self, btn_id: u8, down: bool) -> (changed: bool)
        requires
            1 <= btn_id <= 128,
        ensures
            final(self)@ == after_button(old(self)@, btn_id as int, down),
            changed == (pressed(old(self)@.buttons, btn_id as int) != down),
    {
        let (byte_i, bit_i) = button_bitpos(btn_id);
        let b: u8 = self.buttons[byte_i];
        let was_down = (b >> bit_i) & 1 == 1;
        if was_down != down {
            if down {
                self.buttons[byte_i] = b | (1u8 << bit_i);
            } else {
                self.buttons[byte_i] = b & !(1u8 << bit_i);
            }
            self.revision = self.revision.wrapping_add(1);
            assert(self@.buttons =~= with_button(old(self)@.buttons, btn_id as int, down));
            true
        } else {
            false
        }
    }

    /// Takes one event. Says whether the state changed.
    pub fn apply_event(&mut self, ev: RawEvent, button_map: &ButtonMap) -> (changed: bool)
        ensures
            final(self)@ == after_event(old(self)@, ev, button_map@),
            changed == !final(self)@.same_controls(old(self)@),
    {
        let (hat_x_code, hat_y_code) = hat_codes();
        match ev {
            RawEvent::AbsoluteAxis { code, value } => {
                if code == hat_x_code {
                    self.set_hat_x(value)
                } else if code == hat_y_code {
                    self.set_hat_y(value)
                } else {
                    match axis_slot(code) {
                        Some(slot) => {
                            let changed = self.set_axis(slot, value);
                            proof {
                                if changed {
                                    assert(self@.axes_raw[slot as int] != old(self)@.axes_raw[slot as int]);
                                }
                            }
                            changed
                        },
                        None => false,
                    }
                }
            },
            RawEvent::Key { code, value } => {
                match button_map.get(code) {
                    Some(btn_id) => {
                        let changed = self.set_button(btn_id, value != 0);
                        proof {
                            if changed {
                                lemma_with_button(
                                    old(self)@.buttons,
                                    btn_id as int,
                                    value != 0,
                                    btn_id as int,
                                );
                            }
                        }
                        changed
                    },
                    None => false,
                }
            },
            RawEvent::Other => false,
        }
    }

    /// Takes one event as the kernel hands it out, by type, code and value.
    /// Says whether the state changed.
    pub fn apply_input(
        &mut self,
        event_type: u16,
        code: u16,
        value: i32,
        button_map: &ButtonMap,
    ) -> (changed: bool)
        ensures
            final(self)@ == after_event(old(self)@, event_of(event_type, code, value), button_map@),
            changed == !final(self)@.same_controls(old(self)@),
    {
        let ev = summarize(event_type, code, value);
        self.apply_event(ev, button_map)
    }
}

} // verus!
