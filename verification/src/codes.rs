//! The kernel's input codes, as the `evdev` crate names them.

use vstd::prelude::*;
use evdev::{AbsoluteAxisCode, EventSummary, InputEvent};
use crate::state::RawEvent;

verus! {

/// Event type of keys and buttons.
pub const KEY_EVENT: u16 = 1;

/// Event type of absolute axes.
pub const ABSOLUTE_EVENT: u16 = 3;

/// Code of the first hat's x axis.
pub const HAT_X_CODE: u16 = 0x10;

/// Code of the first hat's y axis.
pub const HAT_Y_CODE: u16 = 0x11;

/// The codes of the eight axes that are sent, in the order of their slots:
/// X, Y, Z, RX, RY, RZ, throttle, rudder.
pub open spec fn axis_table() -> Seq<u16> {
    seq![0u16, 1u16, 2u16, 3u16, 4u16, 5u16, 6u16, 7u16]
}

/// The event that a triple of type, code and value stands for: an absolute
/// axis for type 3, a key for type 1, and nothing of interest otherwise.
pub open spec fn event_of(event_type: u16, code: u16, value: i32) -> RawEvent {
    if event_type == ABSOLUTE_EVENT {
        RawEvent::AbsoluteAxis { code, value }
    } else if event_type == KEY_EVENT {
        RawEvent::Key { code, value }
    } else {
        RawEvent::Other
    }
}

/// The constants `ABS_X`, `ABS_Y`, `ABS_Z`, `ABS_RX`, `ABS_RY`, `ABS_RZ`,
/// `ABS_THROTTLE` and `ABS_RUDDER` of `evdev::AbsoluteAxisCode`, as numbers.
/// Trusted: that they are 0 to 7 in this order.
#[verifier::external_body]
pub(crate) fn axis_codes() -> (t: [u16; 8])
    ensures
        t@ == axis_table(),
{
    [
        AbsoluteAxisCode::ABS_X.0,
        AbsoluteAxisCode::ABS_Y.0,
        AbsoluteAxisCode::ABS_Z.0,
        AbsoluteAxisCode::ABS_RX.0,
        AbsoluteAxisCode::ABS_RY.0,
        AbsoluteAxisCode::ABS_RZ.0,
        AbsoluteAxisCode::ABS_THROTTLE.0,
        AbsoluteAxisCode::ABS_RUDDER.0,
    ]
}

/// The constants `ABS_HAT0X` and `ABS_HAT0Y` of `evdev::AbsoluteAxisCode`, as
/// numbers. Trusted: that they are 16 and 17.
#[verifier::external_body]
pub(crate) fn hat_codes() -> (t: (u16, u16))
    ensures
        t.0 == HAT_X_CODE,
        t.1 == HAT_Y_CODE,
{
    (AbsoluteAxisCode::ABS_HAT0X.0, AbsoluteAxisCode::ABS_HAT0Y.0)
}

/// `evdev::InputEvent::new` followed by `destructure`: sorts an event by its
/// type. Trusted: that type 3 gives `AbsoluteAxis` and type 1 gives `Key`,
/// each with the event's code and value unchanged, and that every other type
/// gives another variant.
#[verifier::external_body]
pub(crate) fn summarize(event_type: u16, code: u16, value: i32) -> (ev: RawEvent)
    ensures
        ev == event_of(event_type, code, value),
{
    match InputEvent::new(event_type, code, value).destructure() {
        EventSummary::AbsoluteAxis(_, axis, v) => RawEvent::AbsoluteAxis { code: axis.0, value: v },
        EventSummary::Key(_, key, v) => RawEvent::Key { code: key.code(), value: v },
        _ => RawEvent::Other,
    }
}

} // verus!
