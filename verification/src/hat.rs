//! From the two hat axes to the state of a virtual hat switch.

use vstd::prelude::*;

verus! {

/// Position of a hat switch with four directions.
#[derive(Clone, Copy, Debug, PartialEq, Eq, Structural)]
pub enum FourWayHat {
    Centered,
    North,
    East,
    South,
    West,
}

/// State of a hat switch: one of four directions, or an angle in hundredths
/// of a degree, clockwise from north, with `u32::MAX` for the centre.
#[derive(Clone, Copy, Debug, PartialEq, Eq, Structural)]
pub enum HatState {
    Discrete(FourWayHat),
    Continuous(u32),
}

/// The angle that stands for a centred continuous hat.
pub const HAT_CENTERED: u32 = u32::MAX;

/// -1, 0 or 1, by the sign of `v`.
pub open spec fn sign(v: int) -> int {
    if v < 0 { -1 } else if v > 0 { 1 } else { 0 }
}

/// The direction of a four-way hat. Up and down win over left and right, so
/// a diagonal becomes north or south. `y` grows downwards.
pub open spec fn four_way(x: int, y: int) -> FourWayHat {
    if y < 0 {
        FourWayHat::North
    } else if y > 0 {
        FourWayHat::South
    } else if x > 0 {
        FourWayHat::East
    } else if x < 0 {
        FourWayHat::West
    } else {
        FourWayHat::Centered
    }
}

/// The angle of a continuous hat in hundredths of a degree: eight directions
/// in steps of 45 degrees from north (0) clockwise, or `u32::MAX` at rest.
pub open spec fn angle(x: int, y: int) -> int {
    if x == 0 && y == 0 {
        u32::MAX as int
    } else if y < 0 {
        if x < 0 { 31500 } else if x == 0 { 0 } else { 4500 }
    } else if y == 0 {
        if x < 0 { 27000 } else { 9000 }
    } else {
        if x < 0 { 22500 } else if x == 0 { 18000 } else { 13500 }
    }
}

/// The hat state for the axes `x` and `y`, in the mode of `hat_mode`. Only
/// the signs of `x` and `y` count.
pub open spec fn hat_state(x: int, y: int, hat_mode: HatState) -> HatState {
    match hat_mode {
        HatState::Discrete(_) => HatState::Discrete(four_way(x, y)),
        HatState::Continuous(_) => HatState::Continuous(angle(x, y) as u32),
    }
}

fn clamp_unit(v: i8) -> (r: i8)
    ensures
        r as int == sign(v as int),
{
    if v < -1 {
        -1
    } else if v > 1 {
        1
    } else {
        v
    }
}

/// Turns the hat axes into a hat state of the same mode as `hat_mode`.
pub fn hatstate_from_xy(x: i8, y: i8, hat_mode: HatState) -> (r: HatState)
    ensures
        r == hat_state(x as int, y as int, hat_mode),
{
    let x = clamp_unit(x);
    let y = clamp_unit(y);
    match hat_mode {
        HatState::Discrete(_) => {
            let v = match (x, y) {
                (0, 0) => FourWayHat::Centered,
                (0, -1) => FourWayHat::North,
                (0, 1) => FourWayHat::South,
                (1, 0) => FourWayHat::East,
                (-1, 0) => FourWayHat::West,
                (1, -1) => FourWayHat::North,
                (-1, -1) => FourWayHat::North,
                (1, 1) => FourWayHat::South,
                (-1, 1) => FourWayHat::South,
                _ => FourWayHat::Centered,
            };
            HatState::Discrete(v)
        },
        HatState::Continuous(_) => {
            let angle_deg: u32 = match (x, y) {
                (0, 0) => {
                    return HatState::Continuous(HAT_CENTERED);
                },
                (0, -1) => 0,
                (1, -1) => 45,
                (1, 0) => 90,
                (1, 1) => 135,
                (0, 1) => 180,
                (-1, 1) => 225,
                (-1, 0) => 270,
                (-1, -1) => 315,
                _ => {
                    return HatState::Continuous(HAT_CENTERED);
                },
            };
            HatState::Continuous(angle_deg * 100)
        },
    }
}

} // verus!
