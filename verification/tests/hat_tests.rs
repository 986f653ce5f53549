use vkb_bridge::hat::{hatstate_from_xy, FourWayHat, HatState, HAT_CENTERED};

const DISCRETE: HatState = HatState::Discrete(FourWayHat::Centered);
const CONTINUOUS: HatState = HatState::Continuous(0);

#[test]
fn discrete_diagonals_become_north() {
    assert_eq!(hatstate_from_xy(1, -1, DISCRETE), HatState::Discrete(FourWayHat::North));
    assert_eq!(hatstate_from_xy(-1, -1, DISCRETE), HatState::Discrete(FourWayHat::North));
}

#[test]
fn discrete_centre() {
    assert_eq!(hatstate_from_xy(0, 0, DISCRETE), HatState::Discrete(FourWayHat::Centered));
    assert_eq!(
        hatstate_from_xy(0, 0, HatState::Discrete(FourWayHat::West)),
        HatState::Discrete(FourWayHat::Centered)
    );
}

#[test]
fn discrete_all_directions() {
    let d = |x, y| hatstate_from_xy(x, y, DISCRETE);
    assert_eq!(d(0, -1), HatState::Discrete(FourWayHat::North));
    assert_eq!(d(0, 1), HatState::Discrete(FourWayHat::South));
    assert_eq!(d(1, 0), HatState::Discrete(FourWayHat::East));
    assert_eq!(d(-1, 0), HatState::Discrete(FourWayHat::West));
    assert_eq!(d(1, 1), HatState::Discrete(FourWayHat::South));
    assert_eq!(d(-1, 1), HatState::Discrete(FourWayHat::South));
}

#[test]
fn continuous_east_and_centre() {
    assert_eq!(hatstate_from_xy(1, 0, CONTINUOUS), HatState::Continuous(9000));
    assert_eq!(hatstate_from_xy(0, 0, CONTINUOUS), HatState::Continuous(u32::MAX));
    assert_eq!(HAT_CENTERED, u32::MAX);
}

#[test]
fn continuous_all_directions() {
    let c = |x, y| hatstate_from_xy(x, y, HatState::Continuous(123));
    assert_eq!(c(0, -1), HatState::Continuous(0));
    assert_eq!(c(1, -1), HatState::Continuous(4500));
    assert_eq!(c(1, 1), HatState::Continuous(13500));
    assert_eq!(c(0, 1), HatState::Continuous(18000));
    assert_eq!(c(-1, 1), HatState::Continuous(22500));
    assert_eq!(c(-1, 0), HatState::Continuous(27000));
    assert_eq!(c(-1, -1), HatState::Continuous(31500));
}

#[test]
fn large_values_count_by_their_sign() {
    assert_eq!(hatstate_from_xy(127, -128, CONTINUOUS), HatState::Continuous(4500));
    assert_eq!(hatstate_from_xy(-128, 0, DISCRETE), HatState::Discrete(FourWayHat::West));
    assert_eq!(hatstate_from_xy(5, 9, DISCRETE), HatState::Discrete(FourWayHat::South));
}
