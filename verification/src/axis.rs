//! Axis calibration and scaling.

use vstd::prelude::*;
use vstd::arithmetic::div_mod::{lemma_div_is_ordered, lemma_div_multiples_vanish, lemma_div_pos_is_pos};
use std::collections::HashMap;
use crate::codes::{axis_codes, axis_table};

verus! {

/// Largest value of a scaled axis.
pub const VJOY_AXIS_MAX: u16 = 0x8000;

/// Raw limits of one axis, as the device reports them.
#[derive(Clone, Copy, Debug, PartialEq, Eq, Structural)]
pub struct AxisRange {
    pub min: i32,
    pub max: i32,
}

impl Default for AxisRange {
    fn default() -> (r: Self)
        ensures
            r.min == 0,
            r.max == 0,
    {
        AxisRange { min: 0, max: 0 }
    }
}

/// The scaled value of `raw` for the limits `min` and `max`.
///
/// A range of one point gives the midpoint. Otherwise the value is
/// `(raw - min) * 32768 / (max - min)`, rounded towards zero and then held to
/// `0..=32768`. Where numerator and denominator differ in sign the quotient
/// is at most zero, so the result is zero.
pub open spec fn normalized(raw: int, min: int, max: int) -> int {
    let num = (raw - min) * 32768;
    let den = max - min;
    if den == 0 {
        16384
    } else if num >= 0 && den > 0 {
        if num / den > 32768 { 32768 } else { num / den }
    } else if num <= 0 && den < 0 {
        if (-num) / (-den) > 32768 { 32768 } else { (-num) / (-den) }
    } else {
        0
    }
}

/// A scaled value lies between 0 and 32768, whatever the raw value and the
/// range.
pub proof fn lemma_normalized_bounded(raw: int, min: int, max: int)
    ensures
        0 <= normalized(raw, min, max) <= 32768,
{
    let num = (raw - min) * 32768;
    let den = max - min;
    if num >= 0 && den > 0 {
        lemma_div_pos_is_pos(num, den);
    } else if num <= 0 && den < 0 {
        lemma_div_pos_is_pos(-num, -den);
    }
}

/// Scaling never turns the order of two raw values round: of two raw values
/// under a range with `min <= max`, the larger one scales to at least as
/// much as the smaller one.
pub proof fn lemma_normalized_monotonic(raw1: int, raw2: int, min: int, max: int)
    requires
        min <= max,
        raw1 <= raw2,
    ensures
        normalized(raw1, min, max) <= normalized(raw2, min, max),
{
    let den = max - min;
    if den > 0 {
        let n1 = (raw1 - min) * 32768;
        let n2 = (raw2 - min) * 32768;
        lemma_normalized_bounded(raw1, min, max);
        lemma_normalized_bounded(raw2, min, max);
        if n1 >= 0 {
            lemma_div_is_ordered(n1, n2, den);
        }
    }
}

/// The lower end of a range scales to 0 and the upper end to 32768.
pub proof fn lemma_normalized_ends(min: int, max: int)
    requires
        min < max,
    ensures
        normalized(min, min, max) == 0,
        normalized(max, min, max) == 32768,
{
    let den = max - min;
    assert(0int / den == 0) by {
        lemma_div_multiples_vanish(0, den);
        assert(den * 0 == 0);
    }
    assert(((max - min) * 32768) / den == 32768) by {
        lemma_div_multiples_vanish(32768, den);
        assert(den * 32768 == (max - min) * 32768);
    }
}

/// Under a range of one point every raw value scales to the midpoint.
pub proof fn lemma_normalized_point(raw: int, at: int)
    ensures
        normalized(raw, at, at) == 16384,
{
}

/// Scales `raw` from the range `r` to `0..=32768`.
pub fn normalize_axis(raw: i32, r: AxisRange) -> (out: u16)
    ensures
        out as int == normalized(raw as int, r.min as int, r.max as int),
        out <= VJOY_AXIS_MAX,
{
    if r.max == r.min {
        return VJOY_AXIS_MAX / 2;
    }
    let num: i64 = (raw as i64 - r.min as i64) * 32768;
    let den: i64 = r.max as i64 - r.min as i64;
    let q: u64 = if num >= 0 && den > 0 {
        (num as u64) / (den as u64)
    } else if num <= 0 && den < 0 {
        ((-num) as u64) / ((-den) as u64)
    } else {
        0
    };
    if q > 32768 {
        VJOY_AXIS_MAX
    } else {
        q as u16
    }
}

/// What a device reports of one absolute axis.
#[derive(Clone, Copy, Debug, PartialEq, Eq, Structural)]
pub struct AxisInfo {
    pub code: u16,
    pub min: i32,
    pub max: i32,
}

/// One of the eight axes that are sent is not among those of the device.
#[derive(Clone, Copy, Debug, PartialEq, Eq, Structural)]
pub struct MissingAxis {
    /// Slot of the axis, from 0 to 7.
    pub slot: usize,
    /// Code of the axis.
    pub code: u16,
}

/// The ranges that `infos` gives, by the code of the axis. Where an axis
/// stands more than once, its last entry counts.
pub open spec fn ranges_by_code(infos: Seq<AxisInfo>) -> Map<u16, AxisRange>
    decreases infos.len(),
{
    if infos.len() == 0 {
        Map::empty()
    } else {
        ranges_by_code(infos.drop_last()).insert(
            infos.last().code,
            AxisRange { min: infos.last().min, max: infos.last().max },
        )
    }
}

/// The range that `infos` gives for the axis `code`, if it gives one.
pub open spec fn range_for(infos: Seq<AxisInfo>, code: u16) -> Option<AxisRange> {
    if ranges_by_code(infos).contains_key(code) {
        Some(ranges_by_code(infos)[code])
    } else {
        None
    }
}

/// Puts what a device reports of its axes into a table by axis code: see
/// [`ranges_by_code`].
pub fn collect_ranges(infos: &Vec<AxisInfo>) -> (table: HashMap<u16, AxisRange>)
    ensures
        table@ == ranges_by_code(infos@),
{
    let mut table: HashMap<u16, AxisRange> = HashMap::new();
    let mut i: usize = 0;
    while i < infos.len()
        invariant
            i <= infos.len(),
            table@ == ranges_by_code(infos@.take(i as int)),
        decreases infos.len() - i,
    {
        proof {
            assert(infos@.take(i + 1).drop_last() =~= infos@.take(i as int));
        }
        table.insert(infos[i].code, AxisRange { min: infos[i].min, max: infos[i].max });
        i += 1;
    }
    proof {
        assert(infos@.take(i as int) =~= infos@);
    }
    table
}

/// Collects the ranges of the eight axes that are sent, in the order of
/// their slots, from what the device reports. Fails on the first axis, in
/// this order, of which the device reports nothing.
pub fn build_axis_ranges(infos: &Vec<AxisInfo>) -> (r: Result<[AxisRange; 8], MissingAxis>)
    ensures
        match r {
            Ok(out) => forall|k: int|
                0 <= k < 8 ==> range_for(infos@, #[trigger] axis_table()[k]) == Some(out@[k]),
            Err(e) => {
                &&& e.slot < 8
                &&& e.code == axis_table()[e.slot as int]
                &&& range_for(infos@, e.code).is_none()
                &&& forall|k: int|
                    0 <= k < e.slot ==> range_for(infos@, #[trigger] axis_table()[k]).is_some()
            },
        },
{
    let reported = collect_ranges(infos);
    let table = axis_codes();
    let mut out = [AxisRange { min: 0, max: 0 };8];
    let mut i: usize = 0;
    while i < 8
        invariant
            i <= 8,
            table@ == axis_table(),
            reported@ == ranges_by_code(infos@),
            forall|k: int| 0 <= k < i ==> range_for(infos@, #[trigger] axis_table()[k]) == Some(out@[k]),
        decreases 8 - i,
    {
        match reported.get(&table[i]) {
            Some(range) => {
                out[i] = *range;
            },
            None => {
                return Err(MissingAxis { slot: i, code: table[i] });
            },
        }
        i += 1;
    }
    Ok(out)
}

} // verus!
