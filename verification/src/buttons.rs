//! The numbering of a device's keys as buttons.

use vstd::prelude::*;
use vstd::relations::{sorted_by, total_ordering};
use vstd::seq_lib::lemma_sorted_unique;
use std::collections::HashMap;

verus! {

/// Highest button number.
pub const MAX_BUTTONS: u16 = 128;

/// The order of key codes.
pub open spec fn code_leq() -> spec_fn(u16, u16) -> bool {
    |a: u16, b: u16| a <= b
}

/// The first `n` codes of `sorted`, numbered from 1 in their order. Where a
/// code stands more than once, its last number counts.
pub open spec fn numbered(sorted: Seq<u16>, n: nat) -> Map<u16, u8>
    decreases n,
{
    if n == 0 {
        Map::empty()
    } else {
        numbered(sorted, (n - 1) as nat).insert(sorted[n - 1], n as u8)
    }
}

/// The button of each key of a device with the keys `codes`: the keys in
/// ascending order of their codes get the numbers 1, 2, 3 and so on; keys
/// after the 128th get none.
pub open spec fn button_ids(codes: Seq<u16>) -> Map<u16, u8> {
    let sorted = codes.sort_by(code_leq());
    numbered(sorted, if sorted.len() <= 128 { sorted.len() } else { 128 })
}

/// Every number that `numbered` hands out lies between 1 and `n`.
pub proof fn lemma_numbered_range(sorted: Seq<u16>, n: nat)
    requires
        n <= sorted.len(),
        n <= 128,
    ensures
        forall|c: u16| #[trigger]
            numbered(sorted, n).contains_key(c) ==> 1 <= numbered(sorted, n)[c] <= n,
    decreases n,
{
    if n > 0 {
        lemma_numbered_range(sorted, (n - 1) as nat);
        let before = numbered(sorted, (n - 1) as nat);
        assert forall|c: u16| #[trigger] numbered(sorted, n).contains_key(c) implies 1 <= numbered(
            sorted,
            n,
        )[c] <= n by {
            if c != sorted[n - 1] {
                assert(before.contains_key(c));
            }
        }
    }
}

/// Where no code stands twice among the first `n`, the code in place `i`
/// (from 0) has the number `i + 1`.
pub proof fn lemma_numbered_by_place(sorted: Seq<u16>, n: nat, i: int)
    requires
        n <= sorted.len(),
        n <= 128,
        0 <= i < n,
        forall|a: int, b: int| 0 <= a < b < n ==> sorted[a] != sorted[b],
    ensures
        numbered(sorted, n).contains_key(sorted[i]),
        numbered(sorted, n)[sorted[i]] == i + 1,
    decreases n,
{
    if i < n - 1 {
        lemma_numbered_by_place(sorted, (n - 1) as nat, i);
    }
}

/// A code that is not among the first `n` has no number.
pub proof fn lemma_numbered_only_listed(sorted: Seq<u16>, n: nat, c: u16)
    requires
        n <= sorted.len(),
        forall|a: int| 0 <= a < n ==> sorted[a] != c,
    ensures
        !numbered(sorted, n).contains_key(c),
    decreases n,
{
    if n > 0 {
        lemma_numbered_only_listed(sorted, (n - 1) as nat, c);
    }
}

/// Every button number lies between 1 and 128.
pub proof fn lemma_button_ids_range(codes: Seq<u16>)
    ensures
        forall|c: u16| #[trigger]
            button_ids(codes).contains_key(c) ==> 1 <= button_ids(codes)[c] <= 128,
{
    let sorted = codes.sort_by(code_leq());
    let n: nat = if sorted.len() <= 128 { sorted.len() } else { 128 };
    lemma_numbered_range(sorted, n);
}

/// From key code to button number.
#[derive(Debug)]
pub struct ButtonMap {
    ids: HashMap<u16, u8>,
}

impl View for ButtonMap {
    type V = Map<u16, u8>;

    closed spec fn view(&self) -> Map<u16, u8> {
        self.ids@
    }
}

impl ButtonMap {
    #[verifier::type_invariant]
    spec fn in_range(self) -> bool {
        forall|c: u16| #[trigger] self.ids@.contains_key(c) ==> 1 <= self.ids@[c] <= 128
    }

    /// The button of the key `code`, if it has one. Buttons are numbered
    /// from 1 to 128.
    pub fn get(&self, code: u16) -> (r: Option<u8>)
        ensures
            r == (if self@.contains_key(code) { Some(self@[code]) } else { None }),
            r matches Some(id) ==> 1 <= id <= 128,
    {
        proof {
            use_type_invariant(self);
        }
        match self.ids.get(&code) {
            Some(id) => Some(*id),
            None => None,
        }
    }

    /// Number of keys that have a button.
    pub fn len(&self) -> (n: usize)
        ensures
            n == self@.len(),
    {
        self.ids.len()
    }
}

/// `sort` of std's slices, on key codes. Trusted: that afterwards the codes
/// stand in ascending order and are the same codes, each as often as before.
#[verifier::external_body]
fn sort_codes(v: &mut Vec<u16>)
    ensures
        sorted_by(final(v)@, code_leq()),
        final(v)@.to_multiset() == old(v)@.to_multiset(),
{
    v.sort();
}

/// Numbers the keys of a device as buttons: see [`button_ids`].
pub fn build_button_map(codes: Vec<u16>) -> (m: ButtonMap)
    ensures
        m@ == button_ids(codes@),
{
    let mut keys = codes;
    sort_codes(&mut keys);
    proof {
        assert(total_ordering(code_leq()));
        codes@.lemma_sort_by_ensures(code_leq());
        lemma_sorted_unique(keys@, codes@.sort_by(code_leq()), code_leq());
    }
    let mut map: HashMap<u16, u8> = HashMap::new();
    let mut idx: u16 = 1;
    let mut i: usize = 0;
    while i < keys.len() && idx <= MAX_BUTTONS
        invariant
            i <= keys.len(),
            i <= 128,
            idx == i + 1,
            map@ == numbered(keys@, i as nat),
        decreases keys.len() - i,
    {
        map.insert(keys[i], idx as u8);
        idx += 1;
        i += 1;
    }
    proof {
        lemma_numbered_range(keys@, i as nat);
        assert(keys@ == codes@.sort_by(code_leq()));
        assert(i as nat == (if keys@.len() <= 128 { keys@.len() } else { 128 }));
    }
    ButtonMap { ids: map }
}

} // verus!
