//! Single bits of a byte and of the 128-bit button set.

use vstd::prelude::*;

verus! {

/// Bit `k` of `b` is set.
pub open spec fn bit_is_set(b: u8, k: u8) -> bool {
    (b >> k) & 1 == 1
}

/// `b` with bit `k` set or cleared.
pub open spec fn with_bit(b: u8, k: u8, on: bool) -> u8 {
    if on { b | (1u8 << k) } else { b & !(1u8 << k) }
}

/// Button `id` (from 1 to 128) is down in `buttons`.
pub open spec fn pressed(buttons: Seq<u8>, id: int) -> bool {
    bit_is_set(buttons[(id - 1) / 8], ((id - 1) % 8) as u8)
}

/// `buttons` with button `id` (from 1 to 128) down or up.
pub open spec fn with_button(buttons: Seq<u8>, id: int, down: bool) -> Seq<u8> {
    buttons.update((id - 1) / 8, with_bit(buttons[(id - 1) / 8], ((id - 1) % 8) as u8, down))
}

/// Setting or clearing one bit changes that bit and no other.
pub proof fn lemma_with_bit(b: u8, k: u8, on: bool, j: u8)
    requires
        k < 8,
        j < 8,
    ensures
        bit_is_set(with_bit(b, k, on), j) == (if j == k { on } else { bit_is_set(b, j) }),
{
    assert(((b | (1u8 << k)) >> j) & 1 == 1 <==> (j == k || (b >> j) & 1 == 1)) by (bit_vector)
        requires
            k < 8,
            j < 8,
    ;
    assert(((b & !(1u8 << k)) >> j) & 1 == 1 <==> (j != k && (b >> j) & 1 == 1)) by (bit_vector)
        requires
            k < 8,
            j < 8,
    ;
}

/// A mask test reads the same bit as a shift.
pub proof fn lemma_mask_test(b: u8, k: u8)
    requires
        k < 8,
    ensures
        (b & (1u8 << k) != 0) == bit_is_set(b, k),
{
    assert((b & (1u8 << k) != 0) <==> ((b >> k) & 1 == 1)) by (bit_vector)
        requires
            k < 8,
    ;
}

/// Bit `k` of `a ^ b` is set exactly where `a` and `b` differ in bit `k`.
pub proof fn lemma_xor_bit(a: u8, b: u8, k: u8)
    requires
        k < 8,
    ensures
        bit_is_set(a ^ b, k) == (bit_is_set(a, k) != bit_is_set(b, k)),
{
    assert((((a ^ b) >> k) & 1 == 1) <==> (((a >> k) & 1 == 1) != ((b >> k) & 1 == 1)))
        by (bit_vector)
        requires
            k < 8,
    ;
}

/// Two bytes with the same eight bits are the same byte.
pub proof fn lemma_same_bits(a: u8, b: u8)
    requires
        forall|k: u8| k < 8 ==> bit_is_set(a, k) == bit_is_set(b, k),
    ensures
        a == b,
{
    assert(bit_is_set(a, 0) == bit_is_set(b, 0));
    assert(bit_is_set(a, 1) == bit_is_set(b, 1));
    assert(bit_is_set(a, 2) == bit_is_set(b, 2));
    assert(bit_is_set(a, 3) == bit_is_set(b, 3));
    assert(bit_is_set(a, 4) == bit_is_set(b, 4));
    assert(bit_is_set(a, 5) == bit_is_set(b, 5));
    assert(bit_is_set(a, 6) == bit_is_set(b, 6));
    assert(bit_is_set(a, 7) == bit_is_set(b, 7));
    assert(a == b) by (bit_vector)
        requires
            ((a >> 0u8) & 1 == 1) == ((b >> 0u8) & 1 == 1),
            ((a >> 1u8) & 1 == 1) == ((b >> 1u8) & 1 == 1),
            ((a >> 2u8) & 1 == 1) == ((b >> 2u8) & 1 == 1),
            ((a >> 3u8) & 1 == 1) == ((b >> 3u8) & 1 == 1),
            ((a >> 4u8) & 1 == 1) == ((b >> 4u8) & 1 == 1),
            ((a >> 5u8) & 1 == 1) == ((b >> 5u8) & 1 == 1),
            ((a >> 6u8) & 1 == 1) == ((b >> 6u8) & 1 == 1),
            ((a >> 7u8) & 1 == 1) == ((b >> 7u8) & 1 == 1),
    ;
}

/// Two button sets in which the same buttons are down are the same set.
pub proof fn lemma_same_buttons(a: Seq<u8>, b: Seq<u8>)
    requires
        a.len() == 16,
        b.len() == 16,
        forall|id: int| 1 <= id <= 128 ==> pressed(a, id) == pressed(b, id),
    ensures
        a == b,
{
    assert forall|i: int| 0 <= i < 16 implies a[i] == b[i] by {
        assert forall|k: u8| k < 8 implies bit_is_set(a[i], k) == bit_is_set(b[i], k) by {
            let id = 8 * i + k + 1;
            assert((id - 1) / 8 == i);
            assert((id - 1) % 8 == k);
            assert(pressed(a, id) == pressed(b, id));
        }
        lemma_same_bits(a[i], b[i]);
    }
    assert(a =~= b);
}

/// Pressing or releasing one button changes that button and no other.
pub proof fn lemma_with_button(buttons: Seq<u8>, id: int, down: bool, other: int)
    requires
        buttons.len() == 16,
        1 <= id <= 128,
        1 <= other <= 128,
    ensures
        pressed(with_button(buttons, id, down), other) == (if other == id {
            down
        } else {
            pressed(buttons, other)
        }),
{
    let k = ((id - 1) % 8) as u8;
    let j = ((other - 1) % 8) as u8;
    if (other - 1) / 8 == (id - 1) / 8 {
        lemma_with_bit(buttons[(id - 1) / 8], k, down, j);
    }
}

} // verus!
