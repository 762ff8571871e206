//! Bit-field arithmetic on the 32-bit progress value of a checklist day.

use vstd::prelude::*;

verus! {

/// Number of bits in a day's progress value, and so the most objectives a checklist can hold.
pub const BIT_COUNT: usize = 32;

/// The integer whose only set bit is bit `index`.
pub open spec fn flag(index: nat) -> i32 {
    1i32 << index
}

/// Whether bit `index` of `value` is set.
pub open spec fn bit_set(value: i32, index: nat) -> bool {
    index < 32 && value & flag(index) != 0
}

/// The signed 32-bit integer congruent to `x` modulo 2^32.
pub open spec fn wrap(x: int) -> i32 {
    let r = x % 0x1_0000_0000;
    if r > i32::MAX { (r - 0x1_0000_0000) as i32 } else { r as i32 }
}

/// Number of set bits of `value` among the bits below `below`.
pub open spec fn set_below(value: i32, below: nat) -> nat
    decreases below,
{
    if below == 0 {
        0
    } else {
        set_below(value, (below - 1) as nat) + if bit_set(value, (below - 1) as nat) {
            1nat
        } else {
            0nat
        }
    }
}

/// Number of set bits of `value`, all 32 counted.
pub open spec fn popcount(value: i32) -> nat {
    set_below(value, 32)
}

/// The wrapping operations of std compute `wrap` of the exact sum and difference.
pub proof fn lemma_wrapping_is_wrap(x: i32, y: i32)
    ensures
        vstd::wrapping::i32_specs::wrapping_add(x, y) == wrap(x + y),
        vstd::wrapping::i32_specs::wrapping_sub(x, y) == wrap(x - y),
{
}

/// `wrap` leaves a value of the 32-bit range as it is, and sees only the
/// remainder of its argument modulo 2^32.
pub proof fn lemma_wrap_sum(x: int, y: int)
    ensures
        wrap(wrap(x) + y) == wrap(x + y),
        i32::MIN <= x <= i32::MAX ==> wrap(x) == x,
{
}

/// Adding the flag of a clear bit sets that bit and changes no other.
pub proof fn lemma_add_flag(value: i32, index: nat)
    requires
        index < 32,
        !bit_set(value, index),
    ensures
        bit_set(wrap(value + flag(index)), index),
        forall|other: nat| other != index ==> bit_set(wrap(value + flag(index)), other) == bit_set(value, other),
{
    let i = index as u32;
    let f = 1i32 << i;
    assert(flag(index) == f);
    let w = vstd::wrapping::i32_specs::wrapping_add(value, f);
    lemma_wrapping_is_wrap(value, f);
    assert(w == (value + f) as i32) by (bit_vector)
        requires
            w == if value + f > 0x7fff_ffff {
                (value + f - 0x1_0000_0000) as i32
            } else if value + f < -0x8000_0000 {
                (value + f + 0x1_0000_0000) as i32
            } else {
                (value + f) as i32
            },
    ;
    assert(w & (1i32 << i) != 0) by (bit_vector)
        requires
            i < 32,
            value & (1i32 << i) == 0,
            w == (value + (1i32 << i)) as i32,
    ;
    assert forall|other: nat| other != index implies bit_set(w, other) == bit_set(value, other) by {
        if other < 32 {
            let j = other as u32;
            assert((w & (1i32 << j) != 0) == (value & (1i32 << j) != 0)) by (bit_vector)
                requires
                    i < 32,
                    j < 32,
                    i != j,
                    value & (1i32 << i) == 0,
                    w == (value + (1i32 << i)) as i32,
            ;
            assert(flag(other) == 1i32 << j);
        }
    }
}

/// Subtracting the flag of a set bit clears that bit and changes no other.
pub proof fn lemma_sub_flag(value: i32, index: nat)
    requires
        index < 32,
        bit_set(value, index),
    ensures
        !bit_set(wrap(value - flag(index)), index),
        forall|other: nat| other != index ==> bit_set(wrap(value - flag(index)), other) == bit_set(value, other),
{
    let i = index as u32;
    let f = 1i32 << i;
    assert(flag(index) == f);
    let w = vstd::wrapping::i32_specs::wrapping_sub(value, f);
    lemma_wrapping_is_wrap(value, f);
    assert(w == (value - f) as i32) by (bit_vector)
        requires
            w == if value - f > 0x7fff_ffff {
                (value - f - 0x1_0000_0000) as i32
            } else if value - f < -0x8000_0000 {
                (value - f + 0x1_0000_0000) as i32
            } else {
                (value - f) as i32
            },
    ;
    assert(w & (1i32 << i) == 0) by (bit_vector)
        requires
            i < 32,
            value & (1i32 << i) != 0,
            w == (value - (1i32 << i)) as i32,
    ;
    assert forall|other: nat| other != index implies bit_set(w, other) == bit_set(value, other) by {
        if other < 32 {
            let j = other as u32;
            assert((w & (1i32 << j) != 0) == (value & (1i32 << j) != 0)) by (bit_vector)
                requires
                    i < 32,
                    j < 32,
                    i != j,
                    value & (1i32 << i) != 0,
                    w == (value - (1i32 << i)) as i32,
            ;
            assert(flag(other) == 1i32 << j);
        }
    }
}

/// The integer whose only set bit is bit `index`.
pub fn flag_of(index: usize) -> (r: i32)
    requires
        index < 32,
    ensures
        r == flag(index as nat),
{
    1i32 << index
}

/// Whether bit `index` of `value` is set.
pub fn is_set(value: i32, index: usize) -> (r: bool)
    ensures
        r == bit_set(value, index as nat),
{
    index < BIT_COUNT && value & flag_of(index) != 0
}

/// Number of set bits of `value`.
pub fn count_set(value: i32) -> (r: i32)
    ensures
        r == popcount(value),
        0 <= r <= 32,
{
    let mut count: i32 = 0;
    let mut index: usize = 0;
    while index < BIT_COUNT
        invariant
            index <= 32,
            count == set_below(value, index as nat),
            0 <= count <= index,
        decreases 32 - index,
    {
        if is_set(value, index) {
            count += 1;
        }
        index += 1;
    }
    count
}

} // verus!
