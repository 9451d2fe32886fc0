//! Integer helpers shared by the drivers.

use vstd::prelude::*;

verus! {

/// The smallest multiple of `align` that is not below `value`.
pub open spec fn aligned_up(value: int, align: int) -> int {
    ((value + align - 1) / align) * align
}

/// The larger of two words.
pub open spec fn max_of(a: u32, b: u32) -> u32 {
    if a >= b {
        a
    } else {
        b
    }
}

/// The word with bit `position` set where `value` holds, else zero.
pub open spec fn bit_if(position: u32, value: bool) -> u32 {
    if value {
        1u32 << position
    } else {
        0u32
    }
}

/// What some fixed flags give together.
pub proof fn flags_combine()
    by (bit_vector)
    ensures
        4u32 & 4 != 0,
        0u32 & 4 == 0,
        0u32 | 2u32 == 2,
        2u32 | 1u32 == 3,
        0x100u32 | 0x1000u32 == 0x1100,
        1u64 | 2u64 == 3,
        0u64 & 1 == 0,
        3u64 | 0x100 == 0x103,
        3u64 | 0x80 == 0x83,
        0x103u64 | 0x80 == 0x183,
        3u64 & 0x100 == 0,
        3u64 & 0x80 == 0,
        0x103u64 & 0x100 != 0,
        0x103u64 & 0x80 == 0,
        0x83u64 & 0x100 == 0,
        0x83u64 & 0x80 != 0,
        0x183u64 & 0x100 != 0,
        0x183u64 & 0x80 != 0,
{
}

/// Rounding up is the least multiple at or above the value.
pub proof fn aligned_up_is_least_multiple(value: int, align: int)
    requires
        align > 0,
    ensures
        aligned_up(value, align) % align == 0,
        value <= aligned_up(value, align) < value + align,
{
    let q = (value + align - 1) / align;
    vstd::arithmetic::div_mod::lemma_fundamental_div_mod(value + align - 1, align);
    vstd::arithmetic::div_mod::lemma_mod_bound(value + align - 1, align);
    vstd::arithmetic::div_mod::lemma_mod_multiples_basic(q, align);
    assert(q * align == align * q) by (nonlinear_arith);
}

/// Rounding up an already aligned value changes nothing.
pub proof fn aligned_up_keeps_multiples(value: int, align: int)
    requires
        align > 0,
        value % align == 0,
    ensures
        aligned_up(value, align) == value,
{
    aligned_up_is_least_multiple(value, align);
    let up = aligned_up(value, align);
    vstd::arithmetic::div_mod::lemma_fundamental_div_mod(value, align);
    vstd::arithmetic::div_mod::lemma_fundamental_div_mod(up, align);
    let a = value / align;
    let b = up / align;
    assert(a == b) by (nonlinear_arith)
        requires
            value == align * a,
            up == align * b,
            value <= up < value + align,
            align > 0,
    ;
}

pub fn align_up_u32(value: u32, align: u32) -> (r: u32)
    requires
        align > 0,
        value + align - 1 <= u32::MAX,
    ensures
        r == aligned_up(value as int, align as int),
{
    proof {
        aligned_up_is_least_multiple(value as int, align as int);
    }
    let q: u32 = (value + (align - 1)) / align;
    q * align
}

pub fn align_up_usize(value: usize, align: usize) -> (r: usize)
    requires
        align > 0,
        value + align - 1 <= usize::MAX,
    ensures
        r == aligned_up(value as int, align as int),
{
    proof {
        aligned_up_is_least_multiple(value as int, align as int);
    }
    let q: usize = (value + (align - 1)) / align;
    q * align
}

pub fn bit(position: u32, value: bool) -> (r: u32)
    requires
        position < 32,
    ensures
        r == bit_if(position, value),
{
    if value {
        1u32 << position
    } else {
        0
    }
}

pub fn max_u32(a: u32, b: u32) -> (r: u32)
    ensures
        r == max_of(a, b),
{
    if a >= b {
        a
    } else {
        b
    }
}

/// `p` is a power of two, written without a logarithm.
pub open spec fn is_power_of_two(p: int) -> bool
    decreases p,
{
    p == 1 || (p > 1 && p % 2 == 0 && is_power_of_two(p / 2))
}

/// The smallest power of two that is not below `value`.
pub open spec fn next_power(value: int) -> int
    decreases value,
{
    if value <= 1 {
        1
    } else {
        2 * next_power((value + 1) / 2)
    }
}

proof fn power_between(p: int, value: int)
    requires
        is_power_of_two(p),
        p / 2 < value <= p,
        value > 0,
    ensures
        next_power(value) == p,
    decreases p,
{
    if p == 1 {
    } else {
        assert(p >= 2);
        if value == 1 {
            assert(p / 2 < 1);
            assert(false);
        } else {
            power_between(p / 2, (value + 1) / 2);
        }
    }
}

/// The next power of two is a power of two, at or above the value and below
/// its double.
pub proof fn next_power_bounds(value: int)
    requires
        value >= 1,
    ensures
        is_power_of_two(next_power(value)),
        value <= next_power(value) < 2 * value,
    decreases value,
{
    if value > 1 {
        next_power_bounds((value + 1) / 2);
        let h = next_power((value + 1) / 2);
        assert((2 * h) / 2 == h);
        if value % 2 == 0 {
        } else {
            // `value` odd: the half is (value + 1) / 2, and h < value + 1.
            assert(h < value + 1);
            power_is_one_or_even(h);
            assert(h >= 2);
            assert(h <= value - 1 || h == value);
            if h == value {
                assert(false);
            }
        }
    }
}

proof fn power_is_one_or_even(p: int)
    requires
        is_power_of_two(p),
    ensures
        p == 1 || p % 2 == 0,
        p >= 1,
{
}

pub fn next_power_of_two(value: u32) -> (r: u32)
    requires
        value <= 0x8000_0000,
    ensures
        r == next_power(value as int),
{
    let mut p: u32 = 1;
    while p < value
        invariant
            is_power_of_two(p as int),
            p == 1 || p / 2 < value,
            value <= 0x8000_0000,
            1 <= p,
        decreases 0x1_0000_0000 - p,
    {
        p = p * 2;
        assert((p as int) / 2 < value);
    }
    proof {
        if value >= 1 {
            power_between(p as int, value as int);
        }
    }
    p
}

/// A quotient rounded up.
pub open spec fn ceil_div(a: int, b: int) -> int {
    (a + b - 1) / b
}

/// Rounding up adds one exactly where something is left over.
pub proof fn ceil_div_counts(a: int, b: int)
    requires
        a >= 0,
        b > 0,
    ensures
        ceil_div(a, b) == a / b + (if a % b != 0 {
            1int
        } else {
            0int
        }),
        a <= ceil_div(a, b) * b,
        ceil_div(a, b) * b < a + b,
        ceil_div(a, b) <= a,
        ceil_div(a, b) >= 0,
{
    let q = a / b;
    let m = a % b;
    vstd::arithmetic::div_mod::lemma_fundamental_div_mod(a, b);
    assert(q * b == b * q) by (nonlinear_arith);
    assert((q + 1) * b == b * q + b) by (nonlinear_arith);
    assert(q >= 0) by (nonlinear_arith)
        requires
            q == a / b,
            a >= 0,
            b > 0,
    ;
    if m == 0 {
        assert((a + b - 1) / b == q) by (nonlinear_arith)
            requires
                b > 0,
                a == b * q,
        ;
        assert(q <= a) by (nonlinear_arith)
            requires
                b > 0,
                a == b * q,
                q >= 0,
        ;
    } else {
        assert((a + b - 1) / b == q + 1) by (nonlinear_arith)
            requires
                b > 0,
                a == b * q + m,
                0 < m < b,
        ;
        assert(q + 1 <= a) by (nonlinear_arith)
            requires
                b > 1,
                a == b * q + m,
                0 < m < b,
                q >= 0,
        ;
    }
}

/// A quotient rounded up.
pub fn div_ceil_u64(a: u64, b: u64) -> (r: u64)
    requires
        b > 0,
    ensures
        r == ceil_div(a as int, b as int),
{
    proof {
        ceil_div_counts(a as int, b as int);
    }
    if a % b != 0 {
        a / b + 1
    } else {
        a / b
    }
}

/// Rounding up by masking, as done where the alignment is a power of two.
pub open spec fn rounded_up(value: usize, align: usize) -> usize {
    ((value + align - 1) as usize) & !((align - 1) as usize)
}

pub fn round_up_usize(value: usize, align: usize) -> (r: usize)
    requires
        align > 0,
        value + align - 1 <= usize::MAX,
    ensures
        r == rounded_up(value, align),
{
    (value + (align - 1)) & !(align - 1)
}

/// Rounding up by masking is rounding up to a multiple, for an alignment that is
/// a power of two.
pub proof fn masking_rounds_up(value: usize, align: usize, n: nat)
    requires
        align == vstd::arithmetic::power2::pow2(n),
        n < usize::BITS,
        value + align - 1 <= usize::MAX,
    ensures
        align > 0,
        rounded_up(value, align) == aligned_up(value as int, align as int),
{
    vstd::arithmetic::power2::lemma_pow2_pos(n);
    let x = (value + align - 1) as usize;
    let m = (align - 1) as usize;
    vstd::bits::lemma_usize_low_bits_mask_is_mod(x, n);
    assert(vstd::bits::low_bits_mask(n) == m) by {
        reveal(vstd::bits::low_bits_mask);
    }
    assert((x & !m) + (x & m) == x) by (bit_vector);
    vstd::arithmetic::div_mod::lemma_fundamental_div_mod(x as int, align as int);
    assert((x as int / align as int) * align == align * (x as int / align as int))
        by (nonlinear_arith);
}

} // verus!
