//! IEEE binary32/binary64 values as bit patterns.
//!
//! Sensor fields are IEEE binary32 numbers. The core never holds such a
//! number directly: it carries the 32-bit (or, for running sums, 64-bit) bit
//! pattern and performs the arithmetic through `rustc_apfloat`, a software
//! implementation of IEEE semantics whose operations take and return bit
//! patterns. Classification (finite / NaN / zero) is decided here in verified
//! code straight from the exponent and significand fields; each arithmetic
//! operation is one trusted wrapper around one `rustc_apfloat` operation,
//! whose result is named by an uninterpreted function of the operand bits.

use vstd::prelude::*;

use rustc_apfloat::Float;
use rustc_apfloat::FloatConvert;

verus! {

// ---------------------------------------------------------------------------
// Classification of bit patterns, fully verified.
// ---------------------------------------------------------------------------

/// A binary32 bit pattern is finite when its exponent field is not all ones
/// (otherwise it is an infinity or a NaN).
pub open spec fn is_finite32(bits: u32) -> bool {
    (bits >> 23) & 0xff != 0xff
}

/// A binary32 bit pattern is a NaN when its exponent field is all ones and
/// its significand field is not zero.
pub open spec fn is_nan32(bits: u32) -> bool {
    (bits >> 23) & 0xff == 0xff && bits & 0x7fffff != 0
}

/// A binary64 bit pattern is finite when its exponent field is not all ones.
pub open spec fn is_finite64(bits: u64) -> bool {
    (bits >> 52) & 0x7ff != 0x7ff
}

/// A binary64 bit pattern is a NaN when its exponent field is all ones and
/// its significand field is not zero.
pub open spec fn is_nan64(bits: u64) -> bool {
    (bits >> 52) & 0x7ff == 0x7ff && bits & 0xf_ffff_ffff_ffff != 0
}

/// A binary64 bit pattern is a zero (of either sign) when all bits below the
/// sign are clear.
pub open spec fn is_zero64(bits: u64) -> bool {
    bits & 0x7fff_ffff_ffff_ffff == 0
}

/// Executable form of `is_finite32`.
pub fn finite32(bits: u32) -> (r: bool)
    ensures
        r == is_finite32(bits),
{
    (bits >> 23) & 0xff != 0xff
}

/// Executable form of `is_nan32`.
pub fn nan32(bits: u32) -> (r: bool)
    ensures
        r == is_nan32(bits),
{
    (bits >> 23) & 0xff == 0xff && bits & 0x7fffff != 0
}

// ---------------------------------------------------------------------------
// Names for the results of the IEEE operations, and the trusted wrappers
// that compute them. Each operation's result depends on the operand bits
// alone; the wrappers' preconditions keep every call on operands for which
// IEEE semantics fix the result bits exactly (no NaN is ever produced, so no
// platform- or library-specific NaN payload can be observed).
// ---------------------------------------------------------------------------

/// The binary64 bit pattern that widening a binary32 value yields.
pub uninterp spec fn b64_of_b32(v: u32) -> u64;

/// The binary64 bit pattern of the IEEE sum (round to nearest even) of two
/// binary64 values.
pub uninterp spec fn b64_add(a: u64, b: u64) -> u64;

/// The binary64 bit pattern of the IEEE quotient (round to nearest even) of a
/// binary64 value by the integer `n` (converted to binary64).
pub uninterp spec fn b64_div_count(a: u64, n: int) -> u64;

/// The binary32 bit pattern that narrowing a binary64 value (round to nearest
/// even) yields.
pub uninterp spec fn b32_of_b64(v: u64) -> u32;

/// The binary32 bit pattern of a 16-bit unsigned integer (exact).
pub uninterp spec fn b32_of_u16(v: u16) -> u32;

/// The binary64 bit pattern of the IEEE product (round to nearest even) of
/// two binary64 values.
pub uninterp spec fn b64_mul(a: u64, b: u64) -> u64;

/// The binary64 bit pattern of a binary64 value rounded to an integral value,
/// ties away from zero.
pub uninterp spec fn b64_round_away(v: u64) -> u64;

/// The 64-bit signed integer a binary64 value converts to (toward zero,
/// saturating at the integer bounds).
pub uninterp spec fn i64_of_b64(v: u64) -> i64;

/// Relies on `rustc_apfloat::FloatConvert::<Double>::convert` for
/// `ieee::Single`: widening to binary64 is exact, keeps a non-NaN value
/// non-NaN, and keeps a finite value finite.
#[verifier::external_body]
pub(crate) fn widen_bits(v: u32) -> (r: u64)
    requires
        !is_nan32(v),
    ensures
        r == b64_of_b32(v),
        !is_nan64(r),
        is_finite32(v) ==> is_finite64(r),
{
    let mut loses_info = false;
    let d: rustc_apfloat::ieee::Double = rustc_apfloat::ieee::Single::from_bits(v as u128)
        .convert(&mut loses_info)
        .value;
    d.to_bits() as u64
}

/// Relies on `rustc_apfloat::Float::add_r` for `ieee::Double` with round to
/// nearest even: IEEE addition of a non-NaN value and a finite value never
/// yields a NaN (a NaN sum needs a NaN operand or two opposite infinities).
#[verifier::external_body]
pub(crate) fn add_bits(a: u64, b: u64) -> (r: u64)
    requires
        !is_nan64(a),
        is_finite64(b),
    ensures
        r == b64_add(a, b),
        !is_nan64(r),
{
    let x = rustc_apfloat::ieee::Double::from_bits(a as u128);
    let y = rustc_apfloat::ieee::Double::from_bits(b as u128);
    x.add_r(y, rustc_apfloat::Round::NearestTiesToEven).value.to_bits() as u64
}

/// Relies on `rustc_apfloat::Float::div_r` for `ieee::Double` with round to
/// nearest even, the divisor being `n` converted from an integer: dividing a
/// non-NaN value by a positive finite one never yields a NaN.
#[verifier::external_body]
pub(crate) fn div_bits_count(a: u64, n: u64) -> (r: u64)
    requires
        !is_nan64(a),
        1 <= n,
    ensures
        r == b64_div_count(a, n as int),
        !is_nan64(r),
{
    let x = rustc_apfloat::ieee::Double::from_bits(a as u128);
    let y = rustc_apfloat::ieee::Double::from_u128(n as u128).value;
    x.div_r(y, rustc_apfloat::Round::NearestTiesToEven).value.to_bits() as u64
}

/// Relies on `rustc_apfloat::FloatConvert::<Single>::convert` for
/// `ieee::Double`: narrowing with round to nearest even keeps a non-NaN value
/// non-NaN (it may round to an infinity).
#[verifier::external_body]
pub(crate) fn narrow_bits(v: u64) -> (r: u32)
    requires
        !is_nan64(v),
    ensures
        r == b32_of_b64(v),
        !is_nan32(r),
{
    let mut loses_info = false;
    let s: rustc_apfloat::ieee::Single = rustc_apfloat::ieee::Double::from_bits(v as u128)
        .convert(&mut loses_info)
        .value;
    s.to_bits() as u32
}

/// Relies on `rustc_apfloat::Float::from_u128` for `ieee::Single`: every
/// 16-bit unsigned integer converts exactly to a finite binary32 value.
#[verifier::external_body]
pub(crate) fn u16_to_bits(v: u16) -> (r: u32)
    ensures
        r == b32_of_u16(v),
        is_finite32(r),
{
    rustc_apfloat::ieee::Single::from_u128(v as u128).value.to_bits() as u32
}

/// Relies on `rustc_apfloat::Float::mul_r` for `ieee::Double` with round to
/// nearest even: multiplying a non-NaN value by a finite non-zero one never
/// yields a NaN (a NaN product needs a NaN operand or an infinity times a
/// zero).
#[verifier::external_body]
pub(crate) fn mul_bits(a: u64, b: u64) -> (r: u64)
    requires
        !is_nan64(a),
        is_finite64(b),
        !is_zero64(b),
    ensures
        r == b64_mul(a, b),
        !is_nan64(r),
{
    let x = rustc_apfloat::ieee::Double::from_bits(a as u128);
    let y = rustc_apfloat::ieee::Double::from_bits(b as u128);
    x.mul_r(y, rustc_apfloat::Round::NearestTiesToEven).value.to_bits() as u64
}

/// Relies on `rustc_apfloat::Float::round_to_integral` for `ieee::Double`
/// with ties rounding away from zero: rounding keeps a non-NaN value non-NaN.
#[verifier::external_body]
pub(crate) fn round_bits_away(v: u64) -> (r: u64)
    requires
        !is_nan64(v),
    ensures
        r == b64_round_away(v),
        !is_nan64(r),
{
    let x = rustc_apfloat::ieee::Double::from_bits(v as u128);
    x.round_to_integral(rustc_apfloat::Round::NearestTiesToAway).value.to_bits() as u64
}

/// Relies on `rustc_apfloat::Float::to_i128` for `ieee::Double`: conversion
/// toward zero to a 64-bit signed integer, saturating at the integer bounds;
/// on a non-NaN operand the result is a deterministic function of the bits.
#[verifier::external_body]
pub(crate) fn bits_to_i64(v: u64) -> (r: i64)
    requires
        !is_nan64(v),
    ensures
        r == i64_of_b64(v),
{
    let x = rustc_apfloat::ieee::Double::from_bits(v as u128);
    let wide = x.to_i128(64).value;
    wide as i64
}

// ---------------------------------------------------------------------------
// The window mean, verified over the names above.
// ---------------------------------------------------------------------------

/// The finite members of a sequence of binary32 bit patterns, in order.
pub open spec fn finite_of(s: Seq<u32>) -> Seq<u32>
    decreases s.len(),
{
    if s.len() == 0 {
        Seq::empty()
    } else if is_finite32(s.last()) {
        finite_of(s.drop_last()).push(s.last())
    } else {
        finite_of(s.drop_last())
    }
}

/// Running binary64 sum of a sequence of binary32 bit patterns, each widened,
/// accumulated left to right starting from +0.0 (bit pattern zero).
pub open spec fn sum64(s: Seq<u32>) -> u64
    decreases s.len(),
{
    if s.len() == 0 {
        0u64
    } else {
        b64_add(sum64(s.drop_last()), b64_of_b32(s.last()))
    }
}

/// The mean of a field over a window: sum the finite samples in binary64,
/// divide by their count, narrow back to binary32. A field with zero finite
/// samples has an absent mean — never a fabricated zero.
pub open spec fn field_mean(s: Seq<u32>) -> Option<u32> {
    let f = finite_of(s);
    if f.len() == 0 {
        None
    } else {
        Some(b32_of_b64(b64_div_count(sum64(f), f.len() as int)))
    }
}

/// How `finite_of` grows under `push`.
pub proof fn lemma_finite_of_push(s: Seq<u32>, x: u32)
    ensures
        finite_of(s.push(x)) == if is_finite32(x) {
            finite_of(s).push(x)
        } else {
            finite_of(s)
        },
{
    assert(s.push(x).drop_last() =~= s);
    assert(s.push(x).last() == x);
}

/// Every member of `finite_of(s)` is finite.
pub proof fn lemma_finite_of_members(s: Seq<u32>)
    ensures
        forall|i: int| 0 <= i < finite_of(s).len() ==> is_finite32(#[trigger] finite_of(s)[i]),
    decreases s.len(),
{
    if s.len() > 0 {
        lemma_finite_of_members(s.drop_last());
        if is_finite32(s.last()) {
            let f = finite_of(s.drop_last());
            assert forall|i: int| 0 <= i < finite_of(s).len() implies is_finite32(
                finite_of(s)[i],
            ) by {
                if i < f.len() {
                    assert(finite_of(s)[i] == f[i]);
                } else {
                    assert(finite_of(s)[i] == s.last());
                }
            }
        }
    }
}

/// `finite_of` keeps a sequence of finite values unchanged.
pub proof fn lemma_finite_of_all_finite(s: Seq<u32>)
    requires
        forall|i: int| 0 <= i < s.len() ==> is_finite32(#[trigger] s[i]),
    ensures
        finite_of(s) == s,
    decreases s.len(),
{
    if s.len() > 0 {
        assert(forall|i: int|
            0 <= i < s.drop_last().len() ==> is_finite32(#[trigger] s.drop_last()[i]));
        lemma_finite_of_all_finite(s.drop_last());
        assert(is_finite32(s.last()));
        assert(finite_of(s) =~= s);
    } else {
        assert(finite_of(s) =~= s);
    }
}

/// A field mean is drawn from the finite samples alone: the non-finite
/// members of a window contribute to no mean, and the mean is absent exactly
/// when the window holds no finite sample.
pub proof fn lemma_mean_ignores_non_finite(s: Seq<u32>)
    ensures
        field_mean(s) == field_mean(finite_of(s)),
        field_mean(s) is None <==> finite_of(s).len() == 0,
{
    lemma_finite_of_members(s);
    lemma_finite_of_all_finite(finite_of(s));
}

/// Mean of the finite members of `vals`, or `None` when there is none. A
/// computed mean is never a NaN (though it may round to an infinity).
pub fn mean_of_bits(vals: &Vec<u32>) -> (r: Option<u32>)
    ensures
        r == field_mean(vals@),
        r matches Some(m) ==> !is_nan32(m),
{
    let n = vals.len();
    let mut acc: u64 = 0;
    let mut cnt: usize = 0;
    proof {
        assert((0u64 >> 52) & 0x7ff != 0x7ff) by (bit_vector);
    }
    for i in 0..n
        invariant
            n == vals.len(),
            cnt == finite_of(vals@.take(i as int)).len(),
            acc == sum64(finite_of(vals@.take(i as int))),
            !is_nan64(acc),
            cnt <= i,
    {
        let v = vals[i];
        proof {
            assert(vals@.take(i as int).push(v) =~= vals@.take(i + 1 as int));
            lemma_finite_of_push(vals@.take(i as int), v);
        }
        if finite32(v) {
            let w = widen_bits(v);
            proof {
                let f = finite_of(vals@.take(i as int));
                assert(f.push(v).drop_last() =~= f);
                assert(f.push(v).last() == v);
            }
            acc = add_bits(acc, w);
            cnt = cnt + 1;
        }
    }
    proof {
        assert(vals@.take(n as int) =~= vals@);
    }
    if cnt == 0 {
        None
    } else {
        Some(narrow_bits(div_bits_count(acc, cnt as u64)))
    }
}

} // verus!
