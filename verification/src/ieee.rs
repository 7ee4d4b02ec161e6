//! Order and classification of IEEE-754 binary64 values, stated and computed
//! on their 64-bit patterns.
//!
//! The profiling engine stores every column value as the raw bit pattern of a
//! double-precision number. All comparisons the engine makes — bin
//! assignment, minima and maxima, the total order used for the median — are
//! integer computations on those patterns, so they can be specified and
//! verified exactly:
//!
//! * `lt_bits` / `le_bits` / `eq_bits` mirror the IEEE comparison predicates:
//!   any comparison with a NaN is false, and the two zeroes compare equal.
//! * `total_le` is the IEEE total order (sign-magnitude order): negative NaN
//!   patterns sort below negative infinity, positive ones above positive
//!   infinity, and the negative zero below the positive zero. It is the order
//!   used to sort a column for the median.
//! * `min2_bits` / `max2_bits` fold two values, ignoring NaN, the way the
//!   running minimum and maximum of a column are folded.
use vstd::prelude::*;

verus! {

/// All bits of a pattern except the sign bit.
pub const ABS_MASK: u64 = 0x7fff_ffff_ffff_ffff;

/// The sign bit of a pattern.
pub const SIGN_BIT: u64 = 0x8000_0000_0000_0000;

/// The exponent field, all ones: the magnitude of an infinity.
pub const EXP_MASK: u64 = 0x7ff0_0000_0000_0000;

/// The pattern of positive infinity.
pub const POS_INF_BITS: u64 = 0x7ff0_0000_0000_0000;

/// The pattern of negative infinity.
pub const NEG_INF_BITS: u64 = 0xfff0_0000_0000_0000;

/// The magnitude of a pattern: its bits with the sign cleared.
pub open spec fn abs_bits(b: u64) -> u64 {
    b & ABS_MASK
}

/// Whether the sign bit is set.
pub open spec fn sign_bits(b: u64) -> bool {
    b >= SIGN_BIT
}

/// A pattern is a NaN when its magnitude is above the infinity magnitude.
pub open spec fn is_nan_bits(b: u64) -> bool {
    abs_bits(b) > EXP_MASK
}

/// A pattern is an infinity when its magnitude equals the infinity magnitude.
pub open spec fn is_inf_bits(b: u64) -> bool {
    abs_bits(b) == EXP_MASK
}

/// A pattern is a zero when its magnitude is zero; the sign bit is free.
pub open spec fn is_zero_bits(b: u64) -> bool {
    abs_bits(b) == 0
}

/// The numeric order of the non-NaN patterns as an integer key: magnitude,
/// negated when the sign bit is set. Both zeroes map to 0, and otherwise the
/// key is injective; for non-NaN patterns the key orders exactly as the
/// values they denote.
pub open spec fn ord_key(b: u64) -> int {
    if sign_bits(b) {
        -(abs_bits(b) as int)
    } else {
        abs_bits(b) as int
    }
}

/// The IEEE `<` predicate: false on any NaN, and driven by `ord_key`
/// otherwise, which makes the two zeroes equal.
pub open spec fn lt_bits(a: u64, b: u64) -> bool {
    &&& !is_nan_bits(a)
    &&& !is_nan_bits(b)
    &&& ord_key(a) < ord_key(b)
}

/// The IEEE `<=` predicate.
pub open spec fn le_bits(a: u64, b: u64) -> bool {
    &&& !is_nan_bits(a)
    &&& !is_nan_bits(b)
    &&& ord_key(a) <= ord_key(b)
}

/// The IEEE `==` predicate: NaN equals nothing, the two zeroes are equal,
/// and every other value has a unique pattern.
pub open spec fn eq_bits(a: u64, b: u64) -> bool {
    &&& !is_nan_bits(a)
    &&& !is_nan_bits(b)
    &&& ord_key(a) == ord_key(b)
}

/// The IEEE `>` predicate.
pub open spec fn gt_bits(a: u64, b: u64) -> bool {
    lt_bits(b, a)
}

/// The key of the IEEE total order: an injective map from patterns to
/// integers under which sign-set patterns descend as their bits grow.
/// It refines `ord_key` and also orders NaN patterns and the two zeroes.
pub open spec fn total_key(b: u64) -> int {
    if b >= SIGN_BIT {
        SIGN_BIT - b - 1
    } else {
        b as int
    }
}

/// The IEEE total order on patterns.
pub open spec fn total_le(a: u64, b: u64) -> bool {
    total_key(a) <= total_key(b)
}

/// The total order as a closure value, for `Seq::sort_by`.
pub open spec fn total_le_fn() -> spec_fn(u64, u64) -> bool {
    |a: u64, b: u64| total_le(a, b)
}

/// The NaN-ignoring minimum of two patterns: a NaN argument loses, and
/// otherwise the numerically smaller pattern is kept, the first on ties.
pub open spec fn min2_bits(a: u64, b: u64) -> u64 {
    if is_nan_bits(a) {
        b
    } else if is_nan_bits(b) {
        a
    } else if lt_bits(b, a) {
        b
    } else {
        a
    }
}

/// The NaN-ignoring maximum of two patterns.
pub open spec fn max2_bits(a: u64, b: u64) -> u64 {
    if is_nan_bits(a) {
        b
    } else if is_nan_bits(b) {
        a
    } else if lt_bits(a, b) {
        b
    } else {
        a
    }
}

/// The running minimum of a column, folded left to right from positive
/// infinity with `min2_bits`; NaN values are passed over.
pub open spec fn fold_min(s: Seq<u64>) -> u64
    decreases s.len(),
{
    if s.len() == 0 {
        POS_INF_BITS
    } else {
        min2_bits(fold_min(s.drop_last()), s.last())
    }
}

/// The running maximum of a column, folded left to right from negative
/// infinity with `max2_bits`.
pub open spec fn fold_max(s: Seq<u64>) -> u64
    decreases s.len(),
{
    if s.len() == 0 {
        NEG_INF_BITS
    } else {
        max2_bits(fold_max(s.drop_last()), s.last())
    }
}

/// Whether `b` is a NaN pattern.
pub fn is_nan_val(b: u64) -> (r: bool)
    ensures
        r == is_nan_bits(b),
{
    (b & ABS_MASK) > EXP_MASK
}

/// Whether `b` is an infinity pattern, of either sign.
pub fn is_infinite_val(b: u64) -> (r: bool)
    ensures
        r == is_inf_bits(b),
{
    (b & ABS_MASK) == EXP_MASK
}

/// The IEEE `<` comparison, computed on patterns.
pub fn lt_val(a: u64, b: u64) -> (r: bool)
    ensures
        r == lt_bits(a, b),
{
    let am = a & ABS_MASK;
    let bm = b & ABS_MASK;
    if am > EXP_MASK || bm > EXP_MASK {
        false
    } else if a >= SIGN_BIT {
        if b >= SIGN_BIT {
            am > bm
        } else {
            am != 0 || bm != 0
        }
    } else {
        if b >= SIGN_BIT {
            false
        } else {
            am < bm
        }
    }
}

/// The IEEE `<=` comparison, computed on patterns.
pub fn le_val(a: u64, b: u64) -> (r: bool)
    ensures
        r == le_bits(a, b),
{
    let am = a & ABS_MASK;
    let bm = b & ABS_MASK;
    if am > EXP_MASK || bm > EXP_MASK {
        false
    } else if a >= SIGN_BIT {
        if b >= SIGN_BIT {
            am >= bm
        } else {
            true
        }
    } else {
        if b >= SIGN_BIT {
            am == 0 && bm == 0
        } else {
            am <= bm
        }
    }
}

/// The IEEE total order, computed on patterns.
pub fn total_le_val(a: u64, b: u64) -> (r: bool)
    ensures
        r == total_le(a, b),
{
    if a >= SIGN_BIT {
        if b >= SIGN_BIT {
            a >= b
        } else {
            true
        }
    } else {
        if b >= SIGN_BIT {
            false
        } else {
            a <= b
        }
    }
}

/// The NaN-ignoring minimum, computed on patterns.
pub fn min2_val(a: u64, b: u64) -> (r: u64)
    ensures
        r == min2_bits(a, b),
{
    if is_nan_val(a) {
        b
    } else if is_nan_val(b) {
        a
    } else if lt_val(b, a) {
        b
    } else {
        a
    }
}

/// The NaN-ignoring maximum, computed on patterns.
pub fn max2_val(a: u64, b: u64) -> (r: u64)
    ensures
        r == max2_bits(a, b),
{
    if is_nan_val(a) {
        b
    } else if is_nan_val(b) {
        a
    } else if lt_val(a, b) {
        b
    } else {
        a
    }
}

/// The infinity patterns classify as infinities, not as NaN, and carry
/// their signs.
pub proof fn lemma_inf_classification()
    ensures
        is_inf_bits(POS_INF_BITS),
        is_inf_bits(NEG_INF_BITS),
        !is_nan_bits(POS_INF_BITS),
        !is_nan_bits(NEG_INF_BITS),
        !sign_bits(POS_INF_BITS),
        sign_bits(NEG_INF_BITS),
        forall|b: u64| !is_nan_bits(b) ==> le_bits(b, POS_INF_BITS),
        forall|b: u64| !is_nan_bits(b) ==> le_bits(NEG_INF_BITS, b),
{
    assert(0x7ff0_0000_0000_0000u64 & 0x7fff_ffff_ffff_ffffu64 == 0x7ff0_0000_0000_0000u64)
        by (bit_vector);
    assert(0xfff0_0000_0000_0000u64 & 0x7fff_ffff_ffff_ffffu64 == 0x7ff0_0000_0000_0000u64)
        by (bit_vector);
}

/// The running minimum is a true lower bound: never NaN, at or below every
/// non-NaN value of the column, and either the fold's starting positive
/// infinity — the column was empty or all NaN — or a value of the column.
pub proof fn lemma_fold_min_bounds(s: Seq<u64>)
    ensures
        !is_nan_bits(fold_min(s)),
        forall|j: int|
            0 <= j < s.len() && !is_nan_bits(s[j]) ==> le_bits(fold_min(s), #[trigger] s[j]),
        fold_min(s) == POS_INF_BITS || exists|j: int| 0 <= j < s.len() && s[j] == fold_min(s),
    decreases s.len(),
{
    lemma_inf_classification();
    if s.len() > 0 {
        lemma_fold_min_bounds(s.drop_last());
        assert(forall|j: int| 0 <= j < s.len() - 1 ==> s.drop_last()[j] == s[j]);
        let m0 = fold_min(s.drop_last());
        let m = fold_min(s);
        if m != POS_INF_BITS {
            if m == s.last() {
                assert(s[s.len() - 1] == m);
            } else {
                let j = choose|j: int| 0 <= j < s.len() - 1 && s.drop_last()[j] == m0;
                assert(s[j] == m);
            }
        }
    }
}

/// The running maximum is a true upper bound: never NaN, at or above every
/// non-NaN value of the column, and either the fold's starting negative
/// infinity — the column was empty or all NaN — or a value of the column.
pub proof fn lemma_fold_max_bounds(s: Seq<u64>)
    ensures
        !is_nan_bits(fold_max(s)),
        forall|j: int|
            0 <= j < s.len() && !is_nan_bits(s[j]) ==> le_bits(#[trigger] s[j], fold_max(s)),
        fold_max(s) == NEG_INF_BITS || exists|j: int| 0 <= j < s.len() && s[j] == fold_max(s),
    decreases s.len(),
{
    lemma_inf_classification();
    if s.len() > 0 {
        lemma_fold_max_bounds(s.drop_last());
        assert(forall|j: int| 0 <= j < s.len() - 1 ==> s.drop_last()[j] == s[j]);
        let m0 = fold_max(s.drop_last());
        let m = fold_max(s);
        if m != NEG_INF_BITS {
            if m == s.last() {
                assert(s[s.len() - 1] == m);
            } else {
                let j = choose|j: int| 0 <= j < s.len() - 1 && s.drop_last()[j] == m0;
                assert(s[j] == m);
            }
        }
    }
}

/// The total order is indeed total: reflexive, transitive, antisymmetric and
/// strongly connected, as `Seq::sort_by` requires.
pub proof fn lemma_total_le_is_total_ordering()
    ensures
        vstd::relations::total_ordering(total_le_fn()),
{
    assert forall|a: u64, b: u64| #[trigger] total_le_fn()(a, b) && total_le_fn()(b, a) implies a
        == b by {
        assert(total_key(a) == total_key(b));
    }
}

} // verus!
