//! Keys for doubles: integers whose order is the order of the doubles.
//!
//! A double is a sign bit above a 63-bit magnitude, and among the doubles
//! that are not NaN the larger magnitude is the larger positive and the
//! smaller negative number. A key is the magnitude itself for a pattern
//! without the sign bit, and below zero by one more than the magnitude for a
//! pattern with it: keys grow as the doubles do, and negative zero comes
//! just below zero. The patterns of NaN lie beyond both infinities.
use vstd::prelude::*;

verus! {

/// The sign bit of a pattern is set.
pub open spec fn is_negative(bits: u64) -> bool {
    bits & 0x8000_0000_0000_0000 != 0
}

/// The 63 bits below the sign bit.
pub open spec fn magnitude(bits: u64) -> int {
    (bits & 0x7FFF_FFFF_FFFF_FFFF) as int
}

/// The pattern read as sign and magnitude.
pub open spec fn signed_magnitude(bits: u64) -> int {
    if is_negative(bits) {
        -magnitude(bits)
    } else {
        magnitude(bits)
    }
}

/// The key of a pattern.
pub open spec fn key_of(bits: u64) -> int {
    if is_negative(bits) {
        -magnitude(bits) - 1
    } else {
        magnitude(bits)
    }
}

/// The key of the double with the given bit pattern.
pub fn key(bits: u64) -> (k: i64)
    ensures
        k == key_of(bits),
{
    let low: u64 = bits & 0x7FFF_FFFF_FFFF_FFFF;
    assert(bits & 0x7FFF_FFFF_FFFF_FFFF <= 0x7FFF_FFFF_FFFF_FFFF) by (bit_vector);
    if bits & 0x8000_0000_0000_0000 != 0 {
        -(low as i64) - 1
    } else {
        low as i64
    }
}

/// The bit pattern of the double with the given key.
pub fn pattern(k: i64) -> (bits: u64)
    ensures
        key_of(bits) == k,
{
    if k < 0 {
        let low: u64 = (-(k + 1)) as u64;
        assert(low <= 0x7FFF_FFFF_FFFF_FFFF ==> (low | 0x8000_0000_0000_0000)
            & 0x7FFF_FFFF_FFFF_FFFF == low && (low | 0x8000_0000_0000_0000) & 0x8000_0000_0000_0000
            != 0) by (bit_vector);
        low | 0x8000_0000_0000_0000
    } else {
        let low: u64 = k as u64;
        assert(low <= 0x7FFF_FFFF_FFFF_FFFF ==> low & 0x7FFF_FFFF_FFFF_FFFF == low && low
            & 0x8000_0000_0000_0000 == 0) by (bit_vector);
        low
    }
}

/// A pattern is its sign bit and its magnitude, and nothing else.
proof fn lemma_pattern_parts(a: u64, b: u64)
    ensures
        0 <= magnitude(a) <= 0x7FFF_FFFF_FFFF_FFFF,
        is_negative(a) == is_negative(b) && magnitude(a) == magnitude(b) ==> a == b,
{
    assert(a & 0x7FFF_FFFF_FFFF_FFFF <= 0x7FFF_FFFF_FFFF_FFFF) by (bit_vector);
    assert(((a & 0x8000_0000_0000_0000 != 0) == (b & 0x8000_0000_0000_0000 != 0)) && a
        & 0x7FFF_FFFF_FFFF_FFFF == b & 0x7FFF_FFFF_FFFF_FFFF ==> a == b) by (bit_vector);
}

/// Every pattern has a key of its own, so `pattern` undoes `key`.
pub proof fn lemma_key_is_one_to_one(a: u64, b: u64)
    ensures
        key_of(a) == key_of(b) <==> a == b,
        -0x8000_0000_0000_0000 <= key_of(a) <= 0x7FFF_FFFF_FFFF_FFFF,
{
    lemma_pattern_parts(a, b);
    lemma_pattern_parts(b, a);
}

/// Keys grow as the patterns do when read as sign and magnitude: the pattern
/// that reads smaller has the smaller key, and of the two patterns that read
/// zero the one with the sign bit has the smaller key.
pub proof fn lemma_key_keeps_order(a: u64, b: u64)
    ensures
        signed_magnitude(a) < signed_magnitude(b) ==> key_of(a) < key_of(b),
        key_of(a) < key_of(b) ==> signed_magnitude(a) < signed_magnitude(b) || (magnitude(a) == 0
            && magnitude(b) == 0 && is_negative(a) && !is_negative(b)),
{
    lemma_pattern_parts(a, b);
    lemma_pattern_parts(b, a);
}

/// The key of zero.
pub const ZERO: i64 = 0;

/// The key of one.
pub const ONE: i64 = 0x3FF0_0000_0000_0000;

/// The key of positive infinity. Negative infinity has the key
/// `-INFINITY - 1`.
pub const INFINITY: i64 = 0x7FF0_0000_0000_0000;

/// The key stands for a number: it lies between the keys of the two
/// infinities, so it is no key of a NaN.
pub open spec fn is_number(k: int) -> bool {
    -INFINITY - 1 <= k <= INFINITY
}

/// The place of a key among the numbers, with positive and negative zero,
/// which are equal as doubles, at the same place.
pub open spec fn rank(k: int) -> int {
    if k < 0 {
        k + 1
    } else {
        k
    }
}

/// The double with key `a` is less than the double with key `b`, as doubles
/// compare: nothing is less than a NaN, a NaN is less than nothing, and
/// negative zero is not less than zero.
pub open spec fn precedes(a: int, b: int) -> bool {
    is_number(a) && is_number(b) && rank(a) < rank(b)
}

/// Whether the double with key `a` is less than the double with key `b`.
pub fn less(a: i64, b: i64) -> (r: bool)
    ensures
        r == precedes(a as int, b as int),
{
    if a < -INFINITY - 1 || a > INFINITY || b < -INFINITY - 1 || b > INFINITY {
        return false;
    }
    let rank_a: i64 = if a < 0 { a + 1 } else { a };
    let rank_b: i64 = if b < 0 { b + 1 } else { b };
    rank_a < rank_b
}

/// Among numbers, `precedes` is the order of the keys but for the two zeros:
/// a smaller key never comes after, and of two different keys one precedes
/// the other unless both are zeros.
pub proof fn lemma_precedes_follows_keys(a: int, b: int)
    requires
        is_number(a),
        is_number(b),
    ensures
        precedes(a, b) ==> a < b,
        a < b ==> precedes(a, b) || (a == -1 && b == 0),
        !(precedes(a, b) && precedes(b, a)),
{
}

} // verus!
