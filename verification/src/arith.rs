//! Powers of two, as the codec engine rounds its shard counts to them.

use vstd::prelude::*;

verus! {

/// 2 to the power `e`.
pub open spec fn two_pow(e: nat) -> nat
    decreases e,
{
    if e == 0 {
        1
    } else {
        2 * two_pow((e - 1) as nat)
    }
}

/// The floor of the base-2 logarithm; 0 and 1 both map to 0.
pub open spec fn floor_log2(x: nat) -> nat
    decreases x,
{
    if x <= 1 {
        0
    } else {
        floor_log2(x / 2) + 1
    }
}

/// Whether `x` is a power of two; zero is not.
pub open spec fn is_pow2(x: nat) -> bool
    decreases x,
{
    if x == 0 {
        false
    } else if x == 1 {
        true
    } else {
        x % 2 == 0 && is_pow2(x / 2)
    }
}

/// The greatest power of two at most `x`, for `x >= 1`.
pub open spec fn lower_pow2(x: nat) -> nat {
    if is_pow2(x) {
        x
    } else {
        two_pow(floor_log2(x))
    }
}

/// The least power of two at least `x`, for `x >= 1`.
pub open spec fn higher_pow2(x: nat) -> nat {
    if is_pow2(x) {
        x
    } else {
        two_pow(floor_log2(x) + 1)
    }
}

pub proof fn lemma_two_pow_pos(e: nat)
    ensures
        two_pow(e) >= 1,
    decreases e,
{
    if e > 0 {
        lemma_two_pow_pos((e - 1) as nat);
    }
}

pub proof fn lemma_two_pow_monotone(a: nat, b: nat)
    requires
        a <= b,
    ensures
        two_pow(a) <= two_pow(b),
    decreases b,
{
    if a == 0 {
        lemma_two_pow_pos(b);
        if b > 0 {
            lemma_two_pow_pos((b - 1) as nat);
        }
    } else {
        lemma_two_pow_monotone((a - 1) as nat, (b - 1) as nat);
    }
}

pub proof fn lemma_two_pow_is_pow2(e: nat)
    ensures
        is_pow2(two_pow(e)),
    decreases e,
{
    if e > 0 {
        lemma_two_pow_is_pow2((e - 1) as nat);
        lemma_two_pow_pos((e - 1) as nat);
        assert(two_pow(e) == 2 * two_pow((e - 1) as nat));
        assert(two_pow(e) / 2 == two_pow((e - 1) as nat));
    }
}

/// A power of two is exactly 2 to its floor log.
pub proof fn lemma_pow2_repr(x: nat)
    requires
        is_pow2(x),
    ensures
        x == two_pow(floor_log2(x)),
    decreases x,
{
    if x > 1 {
        lemma_pow2_repr(x / 2);
    }
}

pub proof fn lemma_two_pow_log_le(x: nat)
    requires
        x >= 1,
    ensures
        two_pow(floor_log2(x)) <= x,
    decreases x,
{
    if x > 1 {
        lemma_two_pow_log_le(x / 2);
    }
}

pub proof fn lemma_two_pow_log_gt(x: nat)
    requires
        x >= 1,
    ensures
        x < two_pow(floor_log2(x) + 1),
    decreases x,
{
    if x <= 1 {
        assert(two_pow(1) == 2 * two_pow(0));
    } else {
        lemma_two_pow_log_gt(x / 2);
        assert(two_pow(floor_log2(x) + 1) == 2 * two_pow(floor_log2(x / 2) + 1));
    }
}

pub proof fn lemma_floor_log2_monotone(x: nat, y: nat)
    requires
        x <= y,
    ensures
        floor_log2(x) <= floor_log2(y),
    decreases y,
{
    if x > 1 {
        lemma_floor_log2_monotone(x / 2, y / 2);
    }
}

/// `lower_pow2` lands on a power of two between 1 and `x`.
pub proof fn lemma_lower_pow2_bounds(x: nat)
    requires
        x >= 1,
    ensures
        is_pow2(lower_pow2(x)),
        1 <= lower_pow2(x),
        lower_pow2(x) <= x,
{
    if !is_pow2(x) {
        lemma_two_pow_is_pow2(floor_log2(x));
        lemma_two_pow_pos(floor_log2(x));
        lemma_two_pow_log_le(x);
    }
}

/// `higher_pow2` lands on a power of two at least `x`.
pub proof fn lemma_higher_pow2_bounds(x: nat)
    requires
        x >= 1,
    ensures
        is_pow2(higher_pow2(x)),
        x <= higher_pow2(x),
{
    if !is_pow2(x) {
        lemma_two_pow_is_pow2(floor_log2(x) + 1);
        lemma_two_pow_log_gt(x);
    }
}

/// Between two distinct powers of two there is room for a factor of two.
pub proof fn lemma_pow2_lt_double(a: nat, b: nat)
    requires
        is_pow2(a),
        is_pow2(b),
        a < b,
    ensures
        2 * a <= b,
{
    lemma_pow2_repr(a);
    lemma_pow2_repr(b);
    if floor_log2(a) >= floor_log2(b) {
        lemma_two_pow_monotone(floor_log2(b), floor_log2(a));
        assert(false);
    }
    assert(two_pow(floor_log2(a) + 1) == 2 * two_pow(floor_log2(a)));
    lemma_two_pow_monotone(floor_log2(a) + 1, floor_log2(b));
}

/// The next power of two of a count within the field does not leave the field.
pub proof fn lemma_higher_pow2_field(n: nat)
    requires
        1 <= n <= 65536,
    ensures
        higher_pow2(n) <= 65536,
{
    if !is_pow2(n) {
        assert(is_pow2(65536)) by {
            reveal_with_fuel(is_pow2, 18);
        }
        assert(n < 65536);
        lemma_floor_log2_monotone(n, 65535);
        assert(floor_log2(65535) == 15) by {
            reveal_with_fuel(floor_log2, 17);
        }
        lemma_two_pow_monotone(floor_log2(n) + 1, 16);
        assert(two_pow(16) == 65536) by {
            reveal_with_fuel(two_pow, 18);
        }
    }
}

/// The recovery threshold `(n - 1) / 3 + 1` of a valid validator count fits
/// the engine: rounded down to a power of two and doubled, it stays within
/// the shard count rounded up to a power of two.
pub proof fn lemma_threshold_fit(n: nat)
    requires
        2 <= n <= 65536,
    ensures
        1 <= (n - 1) / 3 + 1,
        (n - 1) / 3 + 1 < n,
        1 <= lower_pow2(((n - 1) / 3 + 1) as nat),
        lower_pow2(((n - 1) / 3 + 1) as nat) <= (n - 1) / 3 + 1,
        2 * lower_pow2(((n - 1) / 3 + 1) as nat) <= higher_pow2(n),
        higher_pow2(n) <= 65536,
{
    let k = ((n - 1) / 3 + 1) as nat;
    assert((n - 1) / 3 < n - 1 || n == 2) by (nonlinear_arith)
        requires 2 <= n;
    lemma_lower_pow2_bounds(k);
    lemma_higher_pow2_bounds(n);
    assert(k < n);
    assert(lower_pow2(k) < higher_pow2(n));
    lemma_pow2_lt_double(lower_pow2(k), higher_pow2(n));
    lemma_higher_pow2_field(n);
}

} // verus!
