//! Integer square root on 128-bit values.

use vstd::prelude::*;

verus! {

/// `root` is the integer part of the square root of `value`.
pub open spec fn is_floor_sqrt(value: nat, root: nat) -> bool {
    root * root <= value < (root + 1) * (root + 1)
}

/// The integer part of the square root of `value`.
pub open spec fn floor_sqrt(value: nat) -> nat {
    choose|root: nat| is_floor_sqrt(value, root)
}

/// Every natural number has an integer square root.
pub proof fn lemma_floor_sqrt_exists(value: nat)
    ensures
        is_floor_sqrt(value, floor_sqrt(value)),
    decreases value,
{
    if value == 0 {
        assert(0nat * 0nat <= 0 < (0nat + 1) * (0nat + 1)) by (nonlinear_arith);
        assert(is_floor_sqrt(0, 0));
    } else {
        let below = (value - 1) as nat;
        lemma_floor_sqrt_exists(below);
        let r = floor_sqrt(below);
        if (r + 1) * (r + 1) <= value {
            assert((r + 2) * (r + 2) > (r + 1) * (r + 1) + 1) by (nonlinear_arith);
            assert(is_floor_sqrt(value, r + 1));
        } else {
            assert(is_floor_sqrt(value, r));
        }
    }
}

/// The integer square root is unique.
pub proof fn lemma_floor_sqrt_unique(value: nat, root: nat)
    requires
        is_floor_sqrt(value, root),
    ensures
        root == floor_sqrt(value),
{
    lemma_floor_sqrt_exists(value);
    let other = floor_sqrt(value);
    assert(root == other) by (nonlinear_arith)
        requires
            root * root <= value < (root + 1) * (root + 1),
            other * other <= value < (other + 1) * (other + 1),
    {
        if root < other {
            assert((root + 1) * (root + 1) <= other * other);
        } else if other < root {
            assert((other + 1) * (other + 1) <= root * root);
        }
    }
}

/// The integer square root never shrinks when its argument grows.
pub proof fn lemma_floor_sqrt_monotonic(small: nat, large: nat)
    requires
        small <= large,
    ensures
        floor_sqrt(small) <= floor_sqrt(large),
{
    lemma_floor_sqrt_exists(small);
    lemma_floor_sqrt_exists(large);
    let a = floor_sqrt(small);
    let b = floor_sqrt(large);
    assert(a <= b) by (nonlinear_arith)
        requires
            a * a <= small,
            small <= large,
            large < (b + 1) * (b + 1),
    {
        if b < a {
            assert((b + 1) * (b + 1) <= a * a);
        }
    }
}

/// Returns the largest `root` whose square does not exceed `value`.
///
/// The search halves an interval that always brackets the root, so it ends
/// after 64 rounds and no intermediate square leaves 128 bits.
pub fn integer_sqrt(value: u128) -> (root: u128)
    ensures
        root * root <= value,
        value < (root + 1) * (root + 1),
        root <= u64::MAX,
        root == floor_sqrt(value as nat),
{
    let mut low: u128 = 0;
    let mut high: u128 = 0x1_0000_0000_0000_0000;
    assert(0x1_0000_0000_0000_0000int * 0x1_0000_0000_0000_0000int > u128::MAX);
    while high - low > 1
        invariant
            low < high <= 0x1_0000_0000_0000_0000,
            low * low <= value < high * high,
        decreases high - low,
    {
        let middle: u128 = low + (high - low) / 2;
        assert(middle * middle <= u128::MAX) by (nonlinear_arith)
            requires
                middle <= 0xffff_ffff_ffff_ffff,
        ;
        if middle * middle <= value {
            low = middle;
        } else {
            high = middle;
        }
    }
    proof {
        assert(is_floor_sqrt(value as nat, low as nat));
        lemma_floor_sqrt_unique(value as nat, low as nat);
    }
    low
}

} // verus!
