//! Threshold arithmetic: how many more units reach the next qualification
//! tier, given the per-tier requirement and the quantity already credited.

use vstd::prelude::*;

verus! {

/// The smallest positive amount that brings a running total of `c` credited
/// units up to the next strict multiple of the tier size `n`.  Reaching a
/// multiple exactly does not count toward the tier after it, so a customer
/// sitting exactly on a multiple still owes a full additional tier.
pub open spec fn shortfall(n: int, c: int) -> int {
    n - c % n
}

/// Units still to buy before the next qualification tier is reached.
///
/// For a tier size `qty_needed` and `qty_claimed` units already credited:
/// below the tier the plain difference is owed; exactly on a tier a whole
/// further tier is owed; above a tier, the remainder to the next strict
/// multiple is owed.
pub fn get_amount_missing_for_next_promo(qty_needed: i64, qty_claimed: i64) -> (r: i64)
    requires
        qty_needed > 0,
        qty_claimed >= 0,
    ensures
        r == shortfall(qty_needed as int, qty_claimed as int),
        1 <= r <= qty_needed,
{
    proof {
        lemma_shortfall_next_tier(qty_needed as int, qty_claimed as int);
    }
    if qty_claimed < qty_needed {
        assert(qty_claimed % qty_needed == qty_claimed) by {
            vstd::arithmetic::div_mod::lemma_small_mod(
                qty_claimed as nat,
                qty_needed as nat,
            );
        };
        qty_needed - qty_claimed
    } else if qty_claimed == qty_needed {
        assert(qty_claimed % qty_needed == 0) by {
            vstd::arithmetic::div_mod::lemma_mod_self_0(qty_needed as int);
        };
        qty_needed
    } else {
        qty_needed - qty_claimed % qty_needed
    }
}

/// Buying exactly the shortfall lands the running total on a multiple of the
/// tier size, the shortfall is always at least one unit (so progress is always
/// demanded), and it never exceeds one whole tier.
pub proof fn lemma_shortfall_next_tier(n: int, c: int)
    requires
        n > 0,
        c >= 0,
    ensures
        1 <= shortfall(n, c) <= n,
        (c + shortfall(n, c)) % n == 0,
        c + shortfall(n, c) > c,
{
    vstd::arithmetic::div_mod::lemma_mod_bound(c, n);
    vstd::arithmetic::div_mod::lemma_fundamental_div_mod(c, n);
    assert(c + shortfall(n, c) == n * (c / n + 1)) by {
        assert(c == n * (c / n) + c % n);
        assert(n * (c / n) + n == n * (c / n + 1)) by (nonlinear_arith);
    };
    vstd::arithmetic::div_mod::lemma_mod_multiples_basic(c / n + 1, n);
}

} // verus!
