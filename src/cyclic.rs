//! Cyclic navigation: arithmetic modulo a cycle length fixed at compile time.
use vstd::prelude::*;

verus! {

/// Relies on `num::Integer::mod_floor` for `usize`: the remainder of `a`
/// divided by `m` (for unsigned integers it is `a % m`; it panics on `m == 0`).
#[verifier::external_body]
pub(crate) fn mod_floor(a: usize, m: usize) -> (r: usize)
    requires
        m > 0,
    ensures
        r == a % m,
{
    num::Integer::mod_floor(&a, &m)
}

/// `(a + b)` reduced modulo `LIMIT`.
pub fn safe_add<const LIMIT: usize>(a: usize, b: usize) -> (r: usize)
    requires
        LIMIT > 0,
        a + b <= usize::MAX,
    ensures
        r == (a + b) % (LIMIT as int),
        r < LIMIT,
{
    mod_floor(a + b, LIMIT)
}

/// The successor of `value` on a cycle of length `LIMIT`.
pub fn add1<const LIMIT: usize>(value: usize) -> (r: usize)
    requires
        LIMIT > 0,
        value < usize::MAX,
    ensures
        r == (value + 1) % (LIMIT as int),
{
    safe_add::<LIMIT>(value, 1)
}

/// The predecessor of `value` on a cycle of length `LIMIT`.
pub fn sub1<const LIMIT: usize>(value: usize) -> (r: usize)
    requires
        LIMIT > 0,
        value + LIMIT - 1 <= usize::MAX,
    ensures
        r == (value + LIMIT - 1) % (LIMIT as int),
        value < LIMIT ==> r == if value == 0 { LIMIT - 1 } else { (value - 1) as int },
{
    let r = safe_add::<LIMIT>(value, LIMIT - 1);
    proof {
        if value < LIMIT {
            if value == 0 {
                vstd::arithmetic::div_mod::lemma_small_mod((LIMIT - 1) as nat, LIMIT as nat);
            } else {
                vstd::arithmetic::div_mod::lemma_mod_add_multiples_vanish((value - 1) as int, LIMIT as int);
                vstd::arithmetic::div_mod::lemma_small_mod((value - 1) as nat, LIMIT as nat);
            }
        }
    }
    r
}

} // verus!
