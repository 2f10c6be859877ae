//! Progress fractions, as integer thousandths.
//!
//! A job with `total` chunks reports, after its chunk numbered `done`
//! succeeds, the fraction `0.9 * done / total`, held here as a permille
//! value `900 * done / total`.  Combining the fragments is reported at 950
//! and completion at 1000; no fraction ever exceeds 1000 and the values a
//! job emits never decrease.

use vstd::arithmetic::div_mod::{lemma_div_by_multiple, lemma_div_is_ordered};
use vstd::prelude::*;

verus! {

/// The permille fraction reported after `done` of `total` chunks: nine
/// tenths of the chunk share, leaving room for the merge step.
pub open spec fn spec_progress_permille(done: nat, total: nat) -> nat
    recommends
        0 < total,
{
    ((900 * (done as int)) / (total as int)) as nat
}

/// The permille fraction reported before the concatenation call.
pub open spec fn combining_permille() -> nat {
    950
}

/// The permille fraction reported at completion.
pub open spec fn complete_permille() -> nat {
    1000
}

/// Chunk progress never decreases and never passes 900.
pub proof fn lemma_progress_monotone(d1: nat, d2: nat, total: nat)
    requires
        0 < total,
        d1 <= d2 <= total,
    ensures
        spec_progress_permille(d1, total) <= spec_progress_permille(d2, total),
        spec_progress_permille(d2, total) <= 900,
{
    lemma_div_is_ordered(900 * (d1 as int), 900 * (d2 as int), total as int);
    lemma_div_is_ordered(900 * (d2 as int), 900 * (total as int), total as int);
    lemma_div_by_multiple(900, total as int);
    assert(900 * (total as int) == (900 as int) * (total as int));
}

/// Compute the permille fraction after `done` of `total` chunks.
pub fn progress_permille(done: usize, total: usize) -> (p: u32)
    requires
        0 < total,
        done <= total,
    ensures
        p == spec_progress_permille(done as nat, total as nat),
        p <= 900,
{
    proof {
        lemma_progress_monotone(done as nat, done as nat, total as nat);
    }
    let w: u128 = (900 as u128) * (done as u128) / (total as u128);
    w as u32
}

} // verus!
