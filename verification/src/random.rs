//! Chance. The draws are made by the `rand` crate; nothing here is proved
//! of them, and the rest of the library counts only on what is written
//! down here.

use vstd::prelude::*;
use rand::seq::SliceRandom;
use rand::Rng;
use crate::upgrade::UpgradeEffect;

verus! {

/// `picked` holds the upgrades at `amount` different places of `pool`,
/// or at all of its places if it has fewer, in any order.
pub open spec fn is_draw(pool: Seq<UpgradeEffect>, amount: int, picked: Seq<UpgradeEffect>) -> bool {
    &&& picked.len() == if amount < pool.len() {
        amount
    } else {
        pool.len() as int
    }
    &&& exists|places: Seq<int>|
        {
            &&& places.len() == picked.len()
            &&& places.no_duplicates()
            &&& forall|k: int|
                0 <= k < places.len() ==> 0 <= #[trigger] places[k] < pool.len() && picked[k]
                    == pool[places[k]]
        }
}

/// Draws a number with `rand::Rng::gen_range` over `0..bound`, from the
/// generator of the running thread. Taken on trust from the crate: the
/// number is below `bound`. The crate panics on an empty range, so `bound`
/// must not be zero.
#[verifier::external_body]
pub(crate) fn random_below(bound: u32) -> (drawn: u32)
    requires
        bound > 0,
    ensures
        drawn < bound,
{
    rand::thread_rng().gen_range(0..bound)
}

/// Draws upgrades with `rand::seq::SliceRandom::choose_multiple`, from the
/// generator of the running thread. Taken on trust from the crate: it picks
/// `amount` different places of the slice, or all of them if the slice is
/// shorter, and hands out what stands there, in an order of its choice.
#[verifier::external_body]
pub(crate) fn choose_upgrades(pool: &Vec<UpgradeEffect>, amount: usize) -> (picked: Vec<
    UpgradeEffect,
>)
    ensures
        is_draw(pool@, amount as int, picked@),
{
    pool.choose_multiple(&mut rand::thread_rng(), amount).cloned().collect()
}

} // verus!
