//! The random choices of a workout: the order of the candidate pool and the
//! cool-down pick. Both come from the thread-local generator of `rand`.

use vstd::prelude::*;
use rand::seq::SliceRandom;
use rand::Rng;
use crate::sequences::swap_removed;

verus! {

/// Shuffles `vec` in place by `rand::seq::SliceRandom::shuffle`, with the
/// generator that `rand::thread_rng` hands out. The shuffle only swaps
/// elements, so the vector holds the same elements afterwards, each as often
/// as before; nothing is claimed of their order. `thread_rng` panics where the
/// operating system cannot seed the generator.
#[verifier::external_body]
pub(crate) fn shuffle_vector<T>(vec: &mut Vec<T>)
    ensures
        final(vec)@.to_multiset() == old(vec)@.to_multiset(),
{
    let mut rng = rand::thread_rng();
    vec.shuffle(&mut rng);
}

/// Draws an index below `len` by `rand::Rng::gen_range` on `0..len`, with the
/// generator that `rand::thread_rng` hands out. `gen_range` panics on an
/// empty range, which `len > 0` rules out; the result lies in the range, and
/// nothing else is claimed of it.
#[verifier::external_body]
pub(crate) fn random_index(len: usize) -> (index: usize)
    requires
        len > 0,
    ensures
        index < len,
{
    rand::thread_rng().gen_range(0..len)
}

/// Takes a random element out of `vec`, filling the gap with the last
/// element. Nothing is taken from an empty vector.
pub fn remove_random<T>(vec: &mut Vec<T>) -> (removed: Option<T>)
    ensures
        removed is None <==> old(vec)@.len() == 0,
        removed is None ==> final(vec)@ == old(vec)@,
        removed matches Some(item) ==> exists|i: int|
            0 <= i < old(vec)@.len() && item == old(vec)@[i] && final(vec)@ == #[trigger] swap_removed(
                old(vec)@,
                i,
            ),
{
    if vec.is_empty() {
        None
    } else {
        let index = random_index(vec.len());
        let item = vec.swap_remove(index);
        assert(vec@ == swap_removed(old(vec)@, index as int));
        Some(item)
    }
}

} // verus!
