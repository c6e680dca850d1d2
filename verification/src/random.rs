use rand::rngs::ThreadRng;
use rand::Rng;
use vstd::prelude::*;

verus! {

/// `rand`'s handle to the generator of the calling thread, carried through as
/// an opaque value.
#[verifier::external_type_specification]
#[verifier::external_body]
pub struct ExThreadRng(ThreadRng);

/// Calls `rand::thread_rng`: the handle to the calling thread's generator.
/// Nothing is claimed of the stream it yields.
#[verifier::external_body]
pub(crate) fn local_rng() -> (rng: ThreadRng) {
    rand::thread_rng()
}

/// Calls `Rng::gen_range(0, bound)` on `usize`. Trusted: the draw lies in
/// `[0, bound)`. The call panics on an empty range, so `bound` is positive.
#[verifier::external_body]
pub(crate) fn draw_below(rng: &mut ThreadRng, bound: usize) -> (draw: usize)
    requires
        bound > 0,
    ensures
        draw < bound,
{
    rng.gen_range(0usize, bound)
}

} // verus!
