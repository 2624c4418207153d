use vstd::prelude::*;

verus! {

/// Draws from macroquad's global generator (`macroquad::rand::gen_range`
/// with bounds `0` and `n`). For `n > 0` the draw is below `n`; for `n == 0`
/// it is `0`. The value itself depends on the generator's hidden state, so
/// nothing more is claimed.
#[verifier::external_body]
pub(crate) fn random_below(n: u32) -> (r: u32)
    ensures
        n > 0 ==> r < n,
        n == 0 ==> r == 0,
{
    macroquad::rand::gen_range(0u32, n)
}

} // verus!
