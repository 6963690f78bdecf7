use vstd::prelude::*;

verus! {

#[verifier::external_type_specification]
#[verifier::external_body]
pub struct ExStdRng(rand::rngs::StdRng);

/// Relies on rand's `seq::index::sample_weighted` (weighted sampling
/// without replacement): for `amount <= weights.len()` it returns exactly
/// `amount` distinct indices below `weights.len()`, biased toward larger
/// weights; which indices come back depends on the generator's state, so
/// nothing more is promised. Unsigned integer weights convert to
/// nonnegative finite doubles, so the draw cannot report invalid weights.
#[verifier::external_body]
pub fn draw_weighted_indices(
    rng: &mut rand::rngs::StdRng,
    weights: &Vec<u32>,
    amount: usize,
) -> (r: Vec<usize>)
    requires
        amount <= weights@.len(),
    ensures
        r@.len() == amount,
        forall|i: int| 0 <= i < r@.len() ==> r@[i] < weights@.len(),
        forall|i: int, j: int| 0 <= i < j < r@.len() ==> r@[i] != r@[j],
{
    let picked = rand::seq::index::sample_weighted(
        rng,
        weights.len(),
        |i: usize| weights[i],
        amount,
    ).expect("unsigned integer weights are nonnegative and finite");
    picked.into_iter().collect()
}

} // verus!
