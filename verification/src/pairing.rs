use vstd::prelude::*;
use crate::error::ShapeError;

verus! {

/// The atoms of two chains of equal length, taken pair by pair in chain order.
pub open spec fn paired<P>(a: Seq<P>, b: Seq<P>) -> Seq<(P, P)> {
    Seq::new(a.len(), |i: int| (a[i], b[i]))
}

/// Pairs the atoms of two chains for an atom-by-atom comparison.
///
/// Fails with `LengthMismatch` exactly when the chains differ in length:
/// nothing is cut to the shorter one.
pub fn pair_atoms<P: Copy>(a: &Vec<P>, b: &Vec<P>) -> (pairs: Result<Vec<(P, P)>, ShapeError>)
    ensures
        pairs.is_ok() <==> a@.len() == b@.len(),
        pairs.is_err() ==> pairs == Err::<Vec<(P, P)>, ShapeError>(ShapeError::LengthMismatch),
        pairs.is_ok() ==> pairs.unwrap()@ == paired(a@, b@),
{
    if a.len() != b.len() {
        return Err(ShapeError::LengthMismatch);
    }
    let mut pairs: Vec<(P, P)> = Vec::new();
    let mut i: usize = 0;
    while i < a.len()
        invariant
            a@.len() == b@.len(),
            i <= a@.len(),
            pairs@ == paired(a@.take(i as int), b@.take(i as int)),
        decreases a.len() - i,
    {
        pairs.push((a[i], b[i]));
        proof {
            assert(pairs@ =~= paired(a@.take(i + 1), b@.take(i + 1)));
        }
        i += 1;
    }
    proof {
        assert(a@.take(i as int) =~= a@);
        assert(b@.take(i as int) =~= b@);
    }
    Ok(pairs)
}

/// Pairing a chain with itself gives every atom beside itself, and
/// pairing two chains the other way round swaps every pair.
pub proof fn lemma_paired_symmetry<P>(a: Seq<P>, b: Seq<P>)
    requires
        a.len() == b.len(),
    ensures
        paired(a, b).len() == paired(b, a).len(),
        forall|i: int|
            0 <= i < a.len() ==> (#[trigger] paired(a, b)[i]).0 == paired(b, a)[i].1 && paired(
                a,
                b,
            )[i].1 == paired(b, a)[i].0,
        forall|i: int| 0 <= i < a.len() ==> (#[trigger] paired(a, a)[i]).0 == paired(a, a)[i].1,
{
}

} // verus!
