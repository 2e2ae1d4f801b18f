use vstd::prelude::*;
use crate::error::ShapeError;

verus! {

/// A raw predictor vector together with the bond length shared by the
/// whole chain.
///
/// The vector of `3n` entries is read as three channels of `n` entries
/// each: the normalised planar angles, then the sines of the dihedral
/// angles, then their cosines.
#[derive(Clone, Debug)]
pub struct Output<T> {
    vector: Vec<T>,
    bond_length: T,
}

/// Number of residues described by a vector of `len` entries.
pub open spec fn residues(len: nat) -> nat {
    len / 3
}

/// The planar-angle channel of `v`: its first third.
pub open spec fn alpha_channel<T>(v: Seq<T>) -> Seq<T> {
    v.subrange(0, residues(v.len()) as int)
}

/// The sine channel of `v`: its second third.
pub open spec fn sin_channel<T>(v: Seq<T>) -> Seq<T> {
    v.subrange(residues(v.len()) as int, 2 * (residues(v.len()) as int))
}

/// The cosine channel of `v`: its last third.
pub open spec fn cos_channel<T>(v: Seq<T>) -> Seq<T> {
    v.subrange(2 * (residues(v.len()) as int), 3 * (residues(v.len()) as int))
}

/// A vector is well shaped when it splits into three channels of equal length.
pub open spec fn well_shaped(len: nat) -> bool {
    len % 3 == 0
}

/// Each channel holds one entry per residue, and the three channels of a
/// well-shaped vector, one after the other, make up the vector: no entry
/// is read twice and none is left over.
pub proof fn lemma_channels_partition<T>(v: Seq<T>)
    requires
        well_shaped(v.len()),
    ensures
        alpha_channel(v).len() == residues(v.len()),
        sin_channel(v).len() == residues(v.len()),
        cos_channel(v).len() == residues(v.len()),
        3 * residues(v.len()) == v.len(),
        alpha_channel(v) + sin_channel(v) + cos_channel(v) == v,
{
    assert(alpha_channel(v) + sin_channel(v) + cos_channel(v) =~= v);
}

impl<T: Copy> Output<T> {
    /// The raw vector.
    pub closed spec fn view(&self) -> Seq<T> {
        self.vector@
    }

    /// The bond length shared by the chain.
    pub closed spec fn spec_bond_length(&self) -> T {
        self.bond_length
    }

    /// Takes a raw vector of any length. Its shape is checked by
    /// `is_well_shaped` and by `decode`; the channels are read from a
    /// well-shaped vector only.
    pub fn new(vector: Vec<T>, bond_length: T) -> (out: Self)
        ensures
            out@ == vector@,
            out.spec_bond_length() == bond_length,
    {
        Output { vector, bond_length }
    }

    /// The raw vector, as it was given.
    pub fn vector(&self) -> (v: &Vec<T>)
        ensures
            v@ == self@,
    {
        &self.vector
    }

    /// The bond length shared by the chain.
    pub fn bond_length(&self) -> (r: T)
        ensures
            r == self.spec_bond_length(),
    {
        self.bond_length
    }

    /// Whether the vector splits into three channels of equal length.
    pub fn is_well_shaped(&self) -> (ok: bool)
        ensures
            ok == well_shaped(self@.len()),
    {
        self.vector.len() % 3 == 0
    }

    /// Number of residues of a well-shaped vector: a third of its length.
    pub fn n(&self) -> (n: usize)
        requires
            well_shaped(self@.len()),
        ensures
            n == residues(self@.len()),
            3 * n == self@.len(),
    {
        self.vector.len() / 3
    }

    /// The planar angles: each entry of the first channel, passed through `scale`.
    pub fn alpha<A, F: Fn(T) -> A>(&self, scale: F) -> (alpha: Vec<A>)
        requires
            well_shaped(self@.len()),
            forall|i: int|
                0 <= i < residues(self@.len()) ==> call_requires(scale, (alpha_channel(self@)[i],)),
        ensures
            alpha@.len() == residues(self@.len()),
            forall|i: int| 0 <= i < alpha@.len() ==> call_ensures(
                scale,
                (alpha_channel(self@)[i],),
                #[trigger] alpha@[i],
            ),
    {
        let end: usize = self.n();
        let mut alpha: Vec<A> = Vec::new();
        let mut i: usize = 0;
        while i < end
            invariant
                end == residues(self@.len()),
                i <= end,
                alpha@.len() == i,
                forall|k: int|
                    0 <= k < residues(self@.len()) ==> call_requires(
                        scale,
                        (alpha_channel(self@)[k],),
                    ),
                forall|k: int| 0 <= k < i ==> call_ensures(
                    scale,
                    (alpha_channel(self@)[k],),
                    #[trigger] alpha@[k],
                ),
            decreases end - i,
        {
            assert(self.vector@[i as int] == alpha_channel(self@)[i as int]);
            let scaled = scale(self.vector[i]);
            alpha.push(scaled);
            i += 1;
        }
        alpha
    }

    /// The sines of the dihedral angles, as they stand in the vector.
    pub fn sin_theta(&self) -> (sin_theta: Vec<T>)
        requires
            well_shaped(self@.len()),
        ensures
            sin_theta@ == sin_channel(self@),
    {
        let start: usize = self.n();
        assert(2 * start <= self.vector.len());
        let end: usize = 2 * start;
        let mut sin_theta: Vec<T> = Vec::new();
        let mut i: usize = start;
        while i < end
            invariant
                start == residues(self@.len()),
                end == 2 * start,
                start <= i <= end,
                sin_theta@ == self@.subrange(start as int, i as int),
            decreases end - i,
        {
            sin_theta.push(self.vector[i]);
            proof {
                assert(sin_theta@ =~= self@.subrange(start as int, i + 1));
            }
            i += 1;
        }
        sin_theta
    }

    /// The cosines of the dihedral angles, as they stand in the vector.
    pub fn cos_theta(&self) -> (cos_theta: Vec<T>)
        requires
            well_shaped(self@.len()),
        ensures
            cos_theta@ == cos_channel(self@),
    {
        let n: usize = self.n();
        assert(3 * n == self.vector.len());
        let start: usize = 2 * n;
        let end: usize = self.vector.len();
        let mut cos_theta: Vec<T> = Vec::new();
        let mut i: usize = start;
        while i < end
            invariant
                start == 2 * residues(self@.len()),
                end == 3 * residues(self@.len()),
                end == self@.len(),
                start <= i <= end,
                cos_theta@ == self@.subrange(start as int, i as int),
            decreases end - i,
        {
            cos_theta.push(self.vector[i]);
            proof {
                assert(cos_theta@ =~= self@.subrange(start as int, i + 1));
            }
            i += 1;
        }
        cos_theta
    }

    /// The dihedral angles: the `i`-th sine and the `i`-th cosine, passed
    /// together through `reduce`, sine first.
    pub fn theta<A, F: Fn(T, T) -> A>(&self, reduce: F) -> (theta: Vec<A>)
        requires
            well_shaped(self@.len()),
            forall|i: int|
                0 <= i < residues(self@.len()) ==> call_requires(
                    reduce,
                    (sin_channel(self@)[i], cos_channel(self@)[i]),
                ),
        ensures
            theta@.len() == residues(self@.len()),
            forall|i: int| 0 <= i < theta@.len() ==> call_ensures(
                reduce,
                (sin_channel(self@)[i], cos_channel(self@)[i]),
                #[trigger] theta@[i],
            ),
    {
        let sin_theta = self.sin_theta();
        let cos_theta = self.cos_theta();
        let end: usize = self.n();
        let mut theta: Vec<A> = Vec::new();
        let mut i: usize = 0;
        while i < end
            invariant
                end == residues(self@.len()),
                sin_theta@ == sin_channel(self@),
                cos_theta@ == cos_channel(self@),
                i <= end,
                theta@.len() == i,
                forall|k: int|
                    0 <= k < residues(self@.len()) ==> call_requires(
                        reduce,
                        (sin_channel(self@)[k], cos_channel(self@)[k]),
                    ),
                forall|k: int| 0 <= k < i ==> call_ensures(
                    reduce,
                    (sin_channel(self@)[k], cos_channel(self@)[k]),
                    #[trigger] theta@[k],
                ),
            decreases end - i,
        {
            let angle = reduce(sin_theta[i], cos_theta[i]);
            theta.push(angle);
            i += 1;
        }
        theta
    }

    /// Decodes the vector into one `(alpha, theta)` pair per residue.
    ///
    /// Fails with `InvalidShape` exactly when the vector's length is not a
    /// multiple of three. Otherwise residue `i` gets `scale` of entry `i`
    /// of the planar-angle channel and `reduce` of entries `i` of the sine
    /// and cosine channels, sine first.
    pub fn decode<A, F: Fn(T) -> A, G: Fn(T, T) -> A>(&self, scale: F, reduce: G) -> (decoded:
        Result<Vec<(A, A)>, ShapeError>)
        requires
            forall|i: int|
                0 <= i < residues(self@.len()) ==> call_requires(scale, (alpha_channel(self@)[i],)),
            forall|i: int|
                0 <= i < residues(self@.len()) ==> call_requires(
                    reduce,
                    (sin_channel(self@)[i], cos_channel(self@)[i]),
                ),
        ensures
            decoded.is_ok() <==> well_shaped(self@.len()),
            decoded.is_err() ==> decoded == Err::<Vec<(A, A)>, ShapeError>(ShapeError::InvalidShape),
            decoded.is_ok() ==> {
                let pairs = decoded.unwrap()@;
                &&& pairs.len() == residues(self@.len())
                &&& forall|i: int|
                    0 <= i < pairs.len() ==> call_ensures(
                        scale,
                        (alpha_channel(self@)[i],),
                        (#[trigger] pairs[i]).0,
                    )
                &&& forall|i: int|
                    0 <= i < pairs.len() ==> call_ensures(
                        reduce,
                        (sin_channel(self@)[i], cos_channel(self@)[i]),
                        (#[trigger] pairs[i]).1,
                    )
            },
    {
        if self.vector.len() % 3 != 0 {
            return Err(ShapeError::InvalidShape);
        }
        let n: usize = self.n();
        assert(3 * n == self.vector.len());
        let mut pairs: Vec<(A, A)> = Vec::new();
        let mut i: usize = 0;
        while i < n
            invariant
                n == residues(self@.len()),
                3 * n == self.vector.len(),
                i <= n,
                pairs@.len() == i,
                forall|k: int| 0 <= k < n ==> call_requires(scale, (alpha_channel(self@)[k],)),
                forall|k: int|
                    0 <= k < n ==> call_requires(
                        reduce,
                        (sin_channel(self@)[k], cos_channel(self@)[k]),
                    ),
                forall|k: int|
                    0 <= k < i ==> call_ensures(
                        scale,
                        (alpha_channel(self@)[k],),
                        (#[trigger] pairs@[k]).0,
                    ),
                forall|k: int|
                    0 <= k < i ==> call_ensures(
                        reduce,
                        (sin_channel(self@)[k], cos_channel(self@)[k]),
                        (#[trigger] pairs@[k]).1,
                    ),
            decreases n - i,
        {
            assert(self.vector@[i as int] == alpha_channel(self@)[i as int]);
            assert(self.vector@[n + i] == sin_channel(self@)[i as int]);
            assert(self.vector@[2 * n + i] == cos_channel(self@)[i as int]);
            let alpha = scale(self.vector[i]);
            let theta = reduce(self.vector[n + i], self.vector[2 * n + i]);
            pairs.push((alpha, theta));
            i += 1;
        }
        Ok(pairs)
    }
}

} // verus!
