use vstd::prelude::*;

verus! {

/// How many atoms are placed when the angles from index `first` on are used.
pub open spec fn placements(angles: int, first: int) -> int {
    if first <= angles {
        angles - first
    } else {
        0
    }
}

/// Atom `k + 3` of `atoms` is what `place` gave for the three atoms before
/// it, the bond length and the angle pair at index `first + k`.
pub open spec fn placed_at<P, L, A, F: Fn(P, P, P, L, A, A) -> P>(
    place: F,
    atoms: Seq<P>,
    angles: Seq<(A, A)>,
    bond_length: L,
    first: int,
    k: int,
) -> bool {
    call_ensures(
        place,
        (atoms[k], atoms[k + 1], atoms[k + 2], bond_length, angles[first + k].0, angles[first + k].1),
        atoms[k + 3],
    )
}

/// `atoms` is the chain grown from the seed `c_1, c_2, c_3`: the seed
/// stands first, unchanged, and each later atom was placed from the three
/// atoms directly before it, with the angle pairs taken in order from
/// index `first`.
pub open spec fn grown_from<P, L, A, F: Fn(P, P, P, L, A, A) -> P>(
    place: F,
    atoms: Seq<P>,
    c_1: P,
    c_2: P,
    c_3: P,
    angles: Seq<(A, A)>,
    bond_length: L,
    first: int,
) -> bool {
    &&& atoms.len() == 3 + placements(angles.len() as int, first)
    &&& atoms[0] == c_1
    &&& atoms[1] == c_2
    &&& atoms[2] == c_3
    &&& forall|k: int|
        0 <= k < placements(angles.len() as int, first) ==> #[trigger] placed_at(
            place,
            atoms,
            angles,
            bond_length,
            first,
            k,
        )
}

/// A chain only ever grows at its end: cut after the atom that the angle
/// pair before index `upto` placed, it is the chain grown from the angle
/// pairs before `upto` alone.
pub proof fn lemma_grown_prefix<P, L, A, F: Fn(P, P, P, L, A, A) -> P>(
    place: F,
    atoms: Seq<P>,
    c_1: P,
    c_2: P,
    c_3: P,
    angles: Seq<(A, A)>,
    bond_length: L,
    first: int,
    upto: int,
)
    requires
        grown_from(place, atoms, c_1, c_2, c_3, angles, bond_length, first),
        0 <= first <= upto <= angles.len(),
    ensures
        grown_from(
            place,
            atoms.take(3 + upto - first),
            c_1,
            c_2,
            c_3,
            angles.take(upto),
            bond_length,
            first,
        ),
{
    let short = atoms.take(3 + upto - first);
    let fewer = angles.take(upto);
    assert forall|k: int| 0 <= k < placements(fewer.len() as int, first) implies #[trigger] placed_at(
        place,
        short,
        fewer,
        bond_length,
        first,
        k,
    ) by {
        assert(placed_at(place, atoms, angles, bond_length, first, k));
    }
}

/// Grows a chain from three seed atoms, using the angle pairs from index
/// `first` to the end; a `first` beyond the end places nothing.
///
/// `place` is the placement rule: from the three most recent atoms (oldest
/// first), the bond length, the planar angle and the dihedral angle it
/// gives the next atom. Atoms are only ever appended.
pub fn build_from<P: Copy, L: Copy, A: Copy, F: Fn(P, P, P, L, A, A) -> P>(
    c_1: P,
    c_2: P,
    c_3: P,
    angles: &Vec<(A, A)>,
    first: usize,
    bond_length: L,
    place: F,
) -> (atoms: Vec<P>)
    requires
        forall|a: P, b: P, c: P, r: L, alpha: A, theta: A|
            call_requires(place, (a, b, c, r, alpha, theta)),
    ensures
        grown_from(place, atoms@, c_1, c_2, c_3, angles@, bond_length, first as int),
{
    let mut atoms: Vec<P> = Vec::new();
    atoms.push(c_1);
    atoms.push(c_2);
    atoms.push(c_3);
    let mut i: usize = first;
    while i < angles.len()
        invariant
            forall|a: P, b: P, c: P, r: L, alpha: A, theta: A|
                call_requires(place, (a, b, c, r, alpha, theta)),
            first <= i,
            i <= angles.len() || i == first,
            atoms@.len() == 3 + (i - first),
            atoms@[0] == c_1,
            atoms@[1] == c_2,
            atoms@[2] == c_3,
            forall|k: int|
                0 <= k < i - first ==> #[trigger] placed_at(
                    place,
                    atoms@,
                    angles@,
                    bond_length,
                    first as int,
                    k,
                ),
        decreases angles.len() - i,
    {
        let m: usize = atoms.len();
        let c_i = atoms[m - 3];
        let c_j = atoms[m - 2];
        let c_k = atoms[m - 1];
        let (alpha, theta) = angles[i];
        let c_new = place(c_i, c_j, c_k, bond_length, alpha, theta);
        let ghost before = atoms@;
        atoms.push(c_new);
        proof {
            assert forall|k: int| 0 <= k < i + 1 - first implies #[trigger] placed_at(
                place,
                atoms@,
                angles@,
                bond_length,
                first as int,
                k,
            ) by {
                if k < i - first {
                    assert(placed_at(place, before, angles@, bond_length, first as int, k));
                }
            }
        }
        i += 1;
    }
    atoms
}

/// Builds the chain of `n + 3` atoms that `n` angle pairs describe, from
/// three seed atoms.
pub fn build_fragment<P: Copy, L: Copy, A: Copy, F: Fn(P, P, P, L, A, A) -> P>(
    c_1: P,
    c_2: P,
    c_3: P,
    angles: &Vec<(A, A)>,
    bond_length: L,
    place: F,
) -> (atoms: Vec<P>)
    requires
        forall|a: P, b: P, c: P, r: L, alpha: A, theta: A|
            call_requires(place, (a, b, c, r, alpha, theta)),
    ensures
        atoms@.len() == angles@.len() + 3,
        grown_from(place, atoms@, c_1, c_2, c_3, angles@, bond_length, 0),
{
    build_from(c_1, c_2, c_3, angles, 0, bond_length, place)
}

/// Atom `k + 3` of `atoms` and report `k` of `reports` are what `place`
/// gave for the three atoms before that atom, the bond length and the
/// angle pair at index `first + k`.
pub open spec fn reported_at<P, L, A, D, F: Fn(P, P, P, L, A, A) -> (P, D)>(
    place: F,
    atoms: Seq<P>,
    reports: Seq<D>,
    angles: Seq<(A, A)>,
    bond_length: L,
    first: int,
    k: int,
) -> bool {
    call_ensures(
        place,
        (atoms[k], atoms[k + 1], atoms[k + 2], bond_length, angles[first + k].0, angles[first + k].1),
        (atoms[k + 3], reports[k]),
    )
}

/// `atoms` is the chain grown from the seed `c_1, c_2, c_3` by a placement
/// rule that says something about each placement, and `reports` holds what
/// it said: one report per placed atom, in chain order, so that report `k`
/// belongs to the angle pair at index `first + k`.
pub open spec fn grown_with_reports<P, L, A, D, F: Fn(P, P, P, L, A, A) -> (P, D)>(
    place: F,
    atoms: Seq<P>,
    reports: Seq<D>,
    c_1: P,
    c_2: P,
    c_3: P,
    angles: Seq<(A, A)>,
    bond_length: L,
    first: int,
) -> bool {
    &&& atoms.len() == 3 + placements(angles.len() as int, first)
    &&& reports.len() == placements(angles.len() as int, first)
    &&& atoms[0] == c_1
    &&& atoms[1] == c_2
    &&& atoms[2] == c_3
    &&& forall|k: int|
        0 <= k < placements(angles.len() as int, first) ==> #[trigger] reported_at(
            place,
            atoms,
            reports,
            angles,
            bond_length,
            first,
            k,
        )
}

/// Grows a chain as `build_from` does, with a placement rule that also
/// reports on each placement (for one, how often it had to fall back on a
/// guarded direction). The reports come back beside the chain, one per
/// placed atom, so that a caller can tell at which angle pair the geometry
/// was degenerate.
pub fn build_reported<P: Copy, L: Copy, A: Copy, D, F: Fn(P, P, P, L, A, A) -> (P, D)>(
    c_1: P,
    c_2: P,
    c_3: P,
    angles: &Vec<(A, A)>,
    first: usize,
    bond_length: L,
    place: F,
) -> (built: (Vec<P>, Vec<D>))
    requires
        forall|a: P, b: P, c: P, r: L, alpha: A, theta: A|
            call_requires(place, (a, b, c, r, alpha, theta)),
    ensures
        grown_with_reports(
            place,
            built.0@,
            built.1@,
            c_1,
            c_2,
            c_3,
            angles@,
            bond_length,
            first as int,
        ),
{
    let mut atoms: Vec<P> = Vec::new();
    let mut reports: Vec<D> = Vec::new();
    atoms.push(c_1);
    atoms.push(c_2);
    atoms.push(c_3);
    let mut i: usize = first;
    while i < angles.len()
        invariant
            forall|a: P, b: P, c: P, r: L, alpha: A, theta: A|
                call_requires(place, (a, b, c, r, alpha, theta)),
            first <= i,
            i <= angles.len() || i == first,
            atoms@.len() == 3 + (i - first),
            reports@.len() == i - first,
            atoms@[0] == c_1,
            atoms@[1] == c_2,
            atoms@[2] == c_3,
            forall|k: int|
                0 <= k < i - first ==> #[trigger] reported_at(
                    place,
                    atoms@,
                    reports@,
                    angles@,
                    bond_length,
                    first as int,
                    k,
                ),
        decreases angles.len() - i,
    {
        let m: usize = atoms.len();
        let c_i = atoms[m - 3];
        let c_j = atoms[m - 2];
        let c_k = atoms[m - 1];
        let (alpha, theta) = angles[i];
        let (c_new, report) = place(c_i, c_j, c_k, bond_length, alpha, theta);
        let ghost atoms_before = atoms@;
        let ghost reports_before = reports@;
        atoms.push(c_new);
        reports.push(report);
        proof {
            assert forall|k: int| 0 <= k < i + 1 - first implies #[trigger] reported_at(
                place,
                atoms@,
                reports@,
                angles@,
                bond_length,
                first as int,
                k,
            ) by {
                if k < i - first {
                    assert(reported_at(
                        place,
                        atoms_before,
                        reports_before,
                        angles@,
                        bond_length,
                        first as int,
                        k,
                    ));
                }
            }
        }
        i += 1;
    }
    (atoms, reports)
}

} // verus!
