//! Tours and their random perturbation.
//!
//! A tour over `n` cities is a permutation of the indices `0..n-1`; that
//! invariant is established here and preserved by every perturbation.

use vstd::prelude::*;

use crate::rng::{random_below, shuffle_vec};

verus! {

/// `s` is a permutation of the indices `0..n-1`: right length, every entry
/// in range, no entry repeated.
pub open spec fn is_permutation(s: Seq<usize>, n: nat) -> bool {
    &&& s.len() == n
    &&& forall|i: int| 0 <= i < s.len() ==> (#[trigger] s[i]) < n
    &&& s.no_duplicates()
}

/// Rearranging a permutation (keeping the multiset of its elements) yields
/// a permutation again.
pub proof fn lemma_rearranged_permutation(s1: Seq<usize>, s2: Seq<usize>, n: nat)
    requires
        is_permutation(s1, n),
        s1.to_multiset() == s2.to_multiset(),
    ensures
        is_permutation(s2, n),
{
    broadcast use vstd::seq_lib::group_to_multiset_ensures;

    assert(s1.to_multiset().len() == s1.len());
    assert(s2.to_multiset().len() == s2.len());
    assert forall|i: int| 0 <= i < s2.len() implies (#[trigger] s2[i]) < n by {
        assert(s2.contains(s2[i]));
        assert(s2.to_multiset().count(s2[i]) > 0);
        assert(s1.to_multiset().count(s2[i]) > 0);
        assert(s1.contains(s2[i]));
    }
    s1.lemma_multiset_has_no_duplicates();
    assert forall|x: usize|
        s2.to_multiset().contains(x) implies s2.to_multiset().count(x) == 1 by {
        assert(s1.to_multiset().count(x) > 0);
    }
    s2.lemma_multiset_has_no_duplicates_conv();
}

/// `s` with the entries at positions `i` and `j` exchanged.
pub open spec fn transposed(s: Seq<usize>, i: int, j: int) -> Seq<usize> {
    s.update(i, s[j]).update(j, s[i])
}

/// `s1` arises from `s0` by exactly `qtd` transpositions, each exchanging
/// two distinct in-range positions.
pub open spec fn reachable_by_transpositions(s0: Seq<usize>, s1: Seq<usize>, qtd: nat) -> bool
    decreases qtd,
{
    if qtd == 0 {
        s1 == s0
    } else {
        exists|mid: Seq<usize>, i: int, j: int|
            {
                &&& reachable_by_transpositions(s0, mid, (qtd - 1) as nat)
                &&& 0 <= i < mid.len()
                &&& 0 <= j < mid.len()
                &&& i != j
                &&& s1 == #[trigger] transposed(mid, i, j)
            }
    }
}

/// The identity tour `0, 1, .., len-1`, then shuffled into a uniformly
/// random starting tour.
pub fn get_initial_solution(len: usize) -> (r: Vec<usize>)
    ensures
        is_permutation(r@, len as nat),
{
    let mut solution: Vec<usize> = Vec::new();
    for i in 0..len
        invariant
            solution@.len() == i,
            forall|k: int| 0 <= k < i ==> (#[trigger] solution@[k]) == k,
    {
        solution.push(i);
    }
    proof {
        assert(is_permutation(solution@, len as nat));
    }
    let ghost before = solution@;
    shuffle_vec(&mut solution);
    proof {
        lemma_rearranged_permutation(before, solution@, len as nat);
    }
    solution
}

/// Applies `qtd` random transpositions to a copy of `solution`; each
/// transposition swaps two distinct positions chosen uniformly at random.
pub fn permute(solution: &Vec<usize>, qtd: usize) -> (r: Vec<usize>)
    requires
        is_permutation(solution@, solution@.len() as nat),
        solution@.len() >= 2,
    ensures
        is_permutation(r@, solution@.len() as nat),
        reachable_by_transpositions(solution@, r@, qtd as nat),
{
    let size = solution.len();
    let mut new_solution: Vec<usize> = Vec::new();
    for i in 0..size
        invariant
            size == solution@.len(),
            new_solution@ == solution@.subrange(0, i as int),
    {
        new_solution.push(solution[i]);
        proof {
            assert(new_solution@ =~= solution@.subrange(0, i + 1));
        }
    }
    proof {
        assert(new_solution@ =~= solution@);
    }
    for _k in 0..qtd
        invariant
            size == solution@.len() >= 2,
            is_permutation(new_solution@, size as nat),
            reachable_by_transpositions(solution@, new_solution@, _k as nat),
    {
        let index_1 = random_below(size);
        let index_2_raw = random_below(size - 1);
        let index_2 = if index_2_raw >= index_1 {
            index_2_raw + 1
        } else {
            index_2_raw
        };
        let ghost before = new_solution@;
        let value_1 = new_solution[index_1];
        let value_2 = new_solution[index_2];
        *vstd::std_specs::vec::vec_index_mut(&mut new_solution, index_1) = value_2;
        *vstd::std_specs::vec::vec_index_mut(&mut new_solution, index_2) = value_1;
        proof {
            let after = new_solution@;
            assert(after =~= before.update(index_1 as int, value_2).update(
                index_2 as int,
                value_1,
            ));
            assert forall|a: int, b: int|
                0 <= a < after.len() && 0 <= b < after.len() && a != b implies after[a]
                != after[b] by {
                assert(before.no_duplicates());
            }
            assert(after.no_duplicates());
            assert(after == transposed(before, index_1 as int, index_2 as int));
            assert(reachable_by_transpositions(solution@, after, (_k + 1) as nat));
        }
    }
    new_solution
}

} // verus!
