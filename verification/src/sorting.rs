//! Index sorting: computing a permutation of positions that reads a slice in
//! non-descending order.

use core::cmp::Ordering;
use vstd::laws_cmp::obeys_cmp;
use vstd::laws_cmp::obeys_cmp_ord;
use vstd::laws_cmp::obeys_cmp_partial_ord;
use vstd::laws_cmp::obeys_partial_cmp_spec_properties;
use vstd::laws_eq::obeys_eq_spec_properties;
use vstd::prelude::*;
use vstd::std_specs::cmp::OrdSpec;
use vstd::std_specs::cmp::PartialEqSpec;
use vstd::std_specs::cmp::PartialOrdSpec;

verus! {

/// `idx` holds each position `0 .. len` exactly once.
pub open spec fn is_permutation_of_range(idx: Seq<usize>, len: nat) -> bool {
    &&& idx.len() == len
    &&& forall|k: int| 0 <= k < idx.len() ==> (#[trigger] idx[k]) < len
    &&& forall|k: int, l: int|
        #![trigger idx[k], idx[l]]
        0 <= k < l < idx.len() ==> idx[k] != idx[l]
    &&& forall|x: int| 0 <= x < len ==> #[trigger] idx.contains(x as usize)
}

/// Reading `v` at the positions of `idx`, left to right, never descends
/// under `T`'s order.
pub open spec fn sorted_by_cmp<T: Ord>(v: Seq<T>, idx: Seq<usize>) -> bool {
    forall|k: int, l: int|
        #![trigger idx[k], idx[l]]
        0 <= k < l < idx.len() ==> v[idx[k] as int].cmp_spec(&v[idx[l] as int])
            != Ordering::Greater
}

/// Positions holding equal elements appear in `idx` in their original
/// order: the sort is stable.
pub open spec fn stable_by_cmp<T: Ord>(v: Seq<T>, idx: Seq<usize>) -> bool {
    forall|k: int, l: int|
        #![trigger idx[k], idx[l]]
        0 <= k < l < idx.len() && v[idx[k] as int].cmp_spec(&v[idx[l] as int])
            == Ordering::Equal ==> idx[k] < idx[l]
}

/// For a lawful order, `x > y` implies `y < x`.
proof fn lemma_cmp_flip<T: Ord>(x: T, y: T)
    requires
        obeys_cmp::<T>(),
        x.cmp_spec(&y) == Ordering::Greater,
    ensures
        y.cmp_spec(&x) == Ordering::Less,
{
    reveal(obeys_cmp_ord);
    reveal(obeys_cmp_partial_ord);
    reveal(obeys_partial_cmp_spec_properties);
    assert(x.partial_cmp_spec(&y) == Some(x.cmp_spec(&y)));
    assert(y.partial_cmp_spec(&x) == Some(y.cmp_spec(&x)));
}

/// For a lawful order, "not greater" is transitive.
proof fn lemma_le_trans<T: Ord>(x: T, y: T, z: T)
    requires
        obeys_cmp::<T>(),
        x.cmp_spec(&y) != Ordering::Greater,
        y.cmp_spec(&z) != Ordering::Greater,
    ensures
        x.cmp_spec(&z) != Ordering::Greater,
{
    reveal(obeys_cmp_ord);
    reveal(obeys_cmp_partial_ord);
    reveal(obeys_partial_cmp_spec_properties);
    reveal(obeys_eq_spec_properties);
    assert(x.partial_cmp_spec(&y) == Some(x.cmp_spec(&y)));
    assert(y.partial_cmp_spec(&z) == Some(y.cmp_spec(&z)));
    assert(x.partial_cmp_spec(&z) == Some(x.cmp_spec(&z)));
    assert(z.partial_cmp_spec(&x) == Some(z.cmp_spec(&x)));
    assert(z.partial_cmp_spec(&y) == Some(z.cmp_spec(&y)));
    assert(y.partial_cmp_spec(&x) == Some(y.cmp_spec(&x)));
}

/// Returns the indices that would sort `v`: a permutation `idx` of
/// `0 .. v.len()` such that, when `T`'s order is lawful, `v[idx[0]],
/// v[idx[1]], ...` never descends.
#[verifier::loop_isolation(false)]
pub fn argsort<T: Ord>(v: &[T]) -> (idx: Vec<usize>)
    ensures
        is_permutation_of_range(idx@, v@.len()),
        obeys_cmp::<T>() ==> sorted_by_cmp(v@, idx@),
        obeys_cmp::<T>() ==> stable_by_cmp(v@, idx@),
{
    let len: usize = v.len();
    let mut idx: Vec<usize> = Vec::new();
    let mut i: usize = 0;
    while i < len
        invariant
            i <= len,
            idx@.len() == i,
            forall|k: int| 0 <= k < i ==> (#[trigger] idx@[k]) == k,
        decreases len - i,
    {
        idx.push(i);
        i += 1;
    }
    proof {
        assert forall|x: int| 0 <= x < len implies #[trigger] idx@.contains(x as usize) by {
            assert(idx@[x] == x as usize);
        }
    }
    if len == 0 {
        return idx;
    }
    let mut i: usize = 1;
    while i < len
        invariant
            1 <= i <= len,
            idx@.len() == len,
            forall|k: int| 0 <= k < len ==> (#[trigger] idx@[k]) < len,
            forall|k: int, l: int|
                #![trigger idx@[k], idx@[l]]
                0 <= k < l < len ==> idx@[k] != idx@[l],
            forall|x: int| 0 <= x < len ==> #[trigger] idx@.contains(x as usize),
            obeys_cmp::<T>() ==> forall|a: int, b: int|
                #![trigger idx@[a], idx@[b]]
                0 <= a < b < i ==> v@[idx@[a] as int].cmp_spec(&v@[idx@[b] as int])
                    != Ordering::Greater,
            obeys_cmp::<T>() ==> forall|a: int, b: int|
                #![trigger idx@[a], idx@[b]]
                0 <= a < b < len && v@[idx@[a] as int].cmp_spec(&v@[idx@[b] as int])
                    == Ordering::Equal ==> idx@[a] < idx@[b],
        decreases len - i,
    {
        let mut k: usize = i;
        let mut stopped = false;
        while k > 0 && !stopped
            invariant
                k <= i,
                idx@.len() == len,
                forall|m: int| 0 <= m < len ==> (#[trigger] idx@[m]) < len,
                forall|m: int, l: int|
                    #![trigger idx@[m], idx@[l]]
                    0 <= m < l < len ==> idx@[m] != idx@[l],
                forall|x: int| 0 <= x < len ==> #[trigger] idx@.contains(x as usize),
                obeys_cmp::<T>() ==> forall|a: int, b: int|
                    #![trigger idx@[a], idx@[b]]
                    0 <= a < b <= i && a != k && b != k ==> v@[idx@[a] as int].cmp_spec(
                        &v@[idx@[b] as int],
                    ) != Ordering::Greater,
                obeys_cmp::<T>() ==> forall|b: int|
                    k < b <= i ==> v@[idx@[k as int] as int].cmp_spec(
                        &v@[(#[trigger] idx@[b]) as int],
                    ) == Ordering::Less,
                stopped && k > 0 && obeys_cmp::<T>() ==> v@[idx@[k - 1] as int].cmp_spec(
                    &v@[idx@[k as int] as int],
                ) != Ordering::Greater,
                obeys_cmp::<T>() ==> forall|a: int, b: int|
                    #![trigger idx@[a], idx@[b]]
                    0 <= a < b < len && v@[idx@[a] as int].cmp_spec(&v@[idx@[b] as int])
                        == Ordering::Equal ==> idx@[a] < idx@[b],
            decreases k as int + (if stopped { 0int } else { 1int }),
        {
            let prev: usize = idx[k - 1];
            let cur: usize = idx[k];
            let ord = v[prev].cmp(&v[cur]);
            let is_greater = match ord {
                Ordering::Greater => true,
                _ => false,
            };
            if is_greater {
                let ghost old_idx = idx@;
                idx.set(k - 1, cur);
                idx.set(k, prev);
                proof {
                    assert forall|x: int| 0 <= x < len implies #[trigger] idx@.contains(x as usize) by {
                        assert(old_idx.contains(x as usize));
                        let m = choose|m: int|
                            0 <= m < old_idx.len() && old_idx[m] == x as usize;
                        if m == k - 1 {
                            assert(idx@[k as int] == x as usize);
                        } else if m == k {
                            assert(idx@[k - 1] == x as usize);
                        } else {
                            assert(idx@[m] == x as usize);
                        }
                    }
                    if obeys_cmp::<T>() {
                        reveal(obeys_cmp_ord);
                        assert(ord == v@[prev as int].cmp_spec(&v@[cur as int]));
                        lemma_cmp_flip::<T>(v@[prev as int], v@[cur as int]);
                        assert(v@[cur as int].cmp_spec(&v@[prev as int]) == Ordering::Less);
                    }
                }
                k -= 1;
            } else {
                proof {
                    if obeys_cmp::<T>() {
                        reveal(obeys_cmp_ord);
                        assert(ord == v@[prev as int].cmp_spec(&v@[cur as int]));
                    }
                }
                stopped = true;
            }
        }
        proof {
            if obeys_cmp::<T>() {
                assert forall|a: int, b: int|
                    #![trigger idx@[a], idx@[b]]
                    0 <= a < b <= i implies v@[idx@[a] as int].cmp_spec(&v@[idx@[b] as int])
                    != Ordering::Greater by {
                    if a == k && b > k {
                        assert(v@[idx@[a] as int].cmp_spec(&v@[idx@[b] as int])
                            == Ordering::Less);
                    } else if b == k {
                        if a == k - 1 {
                            assert(v@[idx@[a] as int].cmp_spec(&v@[idx@[b] as int])
                                != Ordering::Greater);
                        } else {
                            lemma_le_trans::<T>(
                                v@[idx@[a] as int],
                                v@[idx@[k - 1] as int],
                                v@[idx@[k as int] as int],
                            );
                        }
                    }
                }
            }
        }
        i += 1;
    }
    idx
}

} // verus!
