//! Substring search: the byte offsets of the non-overlapping occurrences of a
//! pattern inside a text, found greedily from the left.

use vstd::prelude::*;
use vstd::string::StringSliceAdditionalSpecFns;

verus! {

/// `n` occurs in `h` at offset `i`.
pub open spec fn occurs_at(h: Seq<u8>, n: Seq<u8>, i: int) -> bool {
    0 <= i && i + n.len() <= h.len() && h.subrange(i, i + n.len()) == n
}

/// The offset just past match `k` of `r`, or `0` before the first match.
pub open spec fn match_end(r: Seq<usize>, nlen: nat, k: int) -> int {
    if k == 0 {
        0
    } else {
        r[k - 1] + nlen
    }
}

/// Whether `n` occurs in `h` at offset `i`.
#[verifier::loop_isolation(false)]
fn bytes_match_at(h: &[u8], n: &[u8], i: usize) -> (r: bool)
    requires
        i + n@.len() <= h@.len(),
    ensures
        r == occurs_at(h@, n@, i as int),
{
    // h@.len() is only known to fit in usize through an exec len call; the
    // bound keeps the index sums below from overflowing.
    let _hl: usize = h.len();
    let mut j: usize = 0;
    while j < n.len()
        invariant
            j <= n@.len(),
            i + n@.len() <= h@.len(),
            forall|t: int| 0 <= t < j ==> h@[i + t] == n@[t],
        decreases n@.len() - j,
    {
        if h[i + j] != n[j] {
            proof {
                assert(h@.subrange(i as int, i + n@.len())[j as int] == h@[i + j]);
            }
            return false;
        }
        j += 1;
    }
    proof {
        assert(h@.subrange(i as int, i + n@.len()) =~= n@);
    }
    true
}

/// A non-empty string encodes to a non-empty byte sequence.
proof fn lemma_nonempty_str_nonempty_bytes(s: &str)
    requires
        s@.len() > 0,
    ensures
        s.spec_bytes().len() > 0,
{
    assert(vstd::utf8::encode_scalar(s@[0] as u32).len() >= 1);
    assert(s.spec_bytes().len() >= vstd::utf8::encode_scalar(s@[0] as u32).len());
}

/// Returns the byte offsets of every occurrence of `needle` in `haystack`,
/// scanning left to right and resuming just past each match, so that the
/// reported occurrences never overlap. The needle must be non-empty.
#[verifier::loop_isolation(false)]
pub fn find_instances_of(haystack: &str, needle: &str) -> (r: Vec<usize>)
    requires
        needle@.len() > 0,
    ensures
        forall|k: int|
            0 <= k < r@.len() ==> occurs_at(
                haystack.spec_bytes(),
                needle.spec_bytes(),
                #[trigger] r@[k] as int,
            ),
        forall|k: int|
            0 <= k < r@.len() ==> match_end(r@, needle.spec_bytes().len(), k) <= #[trigger] r@[k],
        forall|k: int, p: int|
            #![trigger r@[k], occurs_at(haystack.spec_bytes(), needle.spec_bytes(), p)]
            0 <= k < r@.len() && match_end(r@, needle.spec_bytes().len(), k) <= p < r@[k]
                ==> !occurs_at(haystack.spec_bytes(), needle.spec_bytes(), p),
        forall|p: int|
            match_end(r@, needle.spec_bytes().len(), r@.len() as int) <= p ==> !(#[trigger] occurs_at(
                haystack.spec_bytes(),
                needle.spec_bytes(),
                p,
            )),
{
    proof {
        lemma_nonempty_str_nonempty_bytes(needle);
    }
    let hb = haystack.as_bytes();
    let nb = needle.as_bytes();
    let ghost h = haystack.spec_bytes();
    let ghost n = needle.spec_bytes();
    let hlen: usize = hb.len();
    let nlen: usize = nb.len();
    let mut r: Vec<usize> = Vec::new();
    if hlen < nlen {
        return r;
    }
    let mut p: usize = 0;
    while p <= hlen - nlen
        invariant
            p <= hlen,
            forall|k: int| 0 <= k < r@.len() ==> occurs_at(h, n, #[trigger] r@[k] as int),
            forall|k: int| 0 <= k < r@.len() ==> match_end(r@, n.len(), k) <= #[trigger] r@[k],
            forall|k: int, q: int|
                #![trigger r@[k], occurs_at(h, n, q)]
                0 <= k < r@.len() && match_end(r@, n.len(), k) <= q < r@[k] ==> !occurs_at(
                    h,
                    n,
                    q,
                ),
            match_end(r@, n.len(), r@.len() as int) <= p,
            forall|q: int|
                match_end(r@, n.len(), r@.len() as int) <= q < p ==> !(#[trigger] occurs_at(
                    h,
                    n,
                    q,
                )),
        decreases hlen - p,
    {
        if bytes_match_at(hb, nb, p) {
            r.push(p);
            p += nlen;
        } else {
            p += 1;
        }
    }
    r
}

} // verus!
