//! Canonical big-endian form of key material: no redundant leading zeros.

use vstd::prelude::*;

verus! {

/// Strips leading zero bytes: the canonical big-endian form of an integer.
/// A value of zero canonicalizes to the empty sequence.
pub open spec fn spec_trim_leading_zeros(s: Seq<u8>) -> Seq<u8>
    decreases s.len(),
{
    if s.len() == 0 || s[0] != 0 {
        s
    } else {
        spec_trim_leading_zeros(s.subrange(1, s.len() as int))
    }
}

/// Canonicalizes a big-endian byte string by removing leading zero bytes.
pub fn trim_leading_zeros(v: &Vec<u8>) -> (r: Vec<u8>)
    ensures
        r@ == spec_trim_leading_zeros(v@),
{
    proof {
        assert(v@.subrange(0, v@.len() as int) =~= v@);
    }
    let mut start: usize = 0;
    while start < v.len() && v[start] == 0
        invariant
            start <= v@.len(),
            spec_trim_leading_zeros(v@) == spec_trim_leading_zeros(
                v@.subrange(start as int, v@.len() as int),
            ),
        decreases v@.len() - start,
    {
        proof {
            let tail = v@.subrange(start as int, v@.len() as int);
            assert(tail.subrange(1, tail.len() as int) =~= v@.subrange(
                start as int + 1,
                v@.len() as int,
            ));
        }
        start = start + 1;
    }
    let mut r: Vec<u8> = Vec::new();
    let mut i: usize = start;
    while i < v.len()
        invariant
            start <= i <= v@.len(),
            r@ == v@.subrange(start as int, i as int),
        decreases v@.len() - i,
    {
        r.push(v[i]);
        proof {
            assert(v@.subrange(start as int, i as int).push(v@[i as int]) =~= v@.subrange(
                start as int,
                i as int + 1,
            ));
        }
        i = i + 1;
    }
    proof {
        assert(v@.subrange(start as int, v@.len() as int) =~= r@);
    }
    r
}

/// The canonical form never carries a leading zero byte: when it is
/// non-empty, its first byte is non-zero.
pub proof fn lemma_trimmed_has_no_leading_zero(s: Seq<u8>)
    ensures
        spec_trim_leading_zeros(s).len() > 0 ==> spec_trim_leading_zeros(s)[0] != 0,
    decreases s.len(),
{
    if s.len() != 0 && s[0] == 0 {
        lemma_trimmed_has_no_leading_zero(s.subrange(1, s.len() as int));
    }
}

/// The canonical form is empty exactly when every byte of the input is
/// zero, that is, when the value represented is zero.
pub proof fn lemma_trimmed_empty_iff_zero(s: Seq<u8>)
    ensures
        spec_trim_leading_zeros(s).len() == 0 <==> (forall|k: int|
            0 <= k < s.len() ==> s[k] == 0),
    decreases s.len(),
{
    if s.len() == 0 {
    } else if s[0] != 0 {
        assert(!(0 <= 0 < s.len() ==> s[0] == 0));
    } else {
        let tail = s.subrange(1, s.len() as int);
        lemma_trimmed_empty_iff_zero(tail);
        if forall|k: int| 0 <= k < s.len() ==> s[k] == 0 {
            assert(forall|k: int| 0 <= k < tail.len() ==> tail[k] == s[k + 1] && s[k + 1] == 0);
        }
        if forall|k: int| 0 <= k < tail.len() ==> tail[k] == 0 {
            assert forall|k: int| 0 <= k < s.len() implies s[k] == 0 by {
                if k >= 1 {
                    assert(tail[k - 1] == 0);
                }
            }
        }
    }
}

} // verus!
