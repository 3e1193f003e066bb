//! The interpreter bootstrap script: a fixed supervised-loop scaffold into
//! which the operator's prelude is substituted at the first `# prelude`
//! marker before each spawn.

use vstd::prelude::*;

use crate::text::{ascii_bytes, ascii_of, bytes_eq};

verus! {

/// `m` occurs in `s` at position `j`.
pub open spec fn match_at(s: Seq<u8>, m: Seq<u8>, j: int) -> bool {
    0 <= j && j + m.len() <= s.len() && s.subrange(j, j + m.len()) == m
}

/// Index of the first occurrence of `m` inside `s`, or -1.
pub open spec fn first_match(s: Seq<u8>, m: Seq<u8>) -> int
    decreases s.len(),
{
    if m.len() == 0 {
        0
    } else if s.len() < m.len() {
        -1
    } else if s.take(m.len() as int) == m {
        0
    } else if first_match(s.skip(1), m) < 0 {
        -1
    } else {
        1 + first_match(s.skip(1), m)
    }
}

proof fn lemma_first_match_found(s: Seq<u8>, m: Seq<u8>, k: int)
    requires
        m.len() >= 1,
        match_at(s, m, k),
        forall|j: int| 0 <= j < k ==> !(#[trigger] match_at(s, m, j)),
    ensures
        first_match(s, m) == k,
    decreases k,
{
    assert(s.take(m.len() as int) =~= s.subrange(0, m.len() as int));
    if k == 0 {
    } else {
        assert(!match_at(s, m, 0));
        let s1 = s.skip(1);
        assert(s1.subrange(k - 1, k - 1 + m.len()) =~= s.subrange(k, k + m.len()));
        assert(match_at(s1, m, k - 1));
        assert forall|j: int| 0 <= j < k - 1 implies !(#[trigger] match_at(s1, m, j)) by {
            assert(s1.subrange(j, j + m.len()) =~= s.subrange(j + 1, j + 1 + m.len()));
            assert(!match_at(s, m, j + 1));
        }
        lemma_first_match_found(s1, m, k - 1);
    }
}

proof fn lemma_first_match_none(s: Seq<u8>, m: Seq<u8>)
    requires
        m.len() >= 1,
        forall|j: int| !(#[trigger] match_at(s, m, j)),
    ensures
        first_match(s, m) == -1,
    decreases s.len(),
{
    if s.len() >= m.len() {
        assert(s.take(m.len() as int) =~= s.subrange(0, m.len() as int));
        assert(!match_at(s, m, 0));
        let s1 = s.skip(1);
        assert forall|j: int| !(#[trigger] match_at(s1, m, j)) by {
            if 0 <= j && j + m.len() <= s1.len() {
                assert(s1.subrange(j, j + m.len()) =~= s.subrange(j + 1, j + 1 + m.len()));
                assert(!match_at(s, m, j + 1));
            }
        }
        lemma_first_match_none(s1, m);
    }
}

/// The marker the prelude replaces.
pub open spec fn prelude_marker() -> Seq<u8> {
    ascii_of("# prelude"@)
}

/// Substitute the prelude at the first marker; a template without the
/// marker is returned unchanged.
pub fn substitute_prelude(template: &[u8], prelude: &[u8]) -> (r: Vec<u8>)
    ensures
        ({
            let k = first_match(template@, prelude_marker());
            &&& (k < 0 ==> r@ == template@)
            &&& (k >= 0 ==> r@ == template@.take(k) + prelude@ + template@.skip(
                k + prelude_marker().len(),
            ))
        }),
{
    proof {
        reveal_strlit("# prelude");
    }
    let marker = ascii_bytes("# prelude");
    let mlen = marker.len();
    if template.len() < mlen {
        proof {
            assert forall|j: int| !(#[trigger] match_at(template@, prelude_marker(), j)) by {}
            lemma_first_match_none(template@, prelude_marker());
        }
        return vstd::slice::slice_to_vec(template);
    }
    let hi = template.len() - mlen;
    let mut k: usize = 0;
    while k <= hi
        invariant
            mlen == prelude_marker().len(),
            marker@ == prelude_marker(),
            mlen >= 1,
            hi == template@.len() - mlen,
            template@.len() >= mlen,
            template@.len() <= usize::MAX,
            0 <= k <= hi + 1,
            forall|j: int| 0 <= j < k ==> !(#[trigger] match_at(template@, prelude_marker(), j)),
        decreases hi + 1 - k,
    {
        let window = vstd::slice::slice_subrange(template, k, k + mlen);
        if bytes_eq(window, marker.as_slice()) {
            proof {
                assert(match_at(template@, prelude_marker(), k as int));
                lemma_first_match_found(template@, prelude_marker(), k as int);
            }
            let head = vstd::slice::slice_subrange(template, 0, k);
            let mut r = vstd::slice::slice_to_vec(head);
            let mut mid = vstd::slice::slice_to_vec(prelude);
            r.append(&mut mid);
            let tail = vstd::slice::slice_subrange(template, k + mlen, template.len());
            let mut tail_v = vstd::slice::slice_to_vec(tail);
            r.append(&mut tail_v);
            proof {
                assert(r@ =~= template@.take(k as int) + prelude@ + template@.skip(
                    k as int + prelude_marker().len(),
                ));
            }
            return r;
        }
        proof {
            assert(!match_at(template@, prelude_marker(), k as int));
        }
        k = k + 1;
    }
    proof {
        assert forall|j: int| !(#[trigger] match_at(template@, prelude_marker(), j)) by {
            if 0 <= j && j + prelude_marker().len() <= template@.len() {
                assert(j < k);
            }
        }
        lemma_first_match_none(template@, prelude_marker());
    }
    vstd::slice::slice_to_vec(template)
}

} // verus!
