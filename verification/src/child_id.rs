//! Child identifiers: a spawn sequence number paired with the operating-system
//! process id, rendered textually as `(seq,pid)`.

use vstd::prelude::*;

use crate::text::{
    dec_of, dec_value, digit_val, fmt_u32, is_digit, is_digits, lemma_dec_of_digits,
    lemma_dec_of_value, parse_u32,
};

verus! {

/// Identity of one spawned interpreter: the supervisor's own sequence number
/// (unique for the life of a server) and the operating-system process id.
#[derive(Debug, Clone, Copy, PartialEq, Eq, Structural)]
pub struct ChildId {
    pub id: u32,
    pub pid: i32,
}

/// A rejected textual form; holds the offending input.
#[derive(Debug, PartialEq, Eq)]
pub struct ParseChildIdError(pub Vec<u8>);

/// A `ChildId` the supervisor could have issued: process ids are positive.
pub open spec fn child_id_wf(id: ChildId) -> bool {
    id.pid >= 0
}

/// The canonical textual form `(seq,pid)`.
pub open spec fn child_id_text(id: ChildId) -> Seq<u8> {
    seq![0x28u8] + dec_of(id.id as nat) + seq![0x2Cu8] + dec_of(id.pid as nat) + seq![0x29u8]
}

/// Index of the first comma of `s`, or `s.len()` if there is none.
pub open spec fn first_comma(s: Seq<u8>) -> int
    decreases s.len(),
{
    if s.len() == 0 {
        0
    } else if s[0] == 0x2C {
        0
    } else {
        1 + first_comma(s.skip(1))
    }
}

pub proof fn lemma_first_comma_bounds(s: Seq<u8>)
    ensures
        0 <= first_comma(s) <= s.len(),
        forall|i: int| 0 <= i < first_comma(s) ==> s[i] != 0x2C,
        first_comma(s) < s.len() ==> s[first_comma(s)] == 0x2C,
    decreases s.len(),
{
    if s.len() > 0 && s[0] != 0x2C {
        lemma_first_comma_bounds(s.skip(1));
        assert forall|i: int| 0 <= i < first_comma(s) implies s[i] != 0x2C by {
            if i > 0 {
                assert(s.skip(1)[i - 1] == s[i]);
            }
        }
        if first_comma(s) < s.len() {
            assert(s.skip(1)[first_comma(s) - 1] == s[first_comma(s)]);
        }
    }
}

/// If position `k` holds the first comma, `first_comma` finds it.
pub proof fn lemma_first_comma_unique(s: Seq<u8>, k: int)
    requires
        0 <= k < s.len(),
        s[k] == 0x2C,
        forall|i: int| 0 <= i < k ==> s[i] != 0x2C,
    ensures
        first_comma(s) == k,
    decreases s.len(),
{
    if k > 0 {
        assert forall|i: int| 0 <= i < k - 1 implies s.skip(1)[i] != 0x2C by {
            assert(s.skip(1)[i] == s[i + 1]);
        }
        assert(s.skip(1)[k - 1] == s[k]);
        lemma_first_comma_unique(s.skip(1), k - 1);
    }
}

/// The parses of the textual grammar `'(' digits ',' digits ')'`, with both
/// components non-empty, all digits, and within `u32` / `i32` range.
pub open spec fn spec_parse_child_id(s: Seq<u8>) -> Option<ChildId> {
    if s.len() >= 2 && s[0] == 0x28 && s[s.len() - 1] == 0x29 {
        let mid = s.subrange(1, s.len() - 1);
        let k = first_comma(mid);
        if k < mid.len() {
            let a = mid.subrange(0, k);
            let b = mid.subrange(k + 1, mid.len() as int);
            if a.len() >= 1 && b.len() >= 1 && is_digits(a) && is_digits(b) && dec_value(a)
                <= u32::MAX && dec_value(b) <= i32::MAX {
                Some(ChildId { id: dec_value(a) as u32, pid: dec_value(b) as i32 })
            } else {
                None
            }
        } else {
            None
        }
    } else {
        None
    }
}

impl ChildId {
    pub fn new(id: u32, pid: i32) -> (r: ChildId)
        ensures
            r == (ChildId { id, pid }),
    {
        ChildId { id, pid }
    }

    /// Render as `(seq,pid)`.
    pub fn to_text(&self) -> (r: Vec<u8>)
        requires
            child_id_wf(*self),
        ensures
            r@ == child_id_text(*self),
    {
        let mut r: Vec<u8> = Vec::new();
        r.push(0x28);
        let mut seq_part = fmt_u32(self.id);
        r.append(&mut seq_part);
        r.push(0x2C);
        let mut pid_part = fmt_u32(self.pid as u32);
        r.append(&mut pid_part);
        r.push(0x29);
        proof {
            assert(r@ =~= child_id_text(*self));
        }
        r
    }

    /// Parse the textual form; accepts exactly what `spec_parse_child_id`
    /// accepts and hands back the offending input otherwise.
    pub fn parse(s: &[u8]) -> (r: Result<ChildId, ParseChildIdError>)
        ensures
            r matches Ok(id) ==> spec_parse_child_id(s@) == Some(id) && child_id_wf(id),
            r is Err <==> spec_parse_child_id(s@) is None,
            r matches Err(e) ==> e.0@ == s@,
    {
        if s.len() < 2 || s[0] != 0x28 || s[s.len() - 1] != 0x29 {
            return Err(ParseChildIdError(vstd::slice::slice_to_vec(s)));
        }
        let mid = vstd::slice::slice_subrange(s, 1, s.len() - 1);
        let ghost mid_s = s@.subrange(1, s@.len() - 1);
        let mut k: usize = 0;
        while k < mid.len() && mid[k] != 0x2C
            invariant
                0 <= k <= mid_s.len(),
                mid@ == mid_s,
                forall|i: int| 0 <= i < k ==> mid_s[i] != 0x2C,
            decreases mid_s.len() - k,
        {
            k = k + 1;
        }
        if k == mid.len() {
            proof {
                lemma_first_comma_bounds(mid_s);
            }
            return Err(ParseChildIdError(vstd::slice::slice_to_vec(s)));
        }
        proof {
            lemma_first_comma_unique(mid_s, k as int);
        }
        let a = vstd::slice::slice_subrange(mid, 0, k);
        let b = vstd::slice::slice_subrange(mid, k + 1, mid.len());
        let id_val = match parse_u32(a) {
            Some(v) => v,
            None => {
                return Err(ParseChildIdError(vstd::slice::slice_to_vec(s)));
            },
        };
        let pid_val = match parse_u32(b) {
            Some(v) => v,
            None => {
                return Err(ParseChildIdError(vstd::slice::slice_to_vec(s)));
            },
        };
        if pid_val > 0x7FFF_FFFF {
            return Err(ParseChildIdError(vstd::slice::slice_to_vec(s)));
        }
        Ok(ChildId { id: id_val, pid: pid_val as i32 })
    }
}

/// The textual form round-trips: parsing the rendering of any well-formed id
/// gives that id back.
pub proof fn lemma_child_id_round_trip(id: ChildId)
    requires
        child_id_wf(id),
    ensures
        spec_parse_child_id(child_id_text(id)) == Some(id),
{
    let a = dec_of(id.id as nat);
    let b = dec_of(id.pid as nat);
    let s = child_id_text(id);
    lemma_dec_of_digits(id.id as nat);
    lemma_dec_of_digits(id.pid as nat);
    assert(s.len() == a.len() + b.len() + 3);
    assert(s[0] == 0x28);
    assert(s[s.len() - 1] == 0x29);
    let mid = s.subrange(1, s.len() - 1);
    assert(mid =~= a + seq![0x2Cu8] + b);
    assert(mid[a.len() as int] == 0x2C);
    assert forall|i: int| 0 <= i < a.len() implies mid[i] != 0x2C by {
        assert(mid[i] == a[i]);
        assert(is_digit(a[i]));
    }
    lemma_first_comma_unique(mid, a.len() as int);
    assert(mid.subrange(0, a.len() as int) =~= a);
    assert(mid.subrange(a.len() as int + 1, mid.len() as int) =~= b);
    lemma_dec_of_value(id.id as nat);
    lemma_dec_of_value(id.pid as nat);
}

} // verus!
