//! The C string span functions over byte strings: a string ends at its
//! first NUL byte or at the end of the slice.
use vstd::prelude::*;

verus! {

/// The bytes of the C string held in `s`.
pub open spec fn c_str(s: Seq<u8>) -> Seq<u8>
    decreases s.len(),
{
    if s.len() == 0 {
        s
    } else if c_str(s.drop_last()).len() < s.len() - 1 {
        c_str(s.drop_last())
    } else if s.last() == 0 {
        s.drop_last()
    } else {
        s
    }
}

proof fn lemma_c_str_props(s: Seq<u8>)
    ensures
        c_str(s).len() <= s.len(),
        c_str(s) == s.take(c_str(s).len() as int),
        forall|i: int| 0 <= i < c_str(s).len() ==> #[trigger] s[i] != 0,
        c_str(s).len() < s.len() ==> s[c_str(s).len() as int] == 0,
    decreases s.len(),
{
    if s.len() > 0 {
        let p = s.drop_last();
        lemma_c_str_props(p);
        assert forall|i: int| 0 <= i < p.len() implies #[trigger] s[i] == p[i] by {}
        if c_str(p).len() < p.len() {
            assert(p.take(c_str(p).len() as int) =~= s.take(c_str(p).len() as int));
            assert(s[c_str(p).len() as int] == p[c_str(p).len() as int]);
        } else {
            assert(c_str(p).len() == p.len());
            assert(p.take(p.len() as int) =~= p);
            if s.last() == 0 {
                assert(s.take(p.len() as int) =~= p);
            } else {
                assert(s.take(s.len() as int) =~= s);
                assert forall|i: int| 0 <= i < s.len() implies #[trigger] s[i] != 0 by {
                    if i < p.len() {
                        assert(s[i] == p[i]);
                    }
                }
            }
        }
    }
}

/// Length of the C string in `s`.
fn c_len(s: &[u8]) -> (n: usize)
    ensures
        n == c_str(s@).len(),
{
    proof {
        lemma_c_str_props(s@);
    }
    let mut i: usize = 0;
    while i < s.len() && s[i] != 0
        invariant
            i <= s@.len(),
            forall|j: int| 0 <= j < i ==> s@[j] != 0,
            c_str(s@).len() <= s@.len(),
            forall|j: int| 0 <= j < c_str(s@).len() ==> #[trigger] s@[j] != 0,
            c_str(s@).len() < s@.len() ==> s@[c_str(s@).len() as int] == 0,
        decreases s@.len() - i,
    {
        i = i + 1;
    }
    i
}

/// `b` occurs in the C string of `set`.
pub open spec fn in_set(set: Seq<u8>, b: u8) -> bool {
    c_str(set).contains(b)
}

fn in_set_exec(set: &[u8], set_len: usize, b: u8) -> (r: bool)
    requires
        set_len == c_str(set@).len(),
    ensures
        r == in_set(set@, b),
{
    proof {
        lemma_c_str_props(set@);
    }
    let mut j: usize = 0;
    while j < set_len
        invariant
            set_len == c_str(set@).len(),
            set_len <= set@.len(),
            c_str(set@) == set@.take(set_len as int),
            j <= set_len,
            forall|k: int| 0 <= k < j ==> set@[k] != b,
        decreases set_len - j,
    {
        if set[j] == b {
            assert(c_str(set@)[j as int] == b);
            return true;
        }
        j = j + 1;
    }
    assert(!c_str(set@).contains(b)) by {
        if c_str(set@).contains(b) {
            let k = choose|k: int| 0 <= k < c_str(set@).len() && c_str(set@)[k] == b;
            assert(set@[k] == b);
        }
    }
    false
}

/// `n` bytes at the front of `s` have membership `member` in the C string
/// `ct`, and the byte after them, if any, has not.
pub open spec fn is_run(s: Seq<u8>, ct: Seq<u8>, member: bool, n: nat) -> bool {
    &&& n <= s.len()
    &&& forall|i: int| 0 <= i < n ==> #[trigger] in_set(ct, s[i]) == member
    &&& (n == s.len() || in_set(ct, s[n as int]) != member)
}

/// Length of the longest prefix of the C string `cs` made only of bytes of
/// the C string `ct`.
pub open spec fn span_len(cs: Seq<u8>, ct: Seq<u8>) -> nat {
    choose|n: nat| is_run(c_str(cs), ct, true, n)
}

/// Length of the longest prefix of the C string `cs` with no byte of the C
/// string `ct`.
pub open spec fn cspan_len(cs: Seq<u8>, ct: Seq<u8>) -> nat {
    choose|n: nat| is_run(c_str(cs), ct, false, n)
}

/// A run has one length only.
proof fn lemma_run_unique(s: Seq<u8>, ct: Seq<u8>, member: bool, n: nat, m: nat)
    requires
        is_run(s, ct, member, n),
        is_run(s, ct, member, m),
    ensures
        n == m,
{
    if m < n {
        assert(in_set(ct, s[m as int]) == member);
    } else if n < m {
        assert(in_set(ct, s[n as int]) == member);
    }
}

/// Counts the leading bytes of the C string `cs` whose membership in the C
/// string `ct` is `member`.
fn run(cs: &[u8], ct: &[u8], member: bool) -> (n: usize)
    ensures
        is_run(c_str(cs@), ct@, member, n as nat),
{
    let len = c_len(cs);
    let set_len = c_len(ct);
    proof {
        lemma_c_str_props(cs@);
    }
    let mut i: usize = 0;
    while i < len && in_set_exec(ct, set_len, cs[i]) == member
        invariant
            len == c_str(cs@).len(),
            len <= cs@.len(),
            c_str(cs@) == cs@.take(len as int),
            set_len == c_str(ct@).len(),
            i <= len,
            forall|j: int| 0 <= j < i ==> #[trigger] in_set(ct@, c_str(cs@)[j]) == member,
        decreases len - i,
    {
        i = i + 1;
    }
    i
}

/// `strspn`: how many leading bytes of `cs` occur in `ct`.
pub fn strspn(cs: &[u8], ct: &[u8]) -> (n: usize)
    ensures
        n == span_len(cs@, ct@),
{
    let n = run(cs, ct, true);
    proof {
        lemma_run_unique(c_str(cs@), ct@, true, n as nat, span_len(cs@, ct@));
    }
    n
}

/// `strcspn`: how many leading bytes of `cs` do not occur in `ct`.
pub fn strcspn(cs: &[u8], ct: &[u8]) -> (n: usize)
    ensures
        n == cspan_len(cs@, ct@),
{
    let n = run(cs, ct, false);
    proof {
        lemma_run_unique(c_str(cs@), ct@, false, n as nat, cspan_len(cs@, ct@));
    }
    n
}

} // verus!
