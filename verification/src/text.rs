//! Character-level helpers shared by the parsers and formatters.
use vstd::prelude::*;

verus! {

/// The characters of `s`, in order.
pub fn chars_of(s: &str) -> (r: Vec<char>)
    ensures
        r@ == s@,
{
    let mut out: Vec<char> = Vec::new();
    for c in it: s.chars()
        invariant
            out@ == it.seq().take(it.index() as int),
            it.seq() == s@,
    {
        proof {
            assert(it.seq().take(it.index() + 1) =~= it.seq().take(it.index() as int).push(c));
        }
        out.push(c);
    }
    proof {
        assert(s@.take(s@.len() as int) =~= s@);
    }
    out
}

/// Appends one character to a string (`String::push`).
#[verifier::external_body]
pub(crate) fn push_char(s: &mut String, c: char)
    ensures
        final(s)@ == old(s)@.push(c),
{
    s.push(c);
}

/// Appends `src[from..to]` to `dst`.
pub(crate) fn push_chars(dst: &mut String, src: &Vec<char>, from: usize, to: usize)
    requires
        from <= to <= src@.len(),
    ensures
        final(dst)@ == old(dst)@ + src@.subrange(from as int, to as int),
{
    let mut i = from;
    while i < to
        invariant
            from <= i <= to <= src@.len(),
            dst@ == old(dst)@ + src@.subrange(from as int, i as int),
        decreases to - i,
    {
        push_char(dst, src[i]);
        proof {
            assert(src@.subrange(from as int, i + 1) =~= src@.subrange(from as int, i as int).push(
                src@[i as int],
            ));
        }
        i = i + 1;
    }
}

/// Appends all of `s` to `dst`.
pub fn append_str(dst: &mut String, s: &str)
    ensures
        final(dst)@ == old(dst)@ + s@,
{
    let ghost start = dst@;
    for c in it: s.chars()
        invariant
            dst@ == start + it.seq().take(it.index() as int),
            it.seq() == s@,
    {
        proof {
            assert(it.seq().take(it.index() + 1) =~= it.seq().take(it.index() as int).push(c));
        }
        push_char(dst, c);
    }
    proof {
        assert(s@.take(s@.len() as int) =~= s@);
    }
}

/// `a` followed by `b`, as a new string.
pub fn concat(a: &str, b: &str) -> (r: String)
    ensures
        r@ == a@ + b@,
{
    let mut r = String::new();
    append_str(&mut r, a);
    append_str(&mut r, b);
    r
}

/// Whether `a` and `b` hold the same characters.
pub fn str_eq(a: &str, b: &str) -> (r: bool)
    ensures
        r == (a@ == b@),
{
    let x = chars_of(a);
    let y = chars_of(b);
    if x.len() != y.len() {
        return false;
    }
    let mut i: usize = 0;
    while i < x.len()
        invariant
            x@.len() == y@.len(),
            x@ == a@,
            y@ == b@,
            i <= x@.len(),
            forall|j: int| 0 <= j < i ==> x@[j] == y@[j],
        decreases x@.len() - i,
    {
        if x[i] != y[i] {
            assert(x@[i as int] != y@[i as int]);
            return false;
        }
        i = i + 1;
    }
    assert(x@ =~= y@);
    true
}

/// `pat` occurs in `s` starting at `i`.
pub open spec fn occurs_at(s: Seq<char>, pat: Seq<char>, i: int) -> bool {
    0 <= i && i + pat.len() <= s.len() && s.subrange(i, i + pat.len()) == pat
}

/// `s` contains `pat` (`str::contains`).
pub open spec fn contains_seq(s: Seq<char>, pat: Seq<char>) -> bool {
    exists|i: int| #[trigger] occurs_at(s, pat, i)
}

/// Where `pat` first occurs in `s` (`str::find`), if anywhere.
#[verifier::opaque]
pub open spec fn first_occurrence(s: Seq<char>, pat: Seq<char>) -> Option<int> {
    if contains_seq(s, pat) {
        Some(
            choose|i: int|
                occurs_at(s, pat, i) && forall|j: int| 0 <= j < i ==> !#[trigger] occurs_at(s, pat, j),
        )
    } else {
        None
    }
}

/// The first place where `pat` occurs is the one before which it does not.
pub proof fn lemma_first_occurrence_is(s: Seq<char>, pat: Seq<char>, i: int)
    requires
        occurs_at(s, pat, i),
        forall|j: int| 0 <= j < i ==> !#[trigger] occurs_at(s, pat, j),
    ensures
        first_occurrence(s, pat) == Some(i),
{
    reveal(first_occurrence);
    let k = choose|k: int|
        occurs_at(s, pat, k) && forall|j: int| 0 <= j < k ==> !#[trigger] occurs_at(s, pat, j);
    assert(k == i) by {
        if k > i {
            assert(occurs_at(s, pat, i));
        }
    }
}

/// `str::find` finds something exactly when the pattern occurs.
pub proof fn lemma_first_occurrence_some(s: Seq<char>, pat: Seq<char>)
    ensures
        first_occurrence(s, pat) is Some <==> contains_seq(s, pat),
{
    reveal(first_occurrence);
}

/// `s[from..to] == pat` at `i`, with `i + pat.len() <= to`.
pub(crate) fn matches_at_vec(s: &Vec<char>, i: usize, pat: &Vec<char>) -> (r: bool)
    requires
        i + pat@.len() <= s@.len(),
    ensures
        r == (s@.subrange(i as int, i + pat@.len()) == pat@),
{
    let mut j: usize = 0;
    assert(s@.len() == s.len());
    while j < pat.len()
        invariant
            j <= pat@.len(),
            i + pat@.len() <= s@.len(),
            s@.len() <= usize::MAX,
            s@.subrange(i as int, i + j) == pat@.take(j as int),
        decreases pat@.len() - j,
    {
        if s[i + j] != pat[j] {
            assert(s@.subrange(i as int, i + pat@.len())[j as int] != pat@[j as int]);
            return false;
        }
        assert(s@.subrange(i as int, i + j + 1) =~= pat@.take(j + 1));
        j = j + 1;
    }
    assert(pat@.take(j as int) =~= pat@);
    true
}

/// Where `pat` first occurs in `s[from..to]`, relative to `from`.
pub fn find_str(s: &Vec<char>, from: usize, to: usize, pat: &Vec<char>) -> (r: Option<usize>)
    requires
        from <= to <= s@.len(),
    ensures
        match r {
            Some(i) => first_occurrence(s@.subrange(from as int, to as int), pat@) == Some(i as int),
            None => first_occurrence(s@.subrange(from as int, to as int), pat@) is None,
        },
{
    let ghost t = s@.subrange(from as int, to as int);
    let m = pat.len();
    let n = to - from;
    if m == 0 {
        assert(t.subrange(0, 0) =~= pat@);
        proof {
            lemma_first_occurrence_is(t, pat@, 0);
        }
        return Some(0);
    }
    if m > n {
        assert(!contains_seq(t, pat@)) by {
            if contains_seq(t, pat@) {
                let k = choose|k: int| #[trigger] occurs_at(t, pat@, k);
            }
        }
        proof {
            reveal(first_occurrence);
        }
        return None;
    }
    let mut i: usize = 0;
    while i <= n - m
        invariant
            from <= to <= s@.len(),
            n == to - from,
            1 <= m <= n,
            m == pat@.len(),
            i <= n - m + 1,
            t == s@.subrange(from as int, to as int),
            forall|j: int| 0 <= j < i ==> !#[trigger] occurs_at(t, pat@, j),
        decreases n - m + 1 - i,
    {
        if matches_at_vec(s, from + i, pat) {
            assert(t.subrange(i as int, i + m) =~= s@.subrange(from + i, from + i + m));
            proof {
                lemma_first_occurrence_is(t, pat@, i as int);
            }
            return Some(i);
        }
        assert(t.subrange(i as int, i + m) =~= s@.subrange(from + i, from + i + m));
        i = i + 1;
    }
    assert(!contains_seq(t, pat@)) by {
        if contains_seq(t, pat@) {
            let k = choose|k: int| #[trigger] occurs_at(t, pat@, k);
            assert(k < i);
        }
    }
    proof {
        reveal(first_occurrence);
    }
    None
}

/// A string holding `src[from..to]`.
pub fn string_from(src: &Vec<char>, from: usize, to: usize) -> (s: String)
    requires
        from <= to <= src@.len(),
    ensures
        s@ == src@.subrange(from as int, to as int),
{
    let mut s = String::new();
    push_chars(&mut s, src, from, to);
    s
}

/// Decimal digits of `n` (no sign, no leading zeros; `"0"` for zero).
pub open spec fn decimal(n: nat) -> Seq<char>
    decreases n,
{
    if n < 10 {
        seq![digit_char(n)]
    } else {
        decimal(n / 10).push(digit_char(n % 10))
    }
}

pub open spec fn digit_char(d: nat) -> char {
    if d == 0 {
        '0'
    } else if d == 1 {
        '1'
    } else if d == 2 {
        '2'
    } else if d == 3 {
        '3'
    } else if d == 4 {
        '4'
    } else if d == 5 {
        '5'
    } else if d == 6 {
        '6'
    } else if d == 7 {
        '7'
    } else if d == 8 {
        '8'
    } else {
        '9'
    }
}

fn digit_char_exec(d: usize) -> (c: char)
    requires
        d < 10,
    ensures
        c == digit_char(d as nat),
{
    if d == 0 {
        '0'
    } else if d == 1 {
        '1'
    } else if d == 2 {
        '2'
    } else if d == 3 {
        '3'
    } else if d == 4 {
        '4'
    } else if d == 5 {
        '5'
    } else if d == 6 {
        '6'
    } else if d == 7 {
        '7'
    } else if d == 8 {
        '8'
    } else {
        '9'
    }
}

/// Appends the decimal digits of `n` to `s`.
pub fn push_decimal(s: &mut String, n: usize)
    ensures
        final(s)@ == old(s)@ + decimal(n as nat),
    decreases n,
{
    if n < 10 {
        push_char(s, digit_char_exec(n));
        assert(decimal(n as nat) =~= seq![digit_char(n as nat)]);
    } else {
        push_decimal(s, n / 10);
        push_char(s, digit_char_exec(n % 10));
    }
}

/// `char::is_whitespace`: the Unicode `White_Space` characters.
pub open spec fn is_space(c: char) -> bool {
    ||| '\t' <= c <= '\r'
    ||| c == ' '
    ||| c == '\u{85}'
    ||| c == '\u{a0}'
    ||| c == '\u{1680}'
    ||| '\u{2000}' <= c <= '\u{200a}'
    ||| c == '\u{2028}'
    ||| c == '\u{2029}'
    ||| c == '\u{202f}'
    ||| c == '\u{205f}'
    ||| c == '\u{3000}'
}

pub fn is_space_exec(c: char) -> (r: bool)
    ensures
        r == is_space(c),
{
    ('\t' <= c && c <= '\r') || c == ' ' || c == '\u{85}' || c == '\u{a0}' || c == '\u{1680}' || (
    '\u{2000}' <= c && c <= '\u{200a}') || c == '\u{2028}' || c == '\u{2029}' || c == '\u{202f}'
        || c == '\u{205f}' || c == '\u{3000}'
}

/// `s` without leading and trailing whitespace (`str::trim`).
pub open spec fn trimmed(s: Seq<char>) -> Seq<char>
    decreases s.len(),
{
    if s.len() == 0 {
        s
    } else if is_space(s[0]) {
        trimmed(s.drop_first())
    } else if is_space(s.last()) {
        trimmed(s.drop_last())
    } else {
        s
    }
}

/// Bounds `[a, b)` of `trimmed(src[from..to])` within `src`.
pub fn trim_bounds(src: &Vec<char>, from: usize, to: usize) -> (r: (usize, usize))
    requires
        from <= to <= src@.len(),
    ensures
        from <= r.0 <= r.1 <= to,
        src@.subrange(r.0 as int, r.1 as int) == trimmed(src@.subrange(from as int, to as int)),
{
    let mut a = from;
    let mut b = to;
    while a < b && is_space_exec(src[a])
        invariant
            from <= a <= b <= to <= src@.len(),
            trimmed(src@.subrange(from as int, to as int)) == trimmed(
                src@.subrange(a as int, b as int),
            ),
        decreases b - a,
    {
        proof {
            assert(src@.subrange(a as int, b as int).drop_first() =~= src@.subrange(a + 1, b as int));
        }
        a = a + 1;
    }
    while a < b && is_space_exec(src[b - 1])
        invariant
            from <= a <= b <= to <= src@.len(),
            trimmed(src@.subrange(from as int, to as int)) == trimmed(
                src@.subrange(a as int, b as int),
            ),
            a < b ==> !is_space(src@[a as int]),
        decreases b - a,
    {
        proof {
            assert(src@.subrange(a as int, b as int).drop_last() =~= src@.subrange(a as int, b - 1));
        }
        b = b - 1;
    }
    (a, b)
}

} // verus!
