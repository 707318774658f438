//! Interpretation of a raw HTTP/1.0 response read until the peer closed.
use vstd::prelude::*;
use vstd::utf8::{decode_utf8, valid_utf8};

use crate::http::{find_first, find_first_exec, lemma_find_first_props};
use crate::text::{chars_of, string_from, trim_bounds, trimmed};

verus! {

/// Index of the first `\r\n\r\n` in `s`, or -1.
pub open spec fn find_blank_line(s: Seq<u8>) -> int
    decreases s.len(),
{
    if s.len() < 4 {
        -1
    } else if find_blank_line(s.drop_last()) >= 0 {
        find_blank_line(s.drop_last())
    } else if s[s.len() - 4] == 13 && s[s.len() - 3] == 10 && s[s.len() - 2] == 13 && s[s.len() - 1]
        == 10 {
        s.len() - 4
    } else {
        -1
    }
}

/// Where the body starts: just after the first blank line, or 0 if there is none.
pub open spec fn body_start(s: Seq<u8>) -> int {
    if find_blank_line(s) >= 0 {
        find_blank_line(s) + 4
    } else {
        0
    }
}

proof fn lemma_blank_line_bounds(s: Seq<u8>)
    ensures
        -1 <= find_blank_line(s) <= s.len() - 4 || find_blank_line(s) == -1,
    decreases s.len(),
{
    if s.len() >= 4 {
        lemma_blank_line_bounds(s.drop_last());
    }
}

proof fn lemma_blank_line_prefix(s: Seq<u8>, n: int)
    requires
        0 <= n <= s.len(),
        find_blank_line(s.take(n)) >= 0,
    ensures
        find_blank_line(s) == find_blank_line(s.take(n)),
    decreases s.len() - n,
{
    if n < s.len() {
        assert(s.take(n + 1).drop_last() =~= s.take(n));
        lemma_blank_line_prefix(s, n + 1);
    } else {
        assert(s.take(n) =~= s);
    }
}

/// Offset at which the body of the raw response `raw` starts.
pub fn find_body_start(raw: &[u8]) -> (r: usize)
    ensures
        r == body_start(raw@),
        r <= raw@.len(),
{
    let n = raw.len();
    if n < 4 {
        return 0;
    }
    let mut i: usize = 0;
    while i < n - 3
        invariant
            n == raw@.len(),
            n >= 4,
            i <= n - 3,
            find_blank_line(raw@.take(i + 3)) == -1,
        decreases n - i,
    {
        proof {
            assert(raw@.take(i + 4).drop_last() =~= raw@.take(i + 3));
            lemma_blank_line_bounds(raw@.take(i + 4));
        }
        if raw[i] == 13 && raw[i + 1] == 10 && raw[i + 2] == 13 && raw[i + 3] == 10 {
            proof {
                lemma_blank_line_prefix(raw@, i + 4);
            }
            return i + 4;
        }
        i = i + 1;
    }
    proof {
        assert(raw@.take(i + 3) =~= raw@);
    }
    0
}

/// `line` without one trailing carriage return.
pub open spec fn strip_cr(line: Seq<char>) -> Seq<char> {
    if line.len() > 0 && line.last() == '\r' {
        line.drop_last()
    } else {
        line
    }
}

/// `str::lines`: pieces ended by `\n`, each without the `\n` and one `\r`
/// before it; a final piece without `\n` is kept as it is.
pub open spec fn lines_of(s: Seq<char>) -> Seq<Seq<char>>
    decreases s.len(),
{
    if s.len() == 0 {
        seq![]
    } else {
        let i = find_first(s, '\n');
        if i < 0 || i >= s.len() {
            seq![s]
        } else {
            seq![strip_cr(s.take(i))] + lines_of(s.skip(i + 1))
        }
    }
}

/// The lines of `s` after the first one.
pub open spec fn lines_after_first(s: Seq<char>) -> Seq<Seq<char>> {
    let i = find_first(s, '\n');
    if s.len() == 0 || i < 0 || i >= s.len() {
        seq![]
    } else {
        lines_of(s.skip(i + 1))
    }
}

/// A header line `name: value` gives the pair of trimmed name and value;
/// a line without `:` gives nothing.
pub open spec fn header_pairs(lines: Seq<Seq<char>>) -> Seq<(Seq<char>, Seq<char>)>
    decreases lines.len(),
{
    if lines.len() == 0 {
        seq![]
    } else {
        line_header(lines[0]) + header_pairs(lines.drop_first())
    }
}

/// Characters of the header section: its UTF-8 decoding, or nothing if it is not valid UTF-8.
pub open spec fn header_text(head: Seq<u8>) -> Seq<char> {
    if valid_utf8(head) {
        decode_utf8(head)
    } else {
        seq![]
    }
}

/// `String::from_utf8_lossy`: `bytes` decoded with each invalid sequence
/// replaced by U+FFFD.
pub uninterp spec fn lossy_utf8(bytes: Seq<u8>) -> Seq<char>;

/// `core::str::from_utf8`: the text of `bytes` when they are valid UTF-8.
#[verifier::external_body]
pub(crate) fn utf8_str(bytes: &[u8]) -> (r: Option<&str>)
    ensures
        r is Some <==> valid_utf8(bytes@),
        r matches Some(s) ==> s@ == decode_utf8(bytes@),
{
    core::str::from_utf8(bytes).ok()
}

/// `String::from_utf8_lossy`, owned: equal to the decoding when `bytes` are
/// valid UTF-8.
#[verifier::external_body]
fn utf8_lossy(bytes: &[u8]) -> (r: String)
    ensures
        r@ == lossy_utf8(bytes@),
        valid_utf8(bytes@) ==> r@ == decode_utf8(bytes@),
{
    String::from_utf8_lossy(bytes).into_owned()
}

/// The pair that one header line gives: trimmed name and value around its
/// first `:`, or nothing.
pub open spec fn line_header(line: Seq<char>) -> Seq<(Seq<char>, Seq<char>)> {
    let c = find_first(line, ':');
    if 0 <= c < line.len() {
        seq![(trimmed(line.take(c)), trimmed(line.skip(c + 1)))]
    } else {
        seq![]
    }
}

proof fn lemma_header_pairs_cons(line: Seq<char>, rest: Seq<Seq<char>>)
    ensures
        header_pairs(seq![line] + rest) == line_header(line) + header_pairs(rest),
{
    assert((seq![line] + rest).drop_first() =~= rest);
    assert((seq![line] + rest)[0] == line);
}

/// Bounds of the line that starts at `pos`: where its text ends and where
/// the next line starts.
pub(crate) fn next_line(s: &Vec<char>, pos: usize) -> (r: (usize, usize))
    requires
        pos < s@.len(),
    ensures
        pos <= r.0 <= r.1 <= s@.len(),
        pos < r.1,
        lines_of(s@.skip(pos as int)) == seq![s@.subrange(pos as int, r.0 as int)] + lines_of(
            s@.skip(r.1 as int),
        ),
{
    let n = s.len();
    let ghost rest = s@.skip(pos as int);
    assert(rest =~= s@.subrange(pos as int, n as int));
    let nl = find_first_exec(s, pos, n, '\n');
    proof {
        lemma_find_first_props(rest, '\n');
    }
    match nl {
        Some(j) => {
            let mut e = pos + j;
            if e > pos && s[e - 1] == '\r' {
                e = e - 1;
            }
            assert(s@.subrange(pos as int, e as int) =~= strip_cr(rest.take(j as int)));
            assert(rest.skip(j + 1) =~= s@.skip(pos + j + 1));
            (e, pos + j + 1)
        },
        None => {
            assert(s@.subrange(pos as int, n as int) =~= rest);
            assert(s@.skip(n as int) =~= seq![]);
            (n, n)
        },
    }
}

/// Appends the pair that the line `s[from..to]` gives, if any.
fn push_line_header(s: &Vec<char>, from: usize, to: usize, headers: &mut Vec<(String, String)>)
    requires
        from <= to <= s@.len(),
    ensures
        final(headers)@.map_values(|p: (String, String)| (p.0@, p.1@)) == old(headers)@.map_values(
            |p: (String, String)| (p.0@, p.1@),
        ) + line_header(s@.subrange(from as int, to as int)),
{
    let ghost line = s@.subrange(from as int, to as int);
    let colon = find_first_exec(s, from, to, ':');
    proof {
        lemma_find_first_props(line, ':');
    }
    match colon {
        Some(c) => {
            let (a, b) = trim_bounds(s, from, from + c);
            let (a2, b2) = trim_bounds(s, from + c + 1, to);
            let name = string_from(s, a, b);
            let value = string_from(s, a2, b2);
            assert(line.take(c as int) =~= s@.subrange(from as int, from + c));
            assert(line.skip(c + 1) =~= s@.subrange(from + c + 1, to as int));
            headers.push((name, value));
            assert(headers@.map_values(|p: (String, String)| (p.0@, p.1@)) =~= old(
                headers,
            )@.map_values(|p: (String, String)| (p.0@, p.1@)) + line_header(line));
        },
        None => {
            assert(line_header(line) =~= seq![]);
            assert(headers@.map_values(|p: (String, String)| (p.0@, p.1@)) =~= old(
                headers,
            )@.map_values(|p: (String, String)| (p.0@, p.1@)) + line_header(line));
        },
    }
}

/// The header pairs of the lines of `text` after the first (status) line.
pub fn parse_header_lines(text: &str) -> (headers: Vec<(String, String)>)
    ensures
        headers@.map_values(|p: (String, String)| (p.0@, p.1@)) == header_pairs(
            lines_after_first(text@),
        ),
{
    let s = chars_of(text);
    let n = s.len();
    let mut headers: Vec<(String, String)> = Vec::new();
    let first = find_first_exec(&s, 0, n, '\n');
    proof {
        assert(s@.subrange(0, n as int) =~= s@);
        lemma_find_first_props(s@, '\n');
    }
    let mut pos: usize = match first {
        None => {
            assert(headers@.map_values(|p: (String, String)| (p.0@, p.1@)) =~= seq![]);
            return headers;
        },
        Some(i) => i + 1,
    };
    assert(headers@.map_values(|p: (String, String)| (p.0@, p.1@)) =~= seq![]);
    while pos < n
        invariant
            n == s@.len(),
            s@ == text@,
            pos <= n,
            headers@.map_values(|p: (String, String)| (p.0@, p.1@)) + header_pairs(
                lines_of(s@.skip(pos as int)),
            ) == header_pairs(lines_after_first(s@)),
        decreases n - pos,
    {
        let (line_end, next) = next_line(&s, pos);
        let ghost line = s@.subrange(pos as int, line_end as int);
        proof {
            lemma_header_pairs_cons(line, lines_of(s@.skip(next as int)));
        }
        let ghost before = headers@.map_values(|p: (String, String)| (p.0@, p.1@));
        push_line_header(&s, pos, line_end, &mut headers);
        assert(before + header_pairs(lines_of(s@.skip(pos as int))) =~= (before + line_header(line))
            + header_pairs(lines_of(s@.skip(next as int))));
        pos = next;
    }
    proof {
        assert(s@.skip(pos as int) =~= seq![]);
        assert(headers@.map_values(|p: (String, String)| (p.0@, p.1@)) + header_pairs(
            lines_of(s@.skip(pos as int)),
        ) =~= headers@.map_values(|p: (String, String)| (p.0@, p.1@)));
    }
    headers
}

/// Header pairs and body of a raw response: the headers come from the
/// section before the first blank line (status line excluded; nothing if
/// that section is not valid UTF-8), the body is the rest decoded lossily.
pub fn parse_http_response(raw: &[u8]) -> (r: (Vec<(String, String)>, String))
    ensures
        r.0@.map_values(|p: (String, String)| (p.0@, p.1@)) == header_pairs(
            lines_after_first(header_text(raw@.take(body_start(raw@)))),
        ),
        r.1@ == lossy_utf8(raw@.skip(body_start(raw@))),
{
    let split = find_body_start(raw);
    let head = vstd::slice::slice_subrange(raw, 0, split);
    let tail = vstd::slice::slice_subrange(raw, split, raw.len());
    assert(head@ =~= raw@.take(split as int));
    assert(tail@ =~= raw@.skip(split as int));
    let headers = match utf8_str(head) {
        Some(text) => parse_header_lines(text),
        None => {
            proof {
                reveal_strlit("");
            }
            parse_header_lines("")
        },
    };
    let body = utf8_lossy(tail);
    (headers, body)
}

} // verus!
