//! Content type of files served by the administration page.
use vstd::prelude::*;

use crate::text::chars_of;

verus! {

/// `s` ends with `suffix`.
pub open spec fn ends_with(s: Seq<char>, suffix: Seq<char>) -> bool {
    s.len() >= suffix.len() && s.subrange(s.len() - suffix.len(), s.len() as int) == suffix
}

fn ends_with_exec(s: &Vec<char>, suffix: &str) -> (r: bool)
    ensures
        r == ends_with(s@, suffix@),
{
    let t = chars_of(suffix);
    let n = s.len();
    let m = t.len();
    if m > n {
        return false;
    }
    let mut i: usize = 0;
    while i < m
        invariant
            n == s@.len(),
            m == t@.len(),
            t@ == suffix@,
            m <= n,
            i <= m,
            forall|j: int| 0 <= j < i ==> s@[n - m + j] == t@[j],
        decreases m - i,
    {
        if s[n - m + i] != t[i] {
            assert(s@.subrange(n - m, n as int)[i as int] != t@[i as int]);
            return false;
        }
        i = i + 1;
    }
    assert(s@.subrange(n - m, n as int) =~= t@);
    true
}

/// MIME type of a served file, by its extension.
pub open spec fn content_type_of(path: Seq<char>) -> Seq<char> {
    if ends_with(path, ".html"@) {
        "text/html; charset=utf-8"@
    } else if ends_with(path, ".css"@) {
        "text/css"@
    } else if ends_with(path, ".js"@) {
        "application/javascript; charset=utf-8"@
    } else if ends_with(path, ".json"@) {
        "application/json"@
    } else {
        "application/octet-stream"@
    }
}

pub fn content_type(path: &str) -> (t: &'static str)
    ensures
        t@ == content_type_of(path@),
{
    let p = chars_of(path);
    if ends_with_exec(&p, ".html") {
        "text/html; charset=utf-8"
    } else if ends_with_exec(&p, ".css") {
        "text/css"
    } else if ends_with_exec(&p, ".js") {
        "application/javascript; charset=utf-8"
    } else if ends_with_exec(&p, ".json") {
        "application/json"
    } else {
        "application/octet-stream"
    }
}

} // verus!
