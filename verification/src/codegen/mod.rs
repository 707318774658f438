//! Generation of the glue between the host and sandboxed widgets: template
//! filling, the per-type wire mapping and the service model.
use vstd::prelude::*;

use crate::text::{append_str, chars_of, push_char, push_chars};

pub mod model;
pub mod parser;
pub mod source;
pub mod type_map;


verus! {

/// `s` with every non-overlapping occurrence of `pat`, scanned from the left,
/// replaced by `rep` (`str::replace` for a non-empty pattern).
pub open spec fn replace_all(s: Seq<char>, pat: Seq<char>, rep: Seq<char>) -> Seq<char>
    decreases s.len(),
{
    if pat.len() == 0 || s.len() < pat.len() {
        s
    } else if s.take(pat.len() as int) == pat {
        rep + replace_all(s.skip(pat.len() as int), pat, rep)
    } else {
        seq![s[0]] + replace_all(s.skip(1), pat, rep)
    }
}

/// One step of the scan: what `replace_all` does with the first character(s).
pub proof fn lemma_replace_step(s: Seq<char>, pat: Seq<char>, rep: Seq<char>)
    requires
        s.len() > 0,
        pat.len() > 0,
    ensures
        replace_all(s, pat, rep) == if s.len() >= pat.len() && s.take(pat.len() as int) == pat {
            rep + replace_all(s.skip(pat.len() as int), pat, rep)
        } else {
            seq![s[0]] + replace_all(s.skip(1), pat, rep)
        },
{
    if s.len() < pat.len() {
        assert(s =~= seq![s[0]] + s.skip(1));
    }
}

/// `s[i..i + pat.len()] == pat`.
fn matches_at(s: &Vec<char>, i: usize, pat: &Vec<char>) -> (r: bool)
    requires
        i + pat@.len() <= s@.len(),
    ensures
        r == (s@.subrange(i as int, i + pat@.len()) == pat@),
{
    let mut j: usize = 0;
    assert(s@.len() == s.len());
    while j < pat.len()
        invariant
            j <= pat@.len(),
            i + pat@.len() <= s@.len(),
            s@.len() <= usize::MAX,
            s@.subrange(i as int, i + j) == pat@.take(j as int),
        decreases pat@.len() - j,
    {
        if s[i + j] != pat[j] {
            assert(s@.subrange(i as int, i + pat@.len())[j as int] != pat@[j as int]);
            return false;
        }
        assert(s@.subrange(i as int, i + j + 1) =~= pat@.take(j + 1));
        j = j + 1;
    }
    assert(pat@.take(j as int) =~= pat@);
    true
}

/// `s.replace(pat, rep)` for a non-empty `pat`.
pub fn replace_str(s: &str, pat: &str, rep: &str) -> (r: String)
    requires
        pat@.len() > 0,
    ensures
        r@ == replace_all(s@, pat@, rep@),
{
    let sv = chars_of(s);
    let pv = chars_of(pat);
    let rv = chars_of(rep);
    let n = sv.len();
    let mut out = String::new();
    let mut i: usize = 0;
    assert(sv@.skip(0) =~= sv@);
    while i < n
        invariant
            n == sv@.len(),
            sv@ == s@,
            pv@ == pat@,
            rv@ == rep@,
            pat@.len() > 0,
            i <= n,
            out@ + replace_all(sv@.skip(i as int), pv@, rv@) == replace_all(sv@, pv@, rv@),
        decreases n - i,
    {
        let ghost rest = sv@.skip(i as int);
        let ghost before = out@;
        proof {
            lemma_replace_step(rest, pv@, rv@);
        }
        if pv.len() <= n - i && matches_at(&sv, i, &pv) {
            assert(rest.take(pv@.len() as int) =~= sv@.subrange(i as int, i + pv@.len()));
            assert(rest.skip(pv@.len() as int) =~= sv@.skip(i + pv@.len()));
            push_chars(&mut out, &rv, 0, rv.len());
            assert(rv@.subrange(0, rv@.len() as int) =~= rv@);
            let ghost tail = replace_all(sv@.skip(i + pv@.len()), pv@, rv@);
            assert((before + rv@) + tail =~= before + (rv@ + tail));
            i = i + pv.len();
        } else {
            if pv.len() <= n - i {
                assert(rest.take(pv@.len() as int) =~= sv@.subrange(i as int, i + pv@.len()));
            }
            assert(rest.skip(1) =~= sv@.skip(i + 1));
            assert(rest[0] == sv@[i as int]);
            push_char(&mut out, sv[i]);
            let ghost tail = replace_all(sv@.skip(i + 1), pv@, rv@);
            assert(before.push(sv@[i as int]) + tail =~= before + (seq![rest[0]] + tail));
            i = i + 1;
        }
    }
    assert(sv@.skip(n as int) =~= seq![]);
    out
}

/// `%key%`: the placeholder that stands for `key` in a template.
pub open spec fn placeholder(key: Seq<char>) -> Seq<char> {
    seq!['%'] + key + seq!['%']
}

/// `template` with the placeholder of each key replaced by its value, the
/// pairs applied in order, each to the result of the ones before.
pub open spec fn render_spec(template: Seq<char>, vars: Seq<(Seq<char>, Seq<char>)>) -> Seq<char>
    decreases vars.len(),
{
    if vars.len() == 0 {
        template
    } else {
        render_spec(
            replace_all(template, placeholder(vars[0].0), vars[0].1),
            vars.drop_first(),
        )
    }
}

/// The views of a list of key/value pairs.
pub open spec fn pair_views(vars: Seq<(&str, &str)>) -> Seq<(Seq<char>, Seq<char>)> {
    vars.map_values(|p: (&str, &str)| (p.0@, p.1@))
}

proof fn lemma_render_split(t: Seq<char>, vars: Seq<(Seq<char>, Seq<char>)>, i: int)
    requires
        0 <= i < vars.len(),
    ensures
        render_spec(t, vars.skip(i)) == render_spec(
            replace_all(t, placeholder(vars[i].0), vars[i].1),
            vars.skip(i + 1),
        ),
{
    assert(vars.skip(i).drop_first() =~= vars.skip(i + 1));
    assert(vars.skip(i)[0] == vars[i]);
}

/// Substitutes `%key%` placeholders in `template` with the given values.
pub fn render(template: &str, vars: &[(&str, &str)]) -> (r: String)
    ensures
        r@ == render_spec(template@, pair_views(vars@)),
{
    let ghost pv = pair_views(vars@);
    let mut s = template.to_owned();
    let mut i: usize = 0;
    assert(pv.skip(0) =~= pv);
    while i < vars.len()
        invariant
            i <= vars@.len(),
            pv == pair_views(vars@),
            render_spec(s@, pv.skip(i as int)) == render_spec(template@, pv),
        decreases vars@.len() - i,
    {
        let (k, v) = vars[i];
        let mut key = String::new();
        push_char(&mut key, '%');
        append_str(&mut key, k);
        push_char(&mut key, '%');
        proof {
            lemma_render_split(s@, pv, i as int);
            assert(key@ =~= placeholder(pv[i as int].0));
        }
        s = replace_str(s.as_str(), key.as_str(), v);
        i = i + 1;
    }
    assert(pv.skip(i as int) =~= seq![]);
    s
}

} // verus!
