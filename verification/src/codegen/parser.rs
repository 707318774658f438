//! Discovery of services and events from the syntax of the library's own
//! source: traits, structs and enums with their doc-comment directives
//! (`@wasm`, `@default`, `@setter`).
//!
//! The syntax arrives as the plain description below; reading and parsing
//! the source files happens before.
use vstd::prelude::*;

use crate::codegen::model::{
    field_def_view, BindingDef, EventFieldDef, EventVariantDef, EventsDef, FieldDef, ServiceDef,
};
use crate::codegen::type_map::{
    base_expansion, expand, expand_return, expand_spec, fits_return, ExpansionView,
};
use crate::http::response::{lines_of, next_line};
use crate::http::{find_first, find_first_exec, lemma_find_first_props};
use crate::text::{
    append_str, chars_of, concat, contains_seq, first_occurrence, find_str, lemma_first_occurrence_is,
    lemma_first_occurrence_some, occurs_at, push_char, string_from, trim_bounds, trimmed,
};

verus! {

/// An attribute as written: the segments of its path (and whether the path
/// starts with `::`), and for `#[path = "..."]` the string literal's value.
pub struct Attr {
    pub leading_colon: bool,
    pub path: Vec<String>,
    pub str_value: Option<String>,
}

/// The text of `a` when it is a doc comment line: the attribute is exactly
/// `doc` and has a string value.
pub open spec fn doc_value(a: Attr) -> Option<Seq<char>> {
    if !a.leading_colon && a.path@.len() == 1 && a.path@[0]@ == "doc"@ {
        match a.str_value {
            Some(s) => Some(s@),
            None => None,
        }
    } else {
        None
    }
}

/// The text of `a` when it is a doc comment line.
fn doc_line(a: &Attr) -> (r: Option<&String>)
    ensures
        match r {
            Some(s) => doc_value(*a) == Some(s@),
            None => doc_value(*a) is None,
        },
{
    if a.leading_colon || a.path.len() != 1 || !crate::text::str_eq(a.path[0].as_str(), "doc") {
        return None;
    }
    match &a.str_value {
        Some(s) => Some(s),
        None => None,
    }
}

/// The shape of a type as written.
pub enum TypeSyntax {
    /// A path; `ident` is its last segment, `arg` its first type argument.
    Path { ident: String, arg: Option<Box<TypeSyntax>> },
    /// `&T` or `&mut T`.
    Reference(Box<TypeSyntax>),
    /// `(A, B, ...)`; `()` has no elements.
    Tuple(Vec<TypeSyntax>),
    /// Any other shape.
    Other,
}

/// A struct or variant field; `name` is `None` in a tuple struct.
pub struct FieldSyntax {
    pub attrs: Vec<Attr>,
    pub name: Option<String>,
    pub ty: TypeSyntax,
}

/// The fields of a struct or variant.
pub enum FieldsSyntax {
    Named(Vec<FieldSyntax>),
    Unnamed,
    Unit,
}

pub struct StructSyntax {
    pub attrs: Vec<Attr>,
    pub name: String,
    pub fields: FieldsSyntax,
}

/// A method parameter: `self` in some form, or a typed pattern.
pub enum ParamSyntax {
    Receiver,
    Typed(TypeSyntax),
}

/// A trait method's signature; `output` is `None` without `->`.
pub struct MethodSyntax {
    pub attrs: Vec<Attr>,
    pub name: String,
    pub inputs: Vec<ParamSyntax>,
    pub output: Option<TypeSyntax>,
}

pub enum TraitItemSyntax {
    Method(MethodSyntax),
    Other,
}

pub struct TraitSyntax {
    pub attrs: Vec<Attr>,
    pub name: String,
    pub items: Vec<TraitItemSyntax>,
}

pub struct VariantSyntax {
    pub name: String,
    pub fields: FieldsSyntax,
}

pub struct EnumSyntax {
    pub name: String,
    pub variants: Vec<VariantSyntax>,
}

/// A top-level item of a source file.
pub enum ItemSyntax {
    Trait(TraitSyntax),
    Struct(StructSyntax),
    Enum(EnumSyntax),
    Other,
}

// ── Doc comments and directives ──────────────────────────────────────────────

/// The doc comment lines among `attrs`, in order.
pub open spec fn doc_strings(attrs: Seq<Attr>) -> Seq<Seq<char>>
    decreases attrs.len(),
{
    if attrs.len() == 0 {
        seq![]
    } else {
        let rest = doc_strings(attrs.drop_last());
        match doc_value(attrs.last()) {
            Some(s) => rest.push(s),
            None => rest,
        }
    }
}

/// `parts` joined with newlines.
pub open spec fn join_lines(parts: Seq<Seq<char>>) -> Seq<char>
    decreases parts.len(),
{
    if parts.len() == 0 {
        seq![]
    } else if parts.len() == 1 {
        parts[0]
    } else {
        join_lines(parts.drop_last()) + seq!['\n'] + parts.last()
    }
}

/// The doc comment of an item: its doc lines joined with newlines.
pub open spec fn doc_text(attrs: Seq<Attr>) -> Seq<char> {
    join_lines(doc_strings(attrs))
}

/// The doc comment of an item, its lines joined with newlines.
pub fn collect_doc(attrs: &Vec<Attr>) -> (doc: String)
    ensures
        doc@ == doc_text(attrs@),
{
    let mut doc = String::new();
    let mut any = false;
    let mut i: usize = 0;
    while i < attrs.len()
        invariant
            i <= attrs@.len(),
            doc@ == join_lines(doc_strings(attrs@.take(i as int))),
            any == (doc_strings(attrs@.take(i as int)).len() > 0),
        decreases attrs@.len() - i,
    {
        assert(attrs@.take(i + 1).drop_last() =~= attrs@.take(i as int));
        match doc_line(&attrs[i]) {
            Some(s) => {
                let ghost parts = doc_strings(attrs@.take(i as int));
                assert(doc_strings(attrs@.take(i + 1)) == parts.push(s@));
                assert(parts.push(s@).drop_last() =~= parts);
                if any {
                    push_char(&mut doc, '\n');
                } else {
                    assert(parts.push(s@)[0] == s@);
                    assert(doc@ =~= seq![]);
                }
                append_str(&mut doc, s.as_str());
                any = true;
            },
            None => {},
        }
        i = i + 1;
    }
    assert(attrs@.take(i as int) =~= attrs@);
    doc
}

/// The first of `lines` that contains `d`.
pub open spec fn first_line_with(lines: Seq<Seq<char>>, d: Seq<char>) -> Option<Seq<char>>
    decreases lines.len(),
{
    if lines.len() == 0 {
        None
    } else if contains_seq(lines[0], d) {
        Some(lines[0])
    } else {
        first_line_with(lines.drop_first(), d)
    }
}

/// The first line of `doc` that mentions `directive`.
pub open spec fn directive_line(doc: Seq<char>, directive: Seq<char>) -> Option<Seq<char>> {
    first_line_with(lines_of(doc), directive)
}

proof fn lemma_first_line_cons(line: Seq<char>, rest: Seq<Seq<char>>, d: Seq<char>)
    ensures
        first_line_with(seq![line] + rest, d) == if contains_seq(line, d) {
            Some(line)
        } else {
            first_line_with(rest, d)
        },
{
    assert((seq![line] + rest).drop_first() =~= rest);
    assert((seq![line] + rest)[0] == line);
}

proof fn lemma_first_line_has(lines: Seq<Seq<char>>, d: Seq<char>)
    ensures
        first_line_with(lines, d) matches Some(l) ==> contains_seq(l, d),
    decreases lines.len(),
{
    if lines.len() > 0 && !contains_seq(lines[0], d) {
        lemma_first_line_has(lines.drop_first(), d);
    }
}

/// The first line of `doc` that mentions `directive`, if any.
pub fn find_directive(doc: &str, directive: &str) -> (r: Option<String>)
    ensures
        match r {
            Some(l) => directive_line(doc@, directive@) == Some(l@),
            None => directive_line(doc@, directive@) is None,
        },
{
    let s = chars_of(doc);
    let d = chars_of(directive);
    let n = s.len();
    let mut pos: usize = 0;
    assert(s@.skip(0) =~= s@);
    while pos < n
        invariant
            n == s@.len(),
            s@ == doc@,
            d@ == directive@,
            pos <= n,
            first_line_with(lines_of(s@.skip(pos as int)), d@) == directive_line(doc@, directive@),
        decreases n - pos,
    {
        let (end, next) = next_line(&s, pos);
        let ghost line = s@.subrange(pos as int, end as int);
        proof {
            lemma_first_line_cons(line, lines_of(s@.skip(next as int)), d@);
            lemma_first_occurrence_some(line, d@);
        }
        match find_str(&s, pos, end, &d) {
            Some(i) => {
                proof {
                    let k = first_occurrence(line, d@)->0;
                }
                return Some(string_from(&s, pos, end));
            },
            None => {},
        }
        pos = next;
    }
    assert(s@.skip(pos as int) =~= seq![]);
    None
}

/// The value of `key="value"` in `line`: what follows the first `key="` up
/// to the next `"`.
pub open spec fn kv_value(line: Seq<char>, key: Seq<char>) -> Option<Seq<char>> {
    let needle = key + "=\""@;
    match first_occurrence(line, needle) {
        None => None,
        Some(start) => {
            let rest = line.skip(start + needle.len());
            match first_occurrence(rest, seq!['"']) {
                None => None,
                Some(end) => Some(rest.take(end)),
            }
        },
    }
}

proof fn lemma_first_occurrence_bounds(s: Seq<char>, pat: Seq<char>)
    ensures
        first_occurrence(s, pat) matches Some(i) ==> occurs_at(s, pat, i),
{
    reveal(first_occurrence);
    if contains_seq(s, pat) {
        let w = choose|i: int| #[trigger] occurs_at(s, pat, i);
        lemma_minimal_occurrence_exists(s, pat, w);
    }
}

proof fn lemma_minimal_occurrence_exists(s: Seq<char>, pat: Seq<char>, w: int)
    requires
        occurs_at(s, pat, w),
    ensures
        exists|i: int|
            occurs_at(s, pat, i) && forall|j: int| 0 <= j < i ==> !#[trigger] occurs_at(s, pat, j),
    decreases w,
{
    if exists|j: int| 0 <= j < w && #[trigger] occurs_at(s, pat, j) {
        let j = choose|j: int| 0 <= j < w && #[trigger] occurs_at(s, pat, j);
        lemma_minimal_occurrence_exists(s, pat, j);
    } else {
        assert(occurs_at(s, pat, w) && forall|j: int| 0 <= j < w ==> !#[trigger] occurs_at(s, pat, j));
    }
}

/// The value of `key="value"` in `line`, if present.
#[verifier::rlimit(40)]
pub fn parse_kv(line: &str, key: &str) -> (r: Option<String>)
    ensures
        match r {
            Some(v) => kv_value(line@, key@) == Some(v@),
            None => kv_value(line@, key@) is None,
        },
{
    let s = chars_of(line);
    let n = s.len();
    let needle_text = concat(key, "=\"");
    let needle = chars_of(needle_text.as_str());
    let found = find_str(&s, 0, n, &needle);
    assert(s@.subrange(0, n as int) =~= line@);
    match found {
        None => None,
        Some(start) => {
            proof {
                lemma_first_occurrence_bounds(line@, needle@);
            }
            let from = start + needle.len();
            let mut quote: Vec<char> = Vec::new();
            quote.push('"');
            assert(quote@ =~= seq!['"']);
            let ghost rest = line@.skip(from as int);
            assert(s@.subrange(from as int, n as int) =~= rest);
            match find_str(&s, from, n, &quote) {
                None => None,
                Some(end) => {
                    proof {
                        lemma_first_occurrence_bounds(rest, quote@);
                    }
                    assert(s@.subrange(from as int, from + end) =~= rest.take(end as int));
                    Some(string_from(&s, from, from + end))
                },
            }
        },
    }
}

/// The text after `directive` in `line`, trimmed and cut at the next `@`.
pub open spec fn after_directive(line: Seq<char>, directive: Seq<char>) -> Seq<char> {
    let start = first_occurrence(line, directive)->0 + directive.len();
    let rest = trimmed(line.skip(start));
    let end = match first_occurrence(rest, seq!['@']) {
        Some(e) => e,
        None => rest.len() as int,
    };
    trimmed(rest.take(end))
}

/// The argument of `directive` in a line that mentions it.
#[verifier::rlimit(40)]
pub fn extract_after_directive(line: &str, directive: &str) -> (r: String)
    requires
        contains_seq(line@, directive@),
    ensures
        r@ == after_directive(line@, directive@),
{
    let s = chars_of(line);
    let d = chars_of(directive);
    let n = s.len();
    assert(s@.subrange(0, n as int) =~= line@);
    proof {
        lemma_first_occurrence_bounds(line@, directive@);
        lemma_first_occurrence_some(line@, directive@);
    }
    let start = match find_str(&s, 0, n, &d) {
        Some(i) => i + d.len(),
        None => {
            assert(false);
            0
        },
    };
    assert(s@.subrange(start as int, n as int) =~= line@.skip(start as int));
    let (a, b) = trim_bounds(&s, start, n);
    let ghost rest = s@.subrange(a as int, b as int);
    let mut at: Vec<char> = Vec::new();
    at.push('@');
    assert(at@ =~= seq!['@']);
    let end = match find_str(&s, a, b, &at) {
        Some(e) => {
            proof {
                lemma_first_occurrence_bounds(rest, at@);
            }
            a + e
        },
        None => b,
    };
    assert(s@.subrange(a as int, end as int) =~= rest.take(end - a));
    let (c, e) = trim_bounds(&s, a, end);
    string_from(&s, c, e)
}

// ── Types ────────────────────────────────────────────────────────────────────

/// Types whose name can be written out: paths, references and tuples.
pub open spec fn type_ok(ty: TypeSyntax) -> bool
    decreases ty,
{
    match ty {
        TypeSyntax::Reference(inner) => type_ok(*inner),
        TypeSyntax::Path { ident, arg } => match arg {
            Some(a) => type_ok(*a),
            None => true,
        },
        TypeSyntax::Tuple(elems) => elems_ok(elems@),
        TypeSyntax::Other => false,
    }
}

pub open spec fn elems_ok(elems: Seq<TypeSyntax>) -> bool
    decreases elems,
{
    if elems.len() == 0 {
        true
    } else {
        elems_ok(elems.drop_last()) && type_ok(elems.last())
    }
}

/// The name of a type as the mapping knows it: `ident`, `ident<arg>` with
/// the first type argument, `(a, b)`; references are seen through.
pub open spec fn type_text(ty: TypeSyntax) -> Seq<char>
    decreases ty,
{
    match ty {
        TypeSyntax::Reference(inner) => type_text(*inner),
        TypeSyntax::Path { ident, arg } => match arg {
            Some(a) => ident@ + seq!['<'] + type_text(*a) + seq!['>'],
            None => ident@,
        },
        TypeSyntax::Tuple(elems) => seq!['('] + elems_text(elems@) + seq![')'],
        TypeSyntax::Other => seq![],
    }
}

/// Element names joined with `, `.
pub open spec fn elems_text(elems: Seq<TypeSyntax>) -> Seq<char>
    decreases elems,
{
    if elems.len() == 0 {
        seq![]
    } else if elems.len() == 1 {
        type_text(elems[0])
    } else {
        elems_text(elems.drop_last()) + seq![',', ' '] + type_text(elems.last())
    }
}

/// The name of a field's type, e.g. `u32`, `Color`, `Vec<String>`.
pub fn type_name_from_syn(ty: &TypeSyntax, context: &str, field: &str) -> (r: String)
    requires
        type_ok(*ty),
    ensures
        r@ == type_text(*ty),
    decreases *ty,
{
    match ty {
        TypeSyntax::Reference(inner) => type_name_from_syn(inner, context, field),
        TypeSyntax::Path { ident, arg } => match arg {
            Some(a) => {
                let inner = type_name_from_syn(a, context, field);
                let mut r = ident.clone();
                push_char(&mut r, '<');
                append_str(&mut r, inner.as_str());
                push_char(&mut r, '>');
                r
            },
            None => ident.clone(),
        },
        TypeSyntax::Tuple(elems) => {
            let mut r = String::new();
            push_char(&mut r, '(');
            let mut i: usize = 0;
            while i < elems.len()
                invariant
                    i <= elems@.len(),
                    *ty == TypeSyntax::Tuple(*elems),
                    elems_ok(elems@),
                    r@ == seq!['('] + elems_text(elems@.take(i as int)),
                decreases elems@.len() - i,
            {
                proof {
                    lemma_elems_ok_at(elems@, i as int);
                    assert(elems@.take(i + 1).drop_last() =~= elems@.take(i as int));
                    assert(*ty == TypeSyntax::Tuple(*elems));
                    assert(decreases_to!(*ty => (*ty)->Tuple_0));
                    assert(decreases_to!(*elems => elems@));
                    assert(decreases_to!(elems@ => elems@[i as int]));
                    assert(decreases_to!(*ty => elems@[i as int]));
                }
                let name = type_name_from_syn(&elems[i], context, field);
                if i > 0 {
                    push_char(&mut r, ',');
                    push_char(&mut r, ' ');
                }
                append_str(&mut r, name.as_str());
                i = i + 1;
            }
            assert(elems@.take(i as int) =~= elems@);
            push_char(&mut r, ')');
            r
        },
        TypeSyntax::Other => {
            assert(false);
            String::new()
        },
    }
}

proof fn lemma_elems_ok_at(elems: Seq<TypeSyntax>, i: int)
    requires
        elems_ok(elems),
        0 <= i < elems.len(),
    ensures
        type_ok(elems[i]),
    decreases elems.len(),
{
    if i < elems.len() - 1 {
        lemma_elems_ok_at(elems.drop_last(), i);
    }
}

/// Paths, possibly behind references.
pub open spec fn path_like(ty: TypeSyntax) -> bool
    decreases ty,
{
    match ty {
        TypeSyntax::Reference(inner) => path_like(*inner),
        TypeSyntax::Path { .. } => true,
        _ => false,
    }
}

/// The last path segment of a type seen through references.
pub open spec fn path_name(ty: TypeSyntax) -> Seq<char>
    decreases ty,
{
    match ty {
        TypeSyntax::Reference(inner) => path_name(*inner),
        TypeSyntax::Path { ident, .. } => ident@,
        _ => seq![],
    }
}

pub fn path_type_name(ty: &TypeSyntax) -> (r: String)
    requires
        path_like(*ty),
    ensures
        r@ == path_name(*ty),
    decreases *ty,
{
    match ty {
        TypeSyntax::Reference(inner) => path_type_name(inner),
        TypeSyntax::Path { ident, .. } => ident.clone(),
        _ => {
            assert(false);
            String::new()
        },
    }
}

/// Index of the first typed (non-`self`) parameter, if any.
pub open spec fn first_typed(inputs: Seq<ParamSyntax>) -> Option<int>
    decreases inputs.len(),
{
    if inputs.len() == 0 {
        None
    } else {
        match first_typed(inputs.drop_last()) {
            Some(i) => Some(i),
            None => if inputs.last() is Typed {
                Some(inputs.len() - 1)
            } else {
                None
            },
        }
    }
}

/// The data parameter of a method is usable when it is a path type.
pub open spec fn data_param_ok(inputs: Seq<ParamSyntax>) -> bool {
    first_typed(inputs) matches Some(i) ==> (inputs[i] matches ParamSyntax::Typed(t) && path_like(t))
}

/// The type name of the data parameter, if the method has one.
pub open spec fn data_param_name(inputs: Seq<ParamSyntax>) -> Option<Seq<char>> {
    match first_typed(inputs) {
        Some(i) => match inputs[i] {
            ParamSyntax::Typed(t) => Some(path_name(t)),
            ParamSyntax::Receiver => None,
        },
        None => None,
    }
}

proof fn lemma_first_typed_props(inputs: Seq<ParamSyntax>)
    ensures
        match first_typed(inputs) {
            Some(i) => 0 <= i < inputs.len() && inputs[i] is Typed && forall|j: int|
                0 <= j < i ==> #[trigger] inputs[j] is Receiver,
            None => forall|j: int| 0 <= j < inputs.len() ==> #[trigger] inputs[j] is Receiver,
        },
    decreases inputs.len(),
{
    if inputs.len() > 0 {
        let pre = inputs.drop_last();
        lemma_first_typed_props(pre);
        assert forall|j: int| 0 <= j < pre.len() implies pre[j] == inputs[j] by {}
    }
}

/// The type name of a method's first non-`self` parameter.
pub fn extract_data_param_type(sig: &MethodSyntax) -> (r: Option<String>)
    requires
        data_param_ok(sig.inputs@),
    ensures
        match r {
            Some(t) => data_param_name(sig.inputs@) == Some(t@),
            None => data_param_name(sig.inputs@) is None,
        },
{
    proof {
        lemma_first_typed_props(sig.inputs@);
    }
    let mut i: usize = 0;
    while i < sig.inputs.len()
        invariant
            i <= sig.inputs@.len(),
            forall|j: int| 0 <= j < i ==> sig.inputs@[j] is Receiver,
            data_param_ok(sig.inputs@),
            match first_typed(sig.inputs@) {
                Some(k) => 0 <= k < sig.inputs@.len() && sig.inputs@[k] is Typed && forall|j: int|
                    0 <= j < k ==> #[trigger] sig.inputs@[j] is Receiver,
                None => forall|j: int|
                    0 <= j < sig.inputs@.len() ==> #[trigger] sig.inputs@[j] is Receiver,
            },
        decreases sig.inputs@.len() - i,
    {
        match &sig.inputs[i] {
            ParamSyntax::Typed(t) => {
                assert(first_typed(sig.inputs@) == Some(i as int)) by {
                    let k = first_typed(sig.inputs@);
                    if k is None {
                    } else {
                        let kk = k->0;
                        if kk < i {
                        } else if kk > i {
                        }
                    }
                }
                return Some(path_type_name(t));
            },
            ParamSyntax::Receiver => {},
        }
        i = i + 1;
    }
    None
}

/// A return type is usable when absent, `()`, or a path whose last
/// segment has a single-scalar mapping.
pub open spec fn return_ok(output: Option<TypeSyntax>) -> bool {
    match output {
        None => true,
        Some(TypeSyntax::Tuple(elems)) => elems@.len() == 0,
        Some(TypeSyntax::Path { ident, .. }) => fits_return(ident@),
        Some(_) => false,
    }
}

/// The expansion of a return type; `None` for no value.
pub open spec fn return_view(output: Option<TypeSyntax>) -> Option<ExpansionView> {
    match output {
        Some(TypeSyntax::Path { ident, .. }) => Some(expand_spec("ret"@, ident@, true, None)),
        _ => None,
    }
}

/// The expansion of a method's return type, `None` when it returns nothing.
pub fn infer_return_expansion(output: &Option<TypeSyntax>, method_name: &str) -> (r: Option<
    crate::codegen::type_map::Expansion,
>)
    requires
        return_ok(*output),
    ensures
        match r {
            Some(e) => return_view(*output) == Some(e@),
            None => return_view(*output) is None,
        },
{
    match output {
        None => None,
        Some(TypeSyntax::Tuple(_)) => None,
        Some(TypeSyntax::Path { ident, .. }) => Some(expand_return(ident.as_str(), method_name)),
        Some(_) => {
            assert(false);
            None
        },
    }
}

// ── Struct fields ─────────────────────────────────────────────────────────────

/// Index of the first struct named `name`.
pub open spec fn find_struct(structs: Seq<StructSyntax>, name: Seq<char>) -> Option<int>
    decreases structs.len(),
{
    if structs.len() == 0 {
        None
    } else {
        match find_struct(structs.drop_last(), name) {
            Some(i) => Some(i),
            None => if structs.last().name@ == name {
                Some(structs.len() - 1)
            } else {
                None
            },
        }
    }
}

proof fn lemma_find_struct_props(structs: Seq<StructSyntax>, name: Seq<char>)
    ensures
        match find_struct(structs, name) {
            Some(i) => 0 <= i < structs.len() && structs[i].name@ == name && forall|j: int|
                0 <= j < i ==> (#[trigger] structs[j]).name@ != name,
            None => forall|j: int| 0 <= j < structs.len() ==> (#[trigger] structs[j]).name@ != name,
        },
    decreases structs.len(),
{
    if structs.len() > 0 {
        let pre = structs.drop_last();
        lemma_find_struct_props(pre, name);
        assert forall|j: int| 0 <= j < pre.len() implies pre[j] == structs[j] by {}
    }
}

/// `s` split at each `,` (`str::split(',')`): always at least one piece.
pub open spec fn split_commas(s: Seq<char>) -> Seq<Seq<char>>
    decreases s.len(),
{
    let i = find_first(s, ',');
    if i < 0 || i >= s.len() {
        seq![s]
    } else {
        seq![s.take(i)] + split_commas(s.skip(i + 1))
    }
}

/// Some piece of `pieces`, trimmed, equals `name`.
pub open spec fn any_piece_is(pieces: Seq<Seq<char>>, name: Seq<char>) -> bool {
    exists|i: int| 0 <= i < pieces.len() && #[trigger] trimmed(pieces[i]) == name
}

/// `name` is listed in the comma-separated `required` value `raw`.
pub open spec fn in_required(raw: Seq<char>, name: Seq<char>) -> bool {
    name.len() > 0 && any_piece_is(split_commas(raw), name)
}

/// The `required="..."` value of a struct's `@wasm` directive, or empty.
pub open spec fn required_raw(doc: Seq<char>) -> Seq<char> {
    match directive_line(doc, "@wasm"@) {
        Some(l) => match kv_value(l, "required"@) {
            Some(r) => r,
            None => seq![],
        },
        None => seq![],
    }
}

/// The argument of `directive` in `doc`, if `doc` mentions it.
pub open spec fn directive_arg(doc: Seq<char>, directive: Seq<char>) -> Option<Seq<char>> {
    match directive_line(doc, directive) {
        Some(l) => Some(after_directive(l, directive)),
        None => None,
    }
}

/// A field can be expanded: it has a name and a type with a mapping.
pub open spec fn field_ok(f: FieldSyntax) -> bool {
    &&& f.name is Some
    &&& type_ok(f.ty)
    &&& base_expansion(f.name->0@, type_text(f.ty)) is Some
}

/// The field definition of `f` in a struct whose required list is `raw`.
pub open spec fn field_spec(f: FieldSyntax, raw: Seq<char>) -> (
    Seq<char>,
    ExpansionView,
    Option<Seq<char>>,
) {
    let name = f.name->0@;
    let doc = doc_text(f.attrs@);
    (
        name,
        expand_spec(name, type_text(f.ty), in_required(raw, name), directive_arg(doc, "@default"@)),
        directive_arg(doc, "@setter"@),
    )
}

/// The first struct named `name` exists, has named fields, and each can be
/// expanded.
pub open spec fn struct_ok(structs: Seq<StructSyntax>, name: Seq<char>) -> bool {
    &&& find_struct(structs, name) is Some
    &&& structs[find_struct(structs, name)->0].fields matches FieldsSyntax::Named(fs) && forall|j: int|
        0 <= j < fs@.len() ==> field_ok(#[trigger] fs@[j])
}

/// The field definitions of the first struct named `name`.
pub open spec fn struct_fields_spec(structs: Seq<StructSyntax>, name: Seq<char>) -> Seq<
    (Seq<char>, ExpansionView, Option<Seq<char>>),
> {
    let s = structs[find_struct(structs, name)->0];
    match s.fields {
        FieldsSyntax::Named(fs) => fs@.map_values(
            |f: FieldSyntax| field_spec(f, required_raw(doc_text(s.attrs@))),
        ),
        _ => seq![],
    }
}

proof fn lemma_split_step(s: Seq<char>)
    ensures
        ({
            let i = find_first(s, ',');
            if 0 <= i < s.len() {
                split_commas(s) == seq![s.take(i)] + split_commas(s.skip(i + 1))
            } else {
                split_commas(s) == seq![s]
            }
        }),
{
}

proof fn lemma_any_piece_cons(p: Seq<char>, rest: Seq<Seq<char>>, name: Seq<char>)
    ensures
        any_piece_is(seq![p] + rest, name) == (trimmed(p) == name || any_piece_is(rest, name)),
{
    let all = seq![p] + rest;
    if any_piece_is(all, name) {
        let i = choose|i: int| 0 <= i < all.len() && #[trigger] trimmed(all[i]) == name;
        if i > 0 {
            assert(all[i] == rest[i - 1]);
        }
    }
    if any_piece_is(rest, name) {
        let i = choose|i: int| 0 <= i < rest.len() && #[trigger] trimmed(rest[i]) == name;
        assert(all[i + 1] == rest[i]);
    }
    assert(all[0] == p);
}

/// `s[a..b] == t`.
fn range_eq(s: &Vec<char>, a: usize, b: usize, t: &Vec<char>) -> (r: bool)
    requires
        a <= b <= s@.len(),
    ensures
        r == (s@.subrange(a as int, b as int) == t@),
{
    if b - a != t.len() {
        return false;
    }
    crate::text::matches_at_vec(s, a, t)
}

/// Whether `name` is listed in the comma-separated `raw`.
fn is_required(raw: &str, name: &str) -> (r: bool)
    ensures
        r == in_required(raw@, name@),
{
    let s = chars_of(raw);
    let t = chars_of(name);
    if t.len() == 0 {
        return false;
    }
    let n = s.len();
    let mut pos: usize = 0;
    assert(s@.skip(0) =~= s@);
    loop
        invariant
            n == s@.len(),
            s@ == raw@,
            t@ == name@,
            t@.len() > 0,
            pos <= n,
            any_piece_is(split_commas(s@.skip(pos as int)), t@) == in_required(raw@, name@),
        decreases n - pos,
    {
        let ghost rest = s@.skip(pos as int);
        assert(rest =~= s@.subrange(pos as int, n as int));
        let comma = find_first_exec(&s, pos, n, ',');
        proof {
            lemma_find_first_props(rest, ',');
            lemma_split_step(rest);
        }
        let end = match comma {
            Some(j) => pos + j,
            None => n,
        };
        assert(s@.subrange(pos as int, end as int) =~= match comma {
            Some(j) => rest.take(j as int),
            None => rest,
        });
        let (a, b) = trim_bounds(&s, pos, end);
        let hit = range_eq(&s, a, b, &t);
        match comma {
            Some(j) => {
                assert(rest.skip(j + 1) =~= s@.skip(pos + j + 1));
                proof {
                    lemma_any_piece_cons(rest.take(j as int), split_commas(rest.skip(j + 1)), t@);
                }
                if hit {
                    return true;
                }
                pos = pos + j + 1;
            },
            None => {
                proof {
                    lemma_any_piece_cons(rest, seq![], t@);
                    assert(seq![rest] + Seq::<Seq<char>>::empty() =~= seq![rest]);
                    if any_piece_is(Seq::<Seq<char>>::empty(), t@) {
                        let i = choose|i: int|
                            0 <= i < Seq::<Seq<char>>::empty().len() && #[trigger] trimmed(
                                Seq::<Seq<char>>::empty()[i],
                            ) == t@;
                    }
                }
                return hit;
            },
        }
    }
}

/// The definition of one field of a struct whose required list is `raw`.
fn field_def(f: &FieldSyntax, struct_name: &str, raw: &str) -> (d: FieldDef)
    requires
        field_ok(*f),
    ensures
        field_def_view(d) == field_spec(*f, raw@),
{
    let field_name = match &f.name {
        Some(n) => n.clone(),
        None => {
            assert(false);
            String::new()
        },
    };
    let ty_text = type_name_from_syn(&f.ty, struct_name, field_name.as_str());
    let field_doc = collect_doc(&f.attrs);
    let default = match find_directive(field_doc.as_str(), "@default") {
        Some(line) => {
            proof {
                lemma_first_line_has(lines_of(field_doc@), "@default"@);
            }
            Some(extract_after_directive(line.as_str(), "@default"))
        },
        None => None,
    };
    let setter_name = match find_directive(field_doc.as_str(), "@setter") {
        Some(line) => {
            proof {
                lemma_first_line_has(lines_of(field_doc@), "@setter"@);
            }
            Some(extract_after_directive(line.as_str(), "@setter"))
        },
        None => None,
    };
    let required = is_required(raw, field_name.as_str());
    let expansion = match &default {
        Some(d) => expand(
            field_name.as_str(),
            ty_text.as_str(),
            struct_name,
            required,
            Some(d.as_str()),
        ),
        None => expand(field_name.as_str(), ty_text.as_str(), struct_name, required, None),
    };
    FieldDef { name: field_name, expansion, setter_name }
}

/// The field definitions of the first struct named `struct_name`.
pub fn find_struct_fields(structs: &Vec<StructSyntax>, struct_name: &str) -> (fields: Vec<
    FieldDef,
>)
    requires
        struct_ok(structs@, struct_name@),
    ensures
        fields@.map_values(|f: FieldDef| field_def_view(f)) == struct_fields_spec(
            structs@,
            struct_name@,
        ),
{
    proof {
        lemma_find_struct_props(structs@, struct_name@);
    }
    let mut k: usize = 0;
    while k < structs.len() && !crate::text::str_eq(structs[k].name.as_str(), struct_name)
        invariant
            k <= structs@.len(),
            forall|j: int| 0 <= j < k ==> (#[trigger] structs@[j]).name@ != struct_name@,
            match find_struct(structs@, struct_name@) {
                Some(i) => 0 <= i < structs@.len() && structs@[i].name@ == struct_name@ && forall|j: int|
                    0 <= j < i ==> (#[trigger] structs@[j]).name@ != struct_name@,
                None => false,
            },
        decreases structs@.len() - k,
    {
        k = k + 1;
    }
    let ghost idx = find_struct(structs@, struct_name@)->0;
    assert(k == idx) by {
        if k < idx {
        } else if k > idx {
        }
    }
    let s = &structs[k];
    let struct_doc = collect_doc(&s.attrs);
    let raw = match find_directive(struct_doc.as_str(), "@wasm") {
        Some(line) => match parse_kv(line.as_str(), "required") {
            Some(r) => r,
            None => String::new(),
        },
        None => String::new(),
    };
    assert(raw@ == required_raw(doc_text(s.attrs@)));
    let mut fields: Vec<FieldDef> = Vec::new();
    match &s.fields {
        FieldsSyntax::Named(named) => {
            let mut i: usize = 0;
            while i < named.len()
                invariant
                    i <= named@.len(),
                    forall|j: int| 0 <= j < named@.len() ==> field_ok(#[trigger] named@[j]),
                    fields@.len() == i,
                    forall|j: int|
                        0 <= j < i ==> field_def_view(#[trigger] fields@[j]) == field_spec(
                            named@[j],
                            raw@,
                        ),
                decreases named@.len() - i,
            {
                let d = field_def(&named[i], struct_name, raw.as_str());
                fields.push(d);
                i = i + 1;
            }
            assert(fields@.map_values(|f: FieldDef| field_def_view(f)) =~= named@.map_values(
                |f: FieldSyntax| field_spec(f, required_raw(doc_text(s.attrs@))),
            ));
        },
        _ => {
            assert(false);
        },
    }
    fields
}

// ── Services ──────────────────────────────────────────────────────────────────

/// `str::to_lowercase`: the Unicode lowercase mapping of `s`.
pub uninterp spec fn lowercase(s: Seq<char>) -> Seq<char>;

/// ASCII letters lowered, everything else kept.
pub open spec fn ascii_lowercase(s: Seq<char>) -> Seq<char> {
    s.map_values(|c: char| if 'A' <= c <= 'Z' {
        ((c as u32) + 32) as char
    } else {
        c
    })
}

/// `str::to_lowercase`. For text that is all ASCII it lowers the ASCII
/// letters and keeps the rest; beyond ASCII the Unicode mapping is named,
/// not spelled out.
#[verifier::external_body]
fn to_lowercase(s: &str) -> (r: String)
    ensures
        r@ == lowercase(s@),
        (forall|i: int| 0 <= i < s@.len() ==> s@[i] <= '\u{7f}') ==> r@ == ascii_lowercase(s@),
{
    s.to_lowercase()
}

/// A trait item is a binding when it is a method whose doc mentions `@wasm`.
pub open spec fn wasm_line(item: TraitItemSyntax) -> Option<Seq<char>> {
    match item {
        TraitItemSyntax::Method(m) => directive_line(doc_text(m.attrs@), "@wasm"@),
        TraitItemSyntax::Other => None,
    }
}

/// A binding can be built: it names its builder, its return type fits and
/// its data parameter, if any, is a struct whose fields can be expanded.
pub open spec fn binding_ok(item: TraitItemSyntax, structs: Seq<StructSyntax>) -> bool {
    match item {
        TraitItemSyntax::Method(m) => match wasm_line(item) {
            Some(l) => {
                &&& kv_value(l, "builder_name"@) is Some
                &&& return_ok(m.output)
                &&& data_param_ok(m.inputs@)
                &&& data_param_name(m.inputs@) matches Some(dt) ==> struct_ok(structs, dt)
            },
            None => true,
        },
        TraitItemSyntax::Other => true,
    }
}

/// The text of one binding: method, builder, data type, fields, return.
pub struct BindingView {
    pub executor_method: Seq<char>,
    pub builder_name: Seq<char>,
    pub data_type: Option<Seq<char>>,
    pub fields: Seq<(Seq<char>, ExpansionView, Option<Seq<char>>)>,
    pub return_expansion: Option<ExpansionView>,
}

pub open spec fn binding_view(b: BindingDef) -> BindingView {
    BindingView {
        executor_method: b.executor_method@,
        builder_name: b.builder_name@,
        data_type: match b.data_type {
            Some(d) => Some(d@),
            None => None,
        },
        fields: b.fields@.map_values(|f: FieldDef| field_def_view(f)),
        return_expansion: match b.return_expansion {
            Some(e) => Some(e@),
            None => None,
        },
    }
}

/// The binding a `@wasm` method with directive line `l` gives.
pub open spec fn binding_spec(m: MethodSyntax, l: Seq<char>, structs: Seq<StructSyntax>) -> BindingView {
    BindingView {
        executor_method: m.name@,
        builder_name: kv_value(l, "builder_name"@)->0,
        data_type: data_param_name(m.inputs@),
        fields: match data_param_name(m.inputs@) {
            Some(dt) => struct_fields_spec(structs, dt),
            None => seq![],
        },
        return_expansion: return_view(m.output),
    }
}

/// The bindings of a trait's items, in order.
pub open spec fn bindings_spec(items: Seq<TraitItemSyntax>, structs: Seq<StructSyntax>) -> Seq<
    BindingView,
>
    decreases items.len(),
{
    if items.len() == 0 {
        seq![]
    } else {
        let rest = bindings_spec(items.drop_last(), structs);
        match items.last() {
            TraitItemSyntax::Method(m) => match wasm_line(items.last()) {
                Some(l) => rest.push(binding_spec(m, l, structs)),
                None => rest,
            },
            TraitItemSyntax::Other => rest,
        }
    }
}

/// A trait whose doc mentions `@wasm`.
pub open spec fn marked(item: ItemSyntax) -> bool {
    item matches ItemSyntax::Trait(t) && directive_line(doc_text(t.attrs@), "@wasm"@) is Some
}

/// Index of the first trait whose doc mentions `@wasm`.
pub open spec fn first_service(items: Seq<ItemSyntax>) -> Option<int>
    decreases items.len(),
{
    if items.len() == 0 {
        None
    } else {
        match first_service(items.drop_last()) {
            Some(i) => Some(i),
            None => match items.last() {
                ItemSyntax::Trait(t) => if directive_line(doc_text(t.attrs@), "@wasm"@) is Some {
                    Some(items.len() - 1)
                } else {
                    None
                },
                _ => None,
            },
        }
    }
}

/// The service trait, if any, can be turned into bindings.
pub open spec fn service_ok(items: Seq<ItemSyntax>, structs: Seq<StructSyntax>) -> bool {
    first_service(items) matches Some(i) ==> (items[i] matches ItemSyntax::Trait(t) && forall|j: int|
        0 <= j < t.items@.len() ==> binding_ok(#[trigger] t.items@[j], structs))
}

/// The service: lowercased trait name and its bindings.
pub open spec fn service_spec(items: Seq<ItemSyntax>, structs: Seq<StructSyntax>) -> Option<
    (Seq<char>, Seq<BindingView>),
> {
    match first_service(items) {
        Some(i) => match items[i] {
            ItemSyntax::Trait(t) => Some((lowercase(t.name@), bindings_spec(t.items@, structs))),
            _ => None,
        },
        None => None,
    }
}

proof fn lemma_first_service_props(items: Seq<ItemSyntax>)
    ensures
        match first_service(items) {
            Some(i) => 0 <= i < items.len() && marked(items[i]) && forall|j: int|
                0 <= j < i ==> !marked(#[trigger] items[j]),
            None => forall|j: int| 0 <= j < items.len() ==> !marked(#[trigger] items[j]),
        },
    decreases items.len(),
{
    if items.len() > 0 {
        let pre = items.drop_last();
        lemma_first_service_props(pre);
        assert forall|j: int| 0 <= j < pre.len() implies pre[j] == items[j] by {}
    }
}

/// The binding of one `@wasm` method.
fn binding_def(m: &MethodSyntax, line: &str, structs: &Vec<StructSyntax>) -> (b: BindingDef)
    requires
        kv_value(line@, "builder_name"@) is Some,
        return_ok(m.output),
        data_param_ok(m.inputs@),
        data_param_name(m.inputs@) matches Some(dt) ==> struct_ok(structs@, dt),
    ensures
        binding_view(b) == binding_spec(*m, line@, structs@),
{
    let executor_method = m.name.clone();
    let builder_name = match parse_kv(line, "builder_name") {
        Some(b) => b,
        None => {
            assert(false);
            String::new()
        },
    };
    let return_expansion = infer_return_expansion(&m.output, executor_method.as_str());
    let data_type = extract_data_param_type(m);
    let fields = match &data_type {
        Some(dt) => find_struct_fields(structs, dt.as_str()),
        None => {
            let v: Vec<FieldDef> = Vec::new();
            assert(v@.map_values(|f: FieldDef| field_def_view(f)) =~= seq![]);
            v
        },
    };
    BindingDef { executor_method, builder_name, data_type, fields, return_expansion }
}

/// The service described by a file's items: the first trait whose doc
/// mentions `@wasm`, with a binding for each of its `@wasm` methods;
/// `None` when no trait is marked. `structs` are the structs of the
/// trait's directory, first occurrence first.
pub fn try_parse_service_from_file(items: &Vec<ItemSyntax>, structs: &Vec<StructSyntax>) -> (r:
    Option<ServiceDef>)
    requires
        service_ok(items@, structs@),
    ensures
        match (r, service_spec(items@, structs@)) {
            (Some(svc), Some((name, bindings))) => svc.name@ == name && svc.bindings@.map_values(
                |b: BindingDef| binding_view(b),
            ) == bindings,
            (None, None) => true,
            _ => false,
        },
{
    proof {
        lemma_first_service_props(items@);
    }
    let mut i: usize = 0;
    while i < items.len()
        invariant
            i <= items@.len(),
            service_ok(items@, structs@),
            forall|j: int| 0 <= j < i ==> !marked(#[trigger] items@[j]),
            match first_service(items@) {
                Some(k) => 0 <= k < items@.len() && marked(items@[k]) && forall|j: int|
                    0 <= j < k ==> !marked(#[trigger] items@[j]),
                None => forall|j: int| 0 <= j < items@.len() ==> !marked(#[trigger] items@[j]),
            },
        decreases items@.len() - i,
    {
        match &items[i] {
            ItemSyntax::Trait(t) => {
                let doc = collect_doc(&t.attrs);
                match find_directive(doc.as_str(), "@wasm") {
                    Some(_) => {
                        assert(marked(items@[i as int]));
                        assert(first_service(items@) == Some(i as int)) by {
                            let k = first_service(items@)->0;
                            if k < i {
                            }
                        }
                        return Some(service_of_trait(t, structs));
                    },
                    None => {},
                }
            },
            _ => {},
        }
        i = i + 1;
    }
    None
}

/// The service of a marked trait.
fn service_of_trait(t: &TraitSyntax, structs: &Vec<StructSyntax>) -> (svc: ServiceDef)
    requires
        forall|j: int| 0 <= j < t.items@.len() ==> binding_ok(#[trigger] t.items@[j], structs@),
    ensures
        svc.name@ == lowercase(t.name@),
        svc.bindings@.map_values(|b: BindingDef| binding_view(b)) == bindings_spec(
            t.items@,
            structs@,
        ),
{
    let name = to_lowercase(t.name.as_str());
    let mut bindings: Vec<BindingDef> = Vec::new();
    let mut i: usize = 0;
    while i < t.items.len()
        invariant
            i <= t.items@.len(),
            forall|j: int| 0 <= j < t.items@.len() ==> binding_ok(#[trigger] t.items@[j], structs@),
            bindings@.map_values(|b: BindingDef| binding_view(b)) == bindings_spec(
                t.items@.take(i as int),
                structs@,
            ),
        decreases t.items@.len() - i,
    {
        assert(t.items@.take(i + 1).drop_last() =~= t.items@.take(i as int));
        assert(t.items@.take(i + 1).last() == t.items@[i as int]);
        let ghost before = bindings@;
        match &t.items[i] {
            TraitItemSyntax::Method(m) => {
                let doc = collect_doc(&m.attrs);
                match find_directive(doc.as_str(), "@wasm") {
                    Some(line) => {
                        assert(binding_ok(t.items@[i as int], structs@));
                        let b = binding_def(m, line.as_str(), structs);
                        bindings.push(b);
                        assert(bindings@.map_values(|b: BindingDef| binding_view(b)) =~= before.map_values(
                            |b: BindingDef| binding_view(b),
                        ).push(binding_view(b)));
                    },
                    None => {},
                }
            },
            TraitItemSyntax::Other => {},
        }
        i = i + 1;
    }
    assert(t.items@.take(i as int) =~= t.items@);
    ServiceDef { name, bindings }
}

// ── Events ────────────────────────────────────────────────────────────────────

/// The event enum.
pub open spec fn is_event_enum(item: ItemSyntax) -> bool {
    item matches ItemSyntax::Enum(e) && e.name@ == "WidgetEvent"@
}

/// Index of the first `WidgetEvent` enum.
pub open spec fn events_enum(items: Seq<ItemSyntax>) -> Option<int>
    decreases items.len(),
{
    if items.len() == 0 {
        None
    } else {
        match events_enum(items.drop_last()) {
            Some(i) => Some(i),
            None => if is_event_enum(items.last()) {
                Some(items.len() - 1)
            } else {
                None
            },
        }
    }
}

proof fn lemma_events_enum_props(items: Seq<ItemSyntax>)
    ensures
        match events_enum(items) {
            Some(i) => 0 <= i < items.len() && is_event_enum(items[i]) && forall|j: int|
                0 <= j < i ==> !is_event_enum(#[trigger] items[j]),
            None => forall|j: int| 0 <= j < items.len() ==> !is_event_enum(#[trigger] items[j]),
        },
    decreases items.len(),
{
    if items.len() > 0 {
        let pre = items.drop_last();
        lemma_events_enum_props(pre);
        assert forall|j: int| 0 <= j < pre.len() implies pre[j] == items[j] by {}
    }
}

/// A variant can be expanded: named fields, each with a mapping.
pub open spec fn variant_ok(v: VariantSyntax) -> bool {
    v.fields matches FieldsSyntax::Named(fs) && forall|j: int|
        0 <= j < fs@.len() ==> field_ok(#[trigger] fs@[j])
}

/// The event enum exists and each of its variants can be expanded.
pub open spec fn events_ok(items: Seq<ItemSyntax>) -> bool {
    &&& events_enum(items) is Some
    &&& items[events_enum(items)->0] matches ItemSyntax::Enum(e) && forall|j: int|
        0 <= j < e.variants@.len() ==> variant_ok(#[trigger] e.variants@[j])
}

/// An event field: always required, with the type's own default.
pub open spec fn event_field_spec(f: FieldSyntax) -> (Seq<char>, ExpansionView) {
    (f.name->0@, expand_spec(f.name->0@, type_text(f.ty), true, None))
}

pub open spec fn variant_fields_spec(v: VariantSyntax) -> Seq<(Seq<char>, ExpansionView)> {
    match v.fields {
        FieldsSyntax::Named(fs) => fs@.map_values(|f: FieldSyntax| event_field_spec(f)),
        _ => seq![],
    }
}

/// The variants of the event enum: name, position and fields.
pub open spec fn events_spec(items: Seq<ItemSyntax>) -> Seq<
    (Seq<char>, int, Seq<(Seq<char>, ExpansionView)>),
> {
    match items[events_enum(items)->0] {
        ItemSyntax::Enum(e) => e.variants@.map(
            |i: int, v: VariantSyntax| (v.name@, i, variant_fields_spec(v)),
        ),
        _ => seq![],
    }
}

pub open spec fn event_variant_view(v: EventVariantDef) -> (
    Seq<char>,
    int,
    Seq<(Seq<char>, ExpansionView)>,
) {
    (v.name@, v.index as int, v.fields@.map_values(|f: EventFieldDef| (f.name@, f.expansion@)))
}

fn event_variant(v: &VariantSyntax, index: usize) -> (d: EventVariantDef)
    requires
        variant_ok(*v),
    ensures
        event_variant_view(d) == (v.name@, index as int, variant_fields_spec(*v)),
{
    let variant_name = v.name.clone();
    let mut context = "WidgetEvent::".to_owned();
    append_str(&mut context, variant_name.as_str());
    let mut fields: Vec<EventFieldDef> = Vec::new();
    match &v.fields {
        FieldsSyntax::Named(named) => {
            let mut i: usize = 0;
            while i < named.len()
                invariant
                    i <= named@.len(),
                    forall|j: int| 0 <= j < named@.len() ==> field_ok(#[trigger] named@[j]),
                    fields@.len() == i,
                    forall|j: int|
                        0 <= j < i ==> ((#[trigger] fields@[j]).name@, fields@[j].expansion@)
                            == event_field_spec(named@[j]),
                decreases named@.len() - i,
            {
                let f = &named[i];
                let field_name = match &f.name {
                    Some(n) => n.clone(),
                    None => {
                        assert(false);
                        String::new()
                    },
                };
                let ty_text = type_name_from_syn(&f.ty, context.as_str(), field_name.as_str());
                let expansion = expand(
                    field_name.as_str(),
                    ty_text.as_str(),
                    context.as_str(),
                    true,
                    None,
                );
                fields.push(EventFieldDef { name: field_name, expansion });
                i = i + 1;
            }
            assert(fields@.map_values(|f: EventFieldDef| (f.name@, f.expansion@)) =~= named@.map_values(
                |f: FieldSyntax| event_field_spec(f),
            ));
        },
        _ => {
            assert(false);
        },
    }
    EventVariantDef { name: variant_name, index, fields }
}

fn is_event_item(item: &ItemSyntax) -> (r: bool)
    ensures
        r == is_event_enum(*item),
{
    match item {
        ItemSyntax::Enum(e) => crate::text::str_eq(e.name.as_str(), "WidgetEvent"),
        _ => false,
    }
}

/// All variants of the `WidgetEvent` enum among a file's items.
pub fn scan_events(items: &Vec<ItemSyntax>) -> (events: EventsDef)
    requires
        events_ok(items@),
    ensures
        events.variants@.map_values(|v: EventVariantDef| event_variant_view(v)) == events_spec(
            items@,
        ),
{
    proof {
        lemma_events_enum_props(items@);
    }
    let mut k: usize = 0;
    while k < items.len() && !is_event_item(&items[k])
        invariant
            k <= items@.len(),
            forall|j: int| 0 <= j < k ==> !is_event_enum(#[trigger] items@[j]),
            match events_enum(items@) {
                Some(i) => 0 <= i < items@.len() && is_event_enum(items@[i]) && forall|j: int|
                    0 <= j < i ==> !is_event_enum(#[trigger] items@[j]),
                None => false,
            },
        decreases items@.len() - k,
    {
        k = k + 1;
    }
    let ghost idx = events_enum(items@)->0;
    assert(k == idx) by {
        if k < idx {
        } else if k > idx {
        }
    }
    let mut variants: Vec<EventVariantDef> = Vec::new();
    match &items[k] {
        ItemSyntax::Enum(e) => {
            let mut i: usize = 0;
            while i < e.variants.len()
                invariant
                    i <= e.variants@.len(),
                    forall|j: int| 0 <= j < e.variants@.len() ==> variant_ok(#[trigger] e.variants@[j]),
                    variants@.len() == i,
                    forall|j: int|
                        0 <= j < i ==> event_variant_view(#[trigger] variants@[j]) == (
                            e.variants@[j].name@,
                            j,
                            variant_fields_spec(e.variants@[j]),
                        ),
                decreases e.variants@.len() - i,
            {
                let d = event_variant(&e.variants[i], i);
                variants.push(d);
                i = i + 1;
            }
            assert(variants@.map_values(|v: EventVariantDef| event_variant_view(v)) =~= e.variants@.map(
                |i: int, v: VariantSyntax| (v.name@, i, variant_fields_spec(v)),
            ));
        },
        _ => {
            assert(false);
        },
    }
    EventsDef { variants }
}

// ── Checks that callers make before building ─────────────────────────────────

/// Whether a type's name can be written out.
pub fn is_type_ok(ty: &TypeSyntax) -> (r: bool)
    ensures
        r == type_ok(*ty),
    decreases *ty,
{
    match ty {
        TypeSyntax::Reference(inner) => is_type_ok(inner),
        TypeSyntax::Path { arg, .. } => match arg {
            Some(a) => is_type_ok(a),
            None => true,
        },
        TypeSyntax::Tuple(elems) => {
            let mut i: usize = 0;
            while i < elems.len()
                invariant
                    i <= elems@.len(),
                    *ty == TypeSyntax::Tuple(*elems),
                    elems_ok(elems@.take(i as int)),
                decreases elems@.len() - i,
            {
                proof {
                    assert(elems@.take(i + 1).drop_last() =~= elems@.take(i as int));
                    assert(decreases_to!(*ty => (*ty)->Tuple_0));
                    assert(decreases_to!(*elems => elems@));
                    assert(decreases_to!(elems@ => elems@[i as int]));
                }
                if !is_type_ok(&elems[i]) {
                    proof {
                        lemma_elems_ok_prefix(elems@, i as int);
                    }
                    return false;
                }
                i = i + 1;
            }
            assert(elems@.take(i as int) =~= elems@);
            true
        },
        TypeSyntax::Other => false,
    }
}

proof fn lemma_elems_ok_prefix(elems: Seq<TypeSyntax>, i: int)
    requires
        0 <= i < elems.len(),
        !type_ok(elems[i]),
    ensures
        !elems_ok(elems),
    decreases elems.len(),
{
    if i < elems.len() - 1 {
        lemma_elems_ok_prefix(elems.drop_last(), i);
    }
}

/// Whether a type is a path, possibly behind references.
pub fn is_path_like(ty: &TypeSyntax) -> (r: bool)
    ensures
        r == path_like(*ty),
    decreases *ty,
{
    match ty {
        TypeSyntax::Reference(inner) => is_path_like(inner),
        TypeSyntax::Path { .. } => true,
        _ => false,
    }
}

/// Whether a field can be expanded.
pub fn is_field_ok(f: &FieldSyntax) -> (r: bool)
    ensures
        r == field_ok(*f),
{
    match &f.name {
        None => false,
        Some(name) => {
            if !is_type_ok(&f.ty) {
                return false;
            }
            let t = type_name_from_syn(&f.ty, "", name.as_str());
            crate::codegen::type_map::is_known_type(name.as_str(), t.as_str())
        },
    }
}

fn fields_ok(fs: &Vec<FieldSyntax>) -> (r: bool)
    ensures
        r == forall|j: int| 0 <= j < fs@.len() ==> field_ok(#[trigger] fs@[j]),
{
    let mut i: usize = 0;
    while i < fs.len()
        invariant
            i <= fs@.len(),
            forall|j: int| 0 <= j < i ==> field_ok(#[trigger] fs@[j]),
        decreases fs@.len() - i,
    {
        if !is_field_ok(&fs[i]) {
            return false;
        }
        i = i + 1;
    }
    true
}

/// Whether the first struct named `name` exists and can be expanded.
pub fn is_struct_ok(structs: &Vec<StructSyntax>, name: &str) -> (r: bool)
    ensures
        r == struct_ok(structs@, name@),
{
    proof {
        lemma_find_struct_props(structs@, name@);
    }
    let mut k: usize = 0;
    while k < structs.len() && !crate::text::str_eq(structs[k].name.as_str(), name)
        invariant
            k <= structs@.len(),
            forall|j: int| 0 <= j < k ==> (#[trigger] structs@[j]).name@ != name@,
            match find_struct(structs@, name@) {
                Some(i) => 0 <= i < structs@.len() && structs@[i].name@ == name@ && forall|j: int|
                    0 <= j < i ==> (#[trigger] structs@[j]).name@ != name@,
                None => forall|j: int|
                    0 <= j < structs@.len() ==> (#[trigger] structs@[j]).name@ != name@,
            },
        decreases structs@.len() - k,
    {
        k = k + 1;
    }
    if k == structs.len() {
        return false;
    }
    assert(find_struct(structs@, name@) == Some(k as int)) by {
        let f = find_struct(structs@, name@);
        if f is Some {
            let i = f->0;
            if i < k {
            } else if i > k {
            }
        }
    }
    match &structs[k].fields {
        FieldsSyntax::Named(fs) => fields_ok(fs),
        _ => false,
    }
}

/// Whether a trait item can be turned into a binding.
#[verifier::loop_isolation(false)]
pub fn is_binding_ok(item: &TraitItemSyntax, structs: &Vec<StructSyntax>) -> (r: bool)
    ensures
        r == binding_ok(*item, structs@),
{
    match item {
        TraitItemSyntax::Other => true,
        TraitItemSyntax::Method(m) => {
            let doc = collect_doc(&m.attrs);
            match find_directive(doc.as_str(), "@wasm") {
                None => true,
                Some(line) => {
                    if parse_kv(line.as_str(), "builder_name").is_none() {
                        return false;
                    }
                    let ret_ok = match &m.output {
                        None => true,
                        Some(TypeSyntax::Tuple(elems)) => elems.len() == 0,
                        Some(TypeSyntax::Path { ident, .. }) => crate::codegen::type_map::return_fits(
                            ident.as_str(),
                        ),
                        Some(_) => false,
                    };
                    if !ret_ok {
                        return false;
                    }
                    proof {
                        lemma_first_typed_props(m.inputs@);
                    }
                    let mut i: usize = 0;
                    while i < m.inputs.len()
                        invariant
                            i <= m.inputs@.len(),
                            forall|j: int| 0 <= j < i ==> m.inputs@[j] is Receiver,
                            match first_typed(m.inputs@) {
                                Some(k) => 0 <= k < m.inputs@.len() && m.inputs@[k] is Typed
                                    && forall|j: int|
                                    0 <= j < k ==> #[trigger] m.inputs@[j] is Receiver,
                                None => forall|j: int|
                                    0 <= j < m.inputs@.len() ==> #[trigger] m.inputs@[j] is Receiver,
                            },
                        decreases m.inputs@.len() - i,
                    {
                        match &m.inputs[i] {
                            ParamSyntax::Typed(t) => {
                                assert(first_typed(m.inputs@) == Some(i as int)) by {
                                    let k = first_typed(m.inputs@);
                                    if k is Some {
                                        let kk = k->0;
                                        if kk < i {
                                        } else if kk > i {
                                        }
                                    }
                                }
                                if !is_path_like(t) {
                                    return false;
                                }
                                let dt = path_type_name(t);
                                return is_struct_ok(structs, dt.as_str());
                            },
                            ParamSyntax::Receiver => {},
                        }
                        i = i + 1;
                    }
                    true
                },
            }
        },
    }
}

/// Whether the marked trait among `items`, if any, can be turned into a
/// service (the precondition of `try_parse_service_from_file`).
#[verifier::loop_isolation(false)]
pub fn is_service_ok(items: &Vec<ItemSyntax>, structs: &Vec<StructSyntax>) -> (r: bool)
    ensures
        r == service_ok(items@, structs@),
{
    proof {
        lemma_first_service_props(items@);
    }
    let mut i: usize = 0;
    while i < items.len()
        invariant
            i <= items@.len(),
            forall|j: int| 0 <= j < i ==> !marked(#[trigger] items@[j]),
            match first_service(items@) {
                Some(k) => 0 <= k < items@.len() && marked(items@[k]) && forall|j: int|
                    0 <= j < k ==> !marked(#[trigger] items@[j]),
                None => forall|j: int| 0 <= j < items@.len() ==> !marked(#[trigger] items@[j]),
            },
        decreases items@.len() - i,
    {
        match &items[i] {
            ItemSyntax::Trait(t) => {
                let doc = collect_doc(&t.attrs);
                if find_directive(doc.as_str(), "@wasm").is_some() {
                    assert(marked(items@[i as int]));
                    assert(first_service(items@) == Some(i as int)) by {
                        let k = first_service(items@)->0;
                        if k < i {
                        }
                    }
                    let mut j: usize = 0;
                    while j < t.items.len()
                        invariant
                            j <= t.items@.len(),
                            forall|q: int|
                                0 <= q < j ==> binding_ok(#[trigger] t.items@[q], structs@),
                        decreases t.items@.len() - j,
                    {
                        if !is_binding_ok(&t.items[j], structs) {
                            return false;
                        }
                        j = j + 1;
                    }
                    return true;
                }
            },
            _ => {},
        }
        i = i + 1;
    }
    true
}

/// Whether the event enum exists and can be expanded (the precondition of
/// `scan_events`).
#[verifier::loop_isolation(false)]
pub fn is_events_ok(items: &Vec<ItemSyntax>) -> (r: bool)
    ensures
        r == events_ok(items@),
{
    proof {
        lemma_events_enum_props(items@);
    }
    let mut k: usize = 0;
    while k < items.len() && !is_event_item(&items[k])
        invariant
            k <= items@.len(),
            forall|j: int| 0 <= j < k ==> !is_event_enum(#[trigger] items@[j]),
            match events_enum(items@) {
                Some(i) => 0 <= i < items@.len() && is_event_enum(items@[i]) && forall|j: int|
                    0 <= j < i ==> !is_event_enum(#[trigger] items@[j]),
                None => forall|j: int| 0 <= j < items@.len() ==> !is_event_enum(#[trigger] items@[j]),
            },
        decreases items@.len() - k,
    {
        k = k + 1;
    }
    if k == items.len() {
        return false;
    }
    assert(events_enum(items@) == Some(k as int)) by {
        let f = events_enum(items@);
        if f is Some {
            let i = f->0;
            if i < k {
            } else if i > k {
            }
        }
    }
    match &items[k] {
        ItemSyntax::Enum(e) => {
            let mut i: usize = 0;
            while i < e.variants.len()
                invariant
                    i <= e.variants@.len(),
                    forall|j: int| 0 <= j < i ==> variant_ok(#[trigger] e.variants@[j]),
                decreases e.variants@.len() - i,
            {
                let ok = match &e.variants[i].fields {
                    FieldsSyntax::Named(fs) => fields_ok(fs),
                    _ => false,
                };
                if !ok {
                    return false;
                }
                i = i + 1;
            }
            true
        },
        _ => false,
    }
}

} // verus!
