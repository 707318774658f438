//! Rust source text to the syntax model: the file is parsed with `syn`,
//! its items are described one for one, and the services, events and
//! structs are taken from that description.
use vstd::prelude::*;

use crate::codegen::model::{EventVariantDef, EventsDef, ServiceDef};
use crate::codegen::parser::{
    binding_view, event_variant_view, events_ok, events_spec, is_events_ok, is_service_ok,
    scan_events, service_ok, service_spec, try_parse_service_from_file, Attr, EnumSyntax,
    FieldSyntax, FieldsSyntax, ItemSyntax, MethodSyntax, ParamSyntax, StructSyntax,
    TraitItemSyntax, TraitSyntax, TypeSyntax, VariantSyntax,
};
use crate::codegen::model::BindingDef;

verus! {

#[verifier::external_type_specification]
#[verifier::external_body]
pub struct ExSynItem(syn::Item);

#[verifier::external_type_specification]
#[verifier::external_body]
pub struct ExSynItemTrait(syn::ItemTrait);

#[verifier::external_type_specification]
#[verifier::external_body]
pub struct ExSynItemStruct(syn::ItemStruct);

#[verifier::external_type_specification]
#[verifier::external_body]
pub struct ExSynItemEnum(syn::ItemEnum);

#[verifier::external_type_specification]
#[verifier::external_body]
pub struct ExSynTraitItemFn(syn::TraitItemFn);

#[verifier::external_type_specification]
#[verifier::external_body]
pub struct ExSynAttribute(syn::Attribute);

#[verifier::external_type_specification]
#[verifier::external_body]
pub struct ExSynType(syn::Type);

#[verifier::external_type_specification]
#[verifier::external_body]
pub struct ExSynTypePath(syn::TypePath);

#[verifier::external_type_specification]
#[verifier::external_body]
pub struct ExSynFields(syn::Fields);

/// The items of the Rust source file `source` as `syn::parse_file` parses
/// them, each described in the syntax model; `None` when it does not parse.
pub uninterp spec fn rust_items(source: Seq<char>) -> Option<Seq<ItemSyntax>>;

/// `syn::parse_file` on `source`, with each parsed item described one for
/// one by the conversions below. The result is named `rust_items`: it is a
/// function of the text alone, and nothing more is claimed of it.
#[verifier::external_body]
pub(crate) fn parse_rust_items(source: &str) -> (r: Option<Vec<ItemSyntax>>)
    ensures
        match r {
            Some(v) => rust_items(source@) == Some(v@),
            None => rust_items(source@) is None,
        },
{
    match syn::parse_file(source) {
        Ok(file) => Some(file.items.iter().map(item_syntax).collect()),
        Err(_) => None,
    }
}

/// Describes a `syn::Item`: traits, structs and enums by their parts,
/// anything else as `Other`.
#[verifier::external_body]
fn item_syntax(item: &syn::Item) -> ItemSyntax {
    match item {
        syn::Item::Trait(t) => ItemSyntax::Trait(trait_syntax(t)),
        syn::Item::Struct(s) => ItemSyntax::Struct(struct_syntax(s)),
        syn::Item::Enum(e) => ItemSyntax::Enum(enum_syntax(e)),
        _ => ItemSyntax::Other,
    }
}

/// Describes a `syn::ItemTrait`: attributes, name and items (methods by
/// their signature, anything else as `Other`).
#[verifier::external_body]
fn trait_syntax(t: &syn::ItemTrait) -> TraitSyntax {
    TraitSyntax {
        attrs: attrs_syntax(&t.attrs),
        name: t.ident.to_string(),
        items: t.items.iter().map(|ti| match ti {
            syn::TraitItem::Fn(m) => TraitItemSyntax::Method(method_syntax(m)),
            _ => TraitItemSyntax::Other,
        }).collect(),
    }
}

/// Describes a `syn::ItemStruct`: attributes, name and fields.
#[verifier::external_body]
fn struct_syntax(s: &syn::ItemStruct) -> StructSyntax {
    StructSyntax { attrs: attrs_syntax(&s.attrs), name: s.ident.to_string(), fields: fields_syntax(&s.fields) }
}

/// Describes a `syn::ItemEnum`: name and variants with their fields.
#[verifier::external_body]
fn enum_syntax(e: &syn::ItemEnum) -> EnumSyntax {
    EnumSyntax {
        name: e.ident.to_string(),
        variants: e.variants.iter().map(|v| VariantSyntax {
            name: v.ident.to_string(),
            fields: fields_syntax(&v.fields),
        }).collect(),
    }
}

/// Describes a `syn::TraitItemFn` by its signature: attributes, name,
/// parameters (receiver or typed) and return type.
#[verifier::external_body]
fn method_syntax(m: &syn::TraitItemFn) -> MethodSyntax {
    MethodSyntax {
        attrs: attrs_syntax(&m.attrs),
        name: m.sig.ident.to_string(),
        inputs: m.sig.inputs.iter().map(|i| match i {
            syn::FnArg::Receiver(_) => ParamSyntax::Receiver,
            syn::FnArg::Typed(pt) => ParamSyntax::Typed(type_syntax(&pt.ty)),
        }).collect(),
        output: match &m.sig.output {
            syn::ReturnType::Default => None,
            syn::ReturnType::Type(_, ty) => Some(type_syntax(ty)),
        },
    }
}

/// Describes each attribute by its path's segments and, for a name-value
/// attribute whose value is a string literal, that literal's value.
#[verifier::external_body]
fn attrs_syntax(list: &Vec<syn::Attribute>) -> Vec<Attr> {
    list.iter().map(|a| Attr {
        leading_colon: a.path().leading_colon.is_some(),
        path: a.path().segments.iter().map(|s| s.ident.to_string()).collect(),
        str_value: match &a.meta {
            syn::Meta::NameValue(nv) => match &nv.value {
                syn::Expr::Lit(syn::ExprLit { lit: syn::Lit::Str(s), .. }) => Some(s.value()),
                _ => None,
            },
            _ => None,
        },
    }).collect()
}

/// Describes a `syn::Type`: references, paths and tuples by their parts,
/// any other shape as `Other`.
#[verifier::external_body]
fn type_syntax(ty: &syn::Type) -> TypeSyntax {
    match ty {
        syn::Type::Reference(r) => TypeSyntax::Reference(Box::new(type_syntax(&r.elem))),
        syn::Type::Path(p) => path_syntax(p),
        syn::Type::Tuple(t) => TypeSyntax::Tuple(t.elems.iter().map(type_syntax).collect()),
        _ => TypeSyntax::Other,
    }
}

/// Describes a path type by its last segment and that segment's first
/// angle-bracketed type argument.
#[verifier::external_body]
fn path_syntax(p: &syn::TypePath) -> TypeSyntax {
    match p.path.segments.last() {
        Some(seg) => TypeSyntax::Path {
            ident: seg.ident.to_string(),
            arg: match &seg.arguments {
                syn::PathArguments::AngleBracketed(a) => match a.args.first() {
                    Some(syn::GenericArgument::Type(t)) => Some(Box::new(type_syntax(t))),
                    _ => None,
                },
                _ => None,
            },
        },
        None => TypeSyntax::Other,
    }
}

/// Describes `syn::Fields`: named fields with attributes, name and type;
/// tuple and unit fields by their kind.
#[verifier::external_body]
fn fields_syntax(fields: &syn::Fields) -> FieldsSyntax {
    match fields {
        syn::Fields::Named(n) => FieldsSyntax::Named(n.named.iter().map(|f| FieldSyntax {
            attrs: attrs_syntax(&f.attrs),
            name: f.ident.as_ref().map(|i| i.to_string()),
            ty: type_syntax(&f.ty),
        }).collect()),
        syn::Fields::Unnamed(_) => FieldsSyntax::Unnamed,
        syn::Fields::Unit => FieldsSyntax::Unit,
    }
}

/// Why a source file yields no service or events.
#[derive(Clone, Copy, Debug, PartialEq, Eq, Structural)]
pub enum ScanError {
    /// The text is not a Rust source file.
    Unparsable,
    /// The marked trait or the `WidgetEvent` enum cannot be expanded.
    Invalid,
}

/// The service declared in the Rust source `source`, given the structs of
/// its directory: `Err(Unparsable)` when the text does not parse,
/// `Err(Invalid)` when its marked trait cannot be expanded, otherwise the
/// first `@wasm` trait's service (`None` when no trait is marked).
pub fn service_from_source(source: &str, structs: &Vec<StructSyntax>) -> (r: Result<
    Option<ServiceDef>,
    ScanError,
>)
    ensures
        match rust_items(source@) {
            None => r == Err::<Option<ServiceDef>, ScanError>(ScanError::Unparsable),
            Some(items) => if !service_ok(items, structs@) {
                r == Err::<Option<ServiceDef>, ScanError>(ScanError::Invalid)
            } else {
                r matches Ok(o) && match (o, service_spec(items, structs@)) {
                    (Some(svc), Some((name, bindings))) => svc.name@ == name
                        && svc.bindings@.map_values(|b: BindingDef| binding_view(b)) == bindings,
                    (None, None) => true,
                    _ => false,
                }
            },
        },
{
    match parse_rust_items(source) {
        None => Err(ScanError::Unparsable),
        Some(items) => {
            if !is_service_ok(&items, structs) {
                Err(ScanError::Invalid)
            } else {
                Ok(try_parse_service_from_file(&items, structs))
            }
        },
    }
}

/// The `WidgetEvent` variants declared in the Rust source `source`:
/// `Err(Unparsable)` when the text does not parse, `Err(Invalid)` when it
/// has no `WidgetEvent` enum or a variant cannot be expanded.
pub fn events_from_source(source: &str) -> (r: Result<EventsDef, ScanError>)
    ensures
        match rust_items(source@) {
            None => r == Err::<EventsDef, ScanError>(ScanError::Unparsable),
            Some(items) => if !events_ok(items) {
                r == Err::<EventsDef, ScanError>(ScanError::Invalid)
            } else {
                r matches Ok(events) && events.variants@.map_values(
                    |v: EventVariantDef| event_variant_view(v),
                ) == events_spec(items)
            },
        },
{
    match parse_rust_items(source) {
        None => Err(ScanError::Unparsable),
        Some(items) => {
            if !is_events_ok(&items) {
                Err(ScanError::Invalid)
            } else {
                Ok(scan_events(&items))
            }
        },
    }
}

/// The structs among `items`, in order.
pub open spec fn struct_items(items: Seq<ItemSyntax>) -> Seq<StructSyntax>
    decreases items.len(),
{
    if items.len() == 0 {
        seq![]
    } else {
        let rest = struct_items(items.drop_first());
        match items[0] {
            ItemSyntax::Struct(s) => seq![s] + rest,
            _ => rest,
        }
    }
}

/// The structs declared in the Rust source `source`, in order; `None` when
/// the text does not parse.
pub fn structs_from_source(source: &str) -> (r: Option<Vec<StructSyntax>>)
    ensures
        match rust_items(source@) {
            None => r is None,
            Some(items) => r matches Some(v) && v@ == struct_items(items),
        },
{
    match parse_rust_items(source) {
        None => None,
        Some(items) => {
            let mut items = items;
            let ghost all = items@;
            let mut structs: Vec<StructSyntax> = Vec::new();
            while items.len() > 0
                invariant
                    structs@ + struct_items(items@) == struct_items(all),
                decreases items@.len(),
            {
                let ghost before = items@;
                let item = items.remove(0);
                assert(items@ =~= before.drop_first());
                match item {
                    ItemSyntax::Struct(s) => {
                        structs.push(s);
                        assert(structs@ + struct_items(items@) =~= structs@.drop_last() + (seq![s]
                            + struct_items(items@)));
                    },
                    _ => {},
                }
            }
            assert(struct_items(items@) =~= seq![]);
            assert(structs@ + seq![] =~= structs@);
            Some(structs)
        },
    }
}

} // verus!
