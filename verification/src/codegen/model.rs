//! What generation works from: the bindings of each service and the events.
use vstd::prelude::*;

use crate::codegen::type_map::{Expansion, ExpansionView};

verus! {

/// All bindings discovered for one service trait.
pub struct ServiceDef {
    pub name: String,
    pub bindings: Vec<BindingDef>,
}

/// One host function binding derived from a trait method.
pub struct BindingDef {
    /// The method, also the export name ("execute_rect").
    pub executor_method: String,
    /// Name of the widget-side factory ("rect").
    pub builder_name: String,
    /// The type of the method's data parameter ("RectData"), if it has one.
    pub data_type: Option<String>,
    pub fields: Vec<FieldDef>,
    /// Fully expanded return type, or `None` for none.
    pub return_expansion: Option<Expansion>,
}

pub struct FieldDef {
    pub name: String,
    pub expansion: Expansion,
    /// Overrides the field name for the widget-side setter.
    pub setter_name: Option<String>,
}

/// The text of a field: name, expansion and setter name.
pub open spec fn field_def_view(f: FieldDef) -> (Seq<char>, ExpansionView, Option<Seq<char>>) {
    (
        f.name@,
        f.expansion@,
        match f.setter_name {
            Some(s) => Some(s@),
            None => None,
        },
    )
}

/// All variants of the widget event enum.
pub struct EventsDef {
    pub variants: Vec<EventVariantDef>,
}

/// One event variant with its position in the enum.
pub struct EventVariantDef {
    pub name: String,
    pub index: usize,
    pub fields: Vec<EventFieldDef>,
}

/// One field of an event variant.
pub struct EventFieldDef {
    pub name: String,
    pub expansion: Expansion,
}

} // verus!
