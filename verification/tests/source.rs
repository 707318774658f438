use widgets::codegen::parser::FieldsSyntax;
use widgets::codegen::source::{
    events_from_source, service_from_source, structs_from_source, ScanError,
};

const DRAWER_SRC: &str = r#"
/// Draws.
/// @wasm
pub trait Drawer {
    /// @wasm builder_name="circle"
    fn execute_circle(&mut self, data: CircleData);
    /// not exported
    fn helper(&self);
    /// @wasm builder_name="boundsX"
    fn bounds_x(&mut self) -> u32;
}
"#;

const CIRCLE_SRC: &str = r#"
pub struct Other;

/// @wasm required="center,radius"
pub struct CircleData {
    pub center: Point,
    pub radius: u32,
    /// @default Color::WHITE
    pub color: Color,
    /// @default 0 @setter stroke
    pub stroke_width: u32,
}
"#;

#[test]
fn structs_are_read_from_source() {
    let structs = structs_from_source(CIRCLE_SRC).unwrap();
    assert_eq!(structs.len(), 2);
    assert_eq!(structs[0].name, "Other");
    assert!(matches!(structs[0].fields, FieldsSyntax::Unit));
    assert_eq!(structs[1].name, "CircleData");
    match &structs[1].fields {
        FieldsSyntax::Named(f) => {
            assert_eq!(f.len(), 4);
            assert_eq!(f[0].name.as_deref(), Some("center"));
        }
        _ => panic!("named fields expected"),
    }
    assert!(structs_from_source("fn broken( {").is_none());
    assert_eq!(structs_from_source("fn f() {}").unwrap().len(), 0);
}

#[test]
fn service_is_read_from_source() {
    let structs = structs_from_source(CIRCLE_SRC).unwrap();
    let svc = service_from_source(DRAWER_SRC, &structs).unwrap().unwrap();
    assert_eq!(svc.name, "drawer");
    assert_eq!(svc.bindings.len(), 2);
    assert_eq!(svc.bindings[0].executor_method, "execute_circle");
    assert_eq!(svc.bindings[0].builder_name, "circle");
    assert_eq!(svc.bindings[0].data_type.as_deref(), Some("CircleData"));
    assert_eq!(svc.bindings[0].fields.len(), 4);
    assert_eq!(svc.bindings[0].fields[2].expansion.ta_default.as_deref(), Some("Color.WHITE"));
    assert_eq!(svc.bindings[1].builder_name, "boundsX");
    assert_eq!(svc.bindings[1].return_expansion.as_ref().unwrap().ta_type, "u32");
}

#[test]
fn source_without_marked_trait_has_no_service() {
    assert!(service_from_source("pub trait Plain { fn f(&self); }", &vec![]).unwrap().is_none());
}

#[test]
fn source_errors() {
    assert_eq!(service_from_source("pub trait {", &vec![]).err(), Some(ScanError::Unparsable));
    let missing_builder = "/// @wasm\npub trait T {\n    /// @wasm\n    fn f(&self);\n}\n";
    assert_eq!(service_from_source(missing_builder, &vec![]).err(), Some(ScanError::Invalid));
    assert_eq!(events_from_source("enum {").err(), Some(ScanError::Unparsable));
    assert_eq!(events_from_source("enum Other { A }").err(), Some(ScanError::Invalid));
    assert_eq!(
        events_from_source("enum WidgetEvent { A(u32) }").err(),
        Some(ScanError::Invalid)
    );
}

#[test]
fn events_are_read_from_source() {
    let src = r#"
pub enum Other { X }
pub enum WidgetEvent {
    TimerInterrupt { timer_id: TimerId },
    HttpResponse { request_id: u32, body: String, success: bool },
}
"#;
    let events = events_from_source(src).unwrap();
    assert_eq!(events.variants.len(), 2);
    assert_eq!(events.variants[0].name, "TimerInterrupt");
    assert_eq!(events.variants[1].index, 1);
    assert_eq!(events.variants[1].fields.len(), 3);
    assert_eq!(events.variants[1].fields[1].expansion.ta_type, "string");
}

#[test]
fn only_doc_comments_mark_a_service() {
    let hidden = "#[doc(hidden)]\n#[wasm = \"@wasm\"]\npub trait T { fn f(&self); }\n";
    assert!(service_from_source(hidden, &vec![]).unwrap().is_none());
    let marked = "#[doc = \"@wasm\"]\npub trait Net {}\n";
    assert_eq!(service_from_source(marked, &vec![]).unwrap().unwrap().name, "net");
}
