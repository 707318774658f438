use widgets::codegen::model::FieldDef;
use widgets::codegen::parser::{
    collect_doc, extract_after_directive, extract_data_param_type, find_directive,
    find_struct_fields, infer_return_expansion, parse_kv, path_type_name, scan_events,
    try_parse_service_from_file, type_name_from_syn, Attr, EnumSyntax, FieldSyntax, FieldsSyntax,
    ItemSyntax, MethodSyntax, ParamSyntax, StructSyntax, TraitItemSyntax, TraitSyntax,
    TypeSyntax, VariantSyntax,
};
use widgets::codegen::type_map::{expand, expand_return, Expansion};
use widgets::codegen::{render, replace_str};

fn path(ident: &str) -> TypeSyntax {
    TypeSyntax::Path { ident: ident.to_string(), arg: None }
}

fn generic(ident: &str, arg: TypeSyntax) -> TypeSyntax {
    TypeSyntax::Path { ident: ident.to_string(), arg: Some(Box::new(arg)) }
}

fn doc(s: &str) -> Attr {
    Attr { leading_colon: false, path: vec!["doc".to_string()], str_value: Some(s.to_string()) }
}

fn other() -> Attr {
    Attr { leading_colon: false, path: vec!["derive".to_string()], str_value: None }
}

fn field(name: &str, ty: TypeSyntax, attrs: Vec<Attr>) -> FieldSyntax {
    FieldSyntax { attrs, name: Some(name.to_string()), ty }
}

fn abi_names(e: &Expansion) -> Vec<(String, String)> {
    e.abi.iter().map(|a| (a.name.clone(), a.ty.to_string())).collect()
}

#[test]
fn render_fills_each_placeholder() {
    let out = render("let %n%_x = %v% + %n%;", &[("n", "pos"), ("v", "1")]);
    assert_eq!(out, "let pos_x = 1 + pos;");
}

#[test]
fn render_applies_pairs_in_order() {
    // The value of the first pair is itself rewritten by the second.
    let out = render("%a%", &[("a", "%b%"), ("b", "done")]);
    assert_eq!(out, "done");
}

#[test]
fn render_leaves_unknown_placeholders() {
    assert_eq!(render("%v% as u32", &[("n", "x")]), "%v% as u32");
}

#[test]
fn replace_is_left_to_right_and_non_overlapping() {
    assert_eq!(replace_str("aaaa", "aa", "b"), "bb");
    assert_eq!(replace_str("aaa", "aa", "b"), "ba");
    assert_eq!(replace_str("abc", "x", "y"), "abc");
}

#[test]
fn expand_integer_field() {
    let e = expand("count", "u8", "Data", false, None);
    assert_eq!(e.ta_type, "u32");
    assert_eq!(e.ta_default.as_deref(), Some("0"));
    assert_eq!(abi_names(&e), vec![("count".to_string(), "u32".to_string())]);
    assert_eq!(e.rust_to_abi.exprs, vec!["%v% as u32".to_string()]);
    assert_eq!(e.abi_to_rust.exprs, vec!["count as _".to_string()]);
    assert_eq!(e.ts_to_abi.exprs, vec!["%v%".to_string()]);
    assert_eq!(e.abi_to_ts.exprs, vec!["count".to_string()]);
}

#[test]
fn expand_color_field_with_default() {
    let e = expand("fill", "Color", "Data", false, Some("Color::RGB(1, 2, 3)"));
    assert_eq!(e.ta_type, "Color");
    assert_eq!(e.ta_default.as_deref(), Some("new Color(1, 2, 3)"));
    assert_eq!(
        abi_names(&e),
        vec![
            ("fill_r".to_string(), "u32".to_string()),
            ("fill_g".to_string(), "u32".to_string()),
            ("fill_b".to_string(), "u32".to_string()),
        ]
    );
    assert_eq!(
        e.abi_to_rust.exprs,
        vec!["crate::drawer::types::Color::Rgb(fill_r as u8, fill_g as u8, fill_b as u8)".to_string()]
    );
    assert_eq!(e.abi_to_ts.exprs, vec!["new Color(<u8>fill_r, <u8>fill_g, <u8>fill_b)".to_string()]);
}

#[test]
fn expand_required_field_has_no_default() {
    let e = expand("center", "Point", "Data", true, Some("Point::new(1, 1)"));
    assert_eq!(e.ta_default, None);
    assert_eq!(e.rust_to_abi.exprs, vec!["(%v%).x".to_string(), "(%v%).y".to_string()]);
}

#[test]
fn expand_default_enum_names() {
    let e = expand("align", "StrokeAlignment", "Data", false, Some("StrokeAlignment::Inside"));
    assert_eq!(e.ta_default.as_deref(), Some("StrokeAlignment.Inside"));
    let f = expand("font", "Font", "Data", false, None);
    assert_eq!(f.ta_default.as_deref(), Some("Font.Font6x10"));
    assert_eq!(f.abi_to_rust.exprs, vec!["crate::drawer::types::Font::from_int(font)".to_string()]);
}

#[test]
fn expand_string_field_uses_length_and_pointer() {
    let e = expand("text", "String", "Data", false, None);
    assert_eq!(e.ta_type, "string");
    assert_eq!(e.ta_default.as_deref(), Some("\"\""));
    assert_eq!(
        abi_names(&e),
        vec![
            ("text_len".to_string(), "u32".to_string()),
            ("text_ptr".to_string(), "usize".to_string()),
        ]
    );
    assert_eq!(e.abi_to_rust.exprs, vec!["text_buf".to_string()]);
    assert!(e.abi_to_rust.preamble.contains("let text_start = text_ptr as usize;"));
    assert!(e.abi_to_rust.preamble.contains("text_buf.push_str(text_utf8);"));
    assert_eq!(e.ts_to_abi.preamble, "    const __text_buf = String.UTF8.encode(%v%);\n");
    assert_eq!(
        e.ts_to_abi.exprs,
        vec!["__text_buf.byteLength".to_string(), "changetype<usize>(__text_buf)".to_string()]
    );
}

#[test]
fn expand_integer_array() {
    let e = expand("data", "Vec<u16>", "Data", false, None);
    assert_eq!(e.ta_type, "u16[]");
    assert_eq!(e.ta_default.as_deref(), Some("[]"));
    assert_eq!(e.rust_to_abi.exprs[0], "((%v%).len() * 2) as u32");
    assert_eq!(e.ts_to_abi.exprs[0], "(%v%).length << 1");
    assert!(e.abi_to_rust.preamble.contains("let data_vec: alloc::vec::Vec<u16> = data_bytes"));
    assert!(e.abi_to_rust.preamble.contains(".chunks_exact(2)"));
    assert!(e.abi_to_ts.preamble.contains("new Array<u16>(<i32>(data_len >>> 1))"));
}

#[test]
fn expand_string_and_pair_arrays() {
    let s = expand("names", "Vec<String>", "Data", false, None);
    assert_eq!(s.ta_type, "string[]");
    assert_eq!(s.abi_to_rust.exprs, vec!["names_vec".to_string()]);
    assert!(s.abi_to_rust.preamble.contains("let mut names_vec: alloc::vec::Vec<alloc::string::String>"));
    let p = expand("headers", "Vec<(String, String)>", "Data", false, None);
    assert_eq!(p.ta_type, "string[][]");
    assert!(p.abi_to_rust.preamble.contains("let mut headers_flat: alloc::vec::Vec<alloc::string::String>"));
    assert!(p.abi_to_rust.preamble.contains("headers_vec.push((headers_k, headers_v));"));
}

#[test]
fn expand_return_names_value_ret() {
    let e = expand_return("u64", "get_time");
    assert_eq!(abi_names(&e), vec![("ret".to_string(), "u64".to_string())]);
    assert_eq!(e.ta_default, None);
    let id = expand_return("TimerId", "create");
    assert_eq!(id.rust_to_abi.exprs, vec!["(%v%).0".to_string()]);
    assert_eq!(id.abi_to_rust.exprs, vec!["crate::time::TimerId(ret)".to_string()]);
}

#[test]
fn every_expansion_has_one_expression_per_scalar() {
    for t in ["u32", "i64", "bool", "Color", "Point", "Rect", "String", "Duration", "RequestId",
        "Baseline", "TextAlignment", "Vec<u8>", "Vec<String>", "Vec<(str, str)>"] {
        let e = expand("f", t, "Data", false, None);
        assert_eq!(e.rust_to_abi.exprs.len(), e.abi.len(), "{t}");
        assert_eq!(e.ts_to_abi.exprs.len(), e.abi.len(), "{t}");
        assert_eq!(e.abi_to_rust.exprs.len(), 1, "{t}");
        assert_eq!(e.abi_to_ts.exprs.len(), 1, "{t}");
        for (i, a) in e.abi.iter().enumerate() {
            if a.ty == "usize" {
                assert_eq!(e.abi[i - 1].name, "f_len");
                assert_eq!(a.name, "f_ptr");
            }
        }
    }
}

#[test]
fn host_expressions_wrap_the_value_only_before_a_dot() {
    for t in ["u32", "i64", "bool", "Color", "Point", "Rect", "String", "Duration", "RequestId",
        "Baseline", "TimerId", "Vec<u8>", "Vec<i64>", "Vec<String>", "Vec<(str, str)>"] {
        let e = expand("f", t, "Data", false, None);
        for x in &e.rust_to_abi.exprs {
            assert!(!x.contains("%v%."), "{t}: {x}");
            for (i, _) in x.match_indices("(%v%)") {
                assert_eq!(x.as_bytes().get(i + 5), Some(&b'.'), "{t}: {x}");
            }
        }
    }
}

#[test]
fn only_doc_attributes_with_a_string_are_doc_lines() {
    let named = |path: &[&str], colon: bool, v: Option<&str>| Attr {
        leading_colon: colon,
        path: path.iter().map(|p| p.to_string()).collect(),
        str_value: v.map(|x| x.to_string()),
    };
    let attrs = vec![
        named(&["doc"], false, Some(" kept")),
        named(&["doc"], false, None),
        named(&["docs"], false, Some(" not doc")),
        named(&["core", "doc"], false, Some(" path")),
        named(&["doc"], true, Some(" rooted")),
        named(&["doc"], false, Some(" also kept")),
    ];
    assert_eq!(collect_doc(&attrs), " kept\n also kept");
}

#[test]
fn collect_doc_joins_doc_lines_only() {
    let attrs = vec![doc(" first"), other(), doc(" second")];
    assert_eq!(collect_doc(&attrs), " first\n second");
    assert_eq!(collect_doc(&vec![other()]), "");
}

#[test]
fn find_directive_returns_first_matching_line() {
    let d = " intro\n @wasm builder_name=\"rect\"\n @wasm other";
    assert_eq!(find_directive(d, "@wasm").as_deref(), Some(" @wasm builder_name=\"rect\""));
    assert_eq!(find_directive(d, "@default"), None);
}

#[test]
fn parse_kv_reads_quoted_value() {
    let line = " @wasm builder_name=\"rect\" required=\"a, b\"";
    assert_eq!(parse_kv(line, "builder_name").as_deref(), Some("rect"));
    assert_eq!(parse_kv(line, "required").as_deref(), Some("a, b"));
    assert_eq!(parse_kv(line, "missing"), None);
    assert_eq!(parse_kv("key=\"open", "key"), None);
}

#[test]
fn extract_after_directive_cuts_at_next_directive() {
    assert_eq!(extract_after_directive(" @default 0 @setter stroke", "@default"), "0");
    assert_eq!(extract_after_directive(" @default 0 @setter stroke", "@setter"), "stroke");
    assert_eq!(extract_after_directive("@default   Color::WHITE  ", "@default"), "Color::WHITE");
}

#[test]
fn type_names_are_written_out() {
    assert_eq!(type_name_from_syn(&generic("Vec", path("String")), "S", "f"), "Vec<String>");
    let pair = TypeSyntax::Tuple(vec![path("String"), path("String")]);
    assert_eq!(type_name_from_syn(&generic("Vec", pair), "S", "f"), "Vec<(String, String)>");
    assert_eq!(type_name_from_syn(&TypeSyntax::Reference(Box::new(path("str"))), "S", "f"), "str");
    assert_eq!(path_type_name(&TypeSyntax::Reference(Box::new(path("RectData")))), "RectData");
}

#[test]
fn data_parameter_and_return_type() {
    let m = MethodSyntax {
        attrs: vec![],
        name: "execute_rect".to_string(),
        inputs: vec![ParamSyntax::Receiver, ParamSyntax::Typed(path("RectData"))],
        output: None,
    };
    assert_eq!(extract_data_param_type(&m).as_deref(), Some("RectData"));
    let none = MethodSyntax { attrs: vec![], name: "b".to_string(), inputs: vec![ParamSyntax::Receiver], output: None };
    assert_eq!(extract_data_param_type(&none), None);
    assert!(infer_return_expansion(&None, "m").is_none());
    assert!(infer_return_expansion(&Some(TypeSyntax::Tuple(vec![])), "m").is_none());
    let r = infer_return_expansion(&Some(path("u32")), "m").unwrap();
    assert_eq!(r.abi[0].name, "ret");
}

fn circle_struct() -> StructSyntax {
    StructSyntax {
        attrs: vec![doc(" @wasm required=\"center, radius\"")],
        name: "CircleData".to_string(),
        fields: FieldsSyntax::Named(vec![
            field("center", path("Point"), vec![]),
            field("radius", path("u32"), vec![]),
            field("color", path("Color"), vec![doc(" @default Color::WHITE")]),
            field("stroke_width", path("u32"), vec![doc(" @default 0 @setter stroke")]),
        ]),
    }
}

#[test]
fn struct_fields_follow_directives() {
    let other = StructSyntax { attrs: vec![], name: "Other".to_string(), fields: FieldsSyntax::Unit };
    let structs = vec![other, circle_struct()];
    let fields: Vec<FieldDef> = find_struct_fields(&structs, "CircleData");
    assert_eq!(fields.len(), 4);
    assert_eq!(fields[0].name, "center");
    assert_eq!(fields[0].expansion.ta_default, None);
    assert_eq!(fields[1].expansion.ta_default, None);
    assert_eq!(fields[2].expansion.ta_default.as_deref(), Some("Color.WHITE"));
    assert_eq!(fields[3].expansion.ta_default.as_deref(), Some("0"));
    assert_eq!(fields[3].setter_name.as_deref(), Some("stroke"));
    assert_eq!(fields[2].setter_name, None);
}

#[test]
fn service_is_built_from_marked_trait() {
    let method = MethodSyntax {
        attrs: vec![doc(" @wasm builder_name=\"circle\"")],
        name: "execute_circle".to_string(),
        inputs: vec![ParamSyntax::Receiver, ParamSyntax::Typed(path("CircleData"))],
        output: None,
    };
    let plain = MethodSyntax {
        attrs: vec![doc(" not exported")],
        name: "helper".to_string(),
        inputs: vec![ParamSyntax::Receiver],
        output: None,
    };
    let bounds = MethodSyntax {
        attrs: vec![doc(" @wasm builder_name=\"boundsX\"")],
        name: "bounds_x".to_string(),
        inputs: vec![ParamSyntax::Receiver],
        output: Some(path("u32")),
    };
    let t = TraitSyntax {
        attrs: vec![doc(" Draws."), doc(" @wasm")],
        name: "Drawer".to_string(),
        items: vec![
            TraitItemSyntax::Method(method),
            TraitItemSyntax::Other,
            TraitItemSyntax::Method(plain),
            TraitItemSyntax::Method(bounds),
        ],
    };
    let unmarked = TraitSyntax { attrs: vec![], name: "Hidden".to_string(), items: vec![] };
    let items = vec![ItemSyntax::Other, ItemSyntax::Trait(unmarked), ItemSyntax::Trait(t)];
    let svc = try_parse_service_from_file(&items, &vec![circle_struct()]).unwrap();
    assert_eq!(svc.name, "drawer");
    assert_eq!(svc.bindings.len(), 2);
    assert_eq!(svc.bindings[0].executor_method, "execute_circle");
    assert_eq!(svc.bindings[0].builder_name, "circle");
    assert_eq!(svc.bindings[0].data_type.as_deref(), Some("CircleData"));
    assert_eq!(svc.bindings[0].fields.len(), 4);
    assert!(svc.bindings[0].return_expansion.is_none());
    assert_eq!(svc.bindings[1].builder_name, "boundsX");
    assert_eq!(svc.bindings[1].data_type, None);
    assert_eq!(svc.bindings[1].return_expansion.as_ref().unwrap().ta_type, "u32");
}

#[test]
fn no_service_without_marked_trait() {
    let items = vec![ItemSyntax::Other];
    assert!(try_parse_service_from_file(&items, &vec![]).is_none());
}

#[test]
fn events_keep_variant_order() {
    let e = EnumSyntax {
        name: "WidgetEvent".to_string(),
        variants: vec![
            VariantSyntax {
                name: "TimerInterrupt".to_string(),
                fields: FieldsSyntax::Named(vec![field("timer_id", path("TimerId"), vec![])]),
            },
            VariantSyntax {
                name: "HttpResponse".to_string(),
                fields: FieldsSyntax::Named(vec![
                    field("request_id", path("u32"), vec![]),
                    field("body", path("String"), vec![]),
                    field("success", path("bool"), vec![]),
                ]),
            },
        ],
    };
    let other = EnumSyntax { name: "Other".to_string(), variants: vec![] };
    let events = scan_events(&vec![ItemSyntax::Enum(other), ItemSyntax::Enum(e)]);
    assert_eq!(events.variants.len(), 2);
    assert_eq!(events.variants[0].name, "TimerInterrupt");
    assert_eq!(events.variants[0].index, 0);
    assert_eq!(events.variants[1].index, 1);
    assert_eq!(events.variants[1].fields.len(), 3);
    assert_eq!(events.variants[1].fields[1].expansion.ta_type, "string");
    assert_eq!(events.variants[1].fields[2].expansion.ta_default, None);
}
