//! How each field type crosses the boundary between host and widget.
//!
//! A field of a known type becomes a list of ABI scalars plus four converters
//! (host to ABI, ABI to host, widget to ABI, ABI to widget). Converter text
//! uses `%v%` for the typed value; names derived from the field are filled
//! in here.
use vstd::prelude::*;

use crate::codegen::{pair_views, render, render_spec, replace_all, replace_str};
use crate::text::{chars_of, concat, decimal, push_decimal, str_eq};

verus! {

/// Host side: turns the guest bytes of a string field into an owned `String`.
pub const STR_DECODE: &'static str = r#"                    let %n%_utf8 = match core::str::from_utf8(%n%_bytes) {
                        Ok(s) => s,
                        Err(_) => return Err(wasmi::Error::new("field `%n%` is not valid UTF-8")),
                    };
                    let mut %n%_buf = alloc::string::String::new();
                    %n%_buf.push_str(%n%_utf8);
"#;

/// Host side: little-endian integer elements out of the guest bytes.
pub const INT_ARRAY_DECODE: &'static str = r#"                    let %n%_vec: alloc::vec::Vec<%elem%> = %n%_bytes
                        .chunks_exact(%size%)
                        .map(|__c| %elem%::from_le_bytes(__c.try_into().unwrap()))
                        .collect();
"#;

/// Widget side: integer elements loaded from host memory.
pub const INT_ARRAY_TS_DECODE: &'static str = r#"    const %n%_arr = new Array<%ts_elem%>(<i32>(%n%_len >>> %shift%));
    for (let %n%_i = 0; %n%_i < %n%_arr.length; %n%_i++) {
      %n%_arr[%n%_i] = load<%ts_elem%>(%n%_ptr + (<usize>%n%_i << %shift%));
    }
"#;

/// Widget side: encodes each string of an array and sums the packed size.
pub const STR_ARRAY_TS_ENCODE: &'static str = r#"    let __%n%_total = 0;
    const __%n%_enc = new Array<ArrayBuffer>();
    for (let __%n%_i = 0; __%n%_i < (%v%).length; __%n%_i++) {
      const __%n%_b = String.UTF8.encode((%v%)[__%n%_i]);
      __%n%_enc.push(__%n%_b);
      __%n%_total += 4 + __%n%_b.byteLength;
    }
"#;

/// Widget side: reads the packed `u32 len | utf8 bytes` strings.
pub const STR_ARRAY_TS_DECODE: &'static str = r#"    const %n%_arr = new Array<string>();
    let %n%_off: usize = 0;
    while (%n%_off + 4 <= <usize>%n%_len) {
      const %n%_slen = load<u32>(%n%_ptr + %n%_off);
      %n%_off += 4;
      %n%_arr.push(String.UTF8.decodeUnsafe(%n%_ptr + %n%_off, %n%_slen));
      %n%_off += %n%_slen;
    }
"#;

/// Host side: regroups the flattened strings into pairs.
pub const PAIR_ARRAY_REGROUP: &'static str = r#"                    let mut %n%_vec: alloc::vec::Vec<(alloc::string::String, alloc::string::String)> = alloc::vec::Vec::new();
                    let mut %n%_flat_it = %n%_flat.into_iter();
                    while let (Some(%n%_k), Some(%n%_v)) = (%n%_flat_it.next(), %n%_flat_it.next()) {
                        %n%_vec.push((%n%_k, %n%_v));
                    }
"#;

/// Widget side: encodes both strings of each pair and sums the packed size.
pub const PAIR_ARRAY_TS_ENCODE: &'static str = r#"    let __%n%_total = 0;
    const __%n%_enc = new Array<ArrayBuffer>();
    for (let __%n%_i = 0; __%n%_i < (%v%).length; __%n%_i++) {
      const __%n%_pair = (%v%)[__%n%_i];
      for (let __%n%_j = 0; __%n%_j < __%n%_pair.length; __%n%_j++) {
        const __%n%_b = String.UTF8.encode(__%n%_pair[__%n%_j]);
        __%n%_enc.push(__%n%_b);
        __%n%_total += 4 + __%n%_b.byteLength;
      }
    }
"#;

/// Widget side: reads packed strings two at a time into pairs.
pub const PAIR_ARRAY_TS_DECODE: &'static str = r#"    const %n%_arr = new Array<string[]>();
    let %n%_off: usize = 0;
    while (%n%_off + 4 <= <usize>%n%_len) {
      const %n%_klen = load<u32>(%n%_ptr + %n%_off);
      %n%_off += 4;
      const %n%_k = String.UTF8.decodeUnsafe(%n%_ptr + %n%_off, %n%_klen);
      %n%_off += %n%_klen;
      if (%n%_off + 4 > <usize>%n%_len) break;
      const %n%_vlen = load<u32>(%n%_ptr + %n%_off);
      %n%_off += 4;
      const %n%_v = String.UTF8.decodeUnsafe(%n%_ptr + %n%_off, %n%_vlen);
      %n%_off += %n%_vlen;
      %n%_arr.push([%n%_k, %n%_v]);
    }
"#;

/// Host side: parses the packed `u32 len | utf8 bytes` strings into a `Vec<String>`.
pub const PACKED_STRINGS_DECODE: &'static str = r#"                    let mut %out%: alloc::vec::Vec<alloc::string::String> = alloc::vec::Vec::new();
                    let mut %n%_off = 0usize;
                    while %n%_off + 4 <= %n%_bytes.len() {
                        let %n%_slen = u32::from_le_bytes([%n%_bytes[%n%_off], %n%_bytes[%n%_off + 1], %n%_bytes[%n%_off + 2], %n%_bytes[%n%_off + 3]]) as usize;
                        %n%_off += 4;
                        let %n%_chunk = match %n%_bytes.get(%n%_off..%n%_off + %n%_slen) {
                            Some(b) => b,
                            None => break,
                        };
                        let %n%_s = match core::str::from_utf8(%n%_chunk) {
                            Ok(s) => s,
                            Err(_) => break,
                        };
                        %out%.push(alloc::string::String::from(%n%_s));
                        %n%_off += %n%_slen;
                    }
"#;

/// Widget side: writes the encoded strings into one packed buffer.
pub const TS_PACK_STRINGS: &'static str = r#"    const __%n%_buf = new ArrayBuffer(__%n%_total);
    let __%n%_off = changetype<usize>(__%n%_buf);
    for (let __%n%_i = 0; __%n%_i < __%n%_enc.length; __%n%_i++) {
      const __%n%_b = __%n%_enc[__%n%_i];
      store<u32>(__%n%_off, __%n%_b.byteLength);
      __%n%_off += 4;
      memory.copy(__%n%_off, changetype<usize>(__%n%_b), __%n%_b.byteLength);
      __%n%_off += __%n%_b.byteLength;
    }
"#;

/// Host side: bounds-checks and borrows the guest bytes at `%n%_ptr`.
pub const GUEST_BYTES: &'static str = r#"                    let %n%_memory = match caller.get_export("memory") {
                        Some(wasmi::Extern::Memory(m)) => m,
                        _ => return Err(wasmi::Error::new("guest memory export missing")),
                    };
                    let %n%_start = %n%_ptr as usize;
                    let %n%_end = match %n%_start.checked_add(%n%_len as usize) {
                        Some(e) => e,
                        None => return Err(wasmi::Error::new("guest pointer overflow for `%n%`")),
                    };
                    let %n%_bytes = match %n%_memory.data(&caller).get(%n%_start..%n%_end) {
                        Some(b) => b,
                        None => return Err(wasmi::Error::new("out-of-bounds guest pointer for `%n%`")),
                    };
"#;

/// Host side: a `bool` to its ABI scalar.
pub const BOOL_TO_ABI: &'static str = "if %v% { 1u32 } else { 0u32 }";
/// Both sides: an ABI scalar to a `bool`.
pub const BOOL_FROM_ABI: &'static str = "%n% != 0";
/// Host side: an ABI scalar to an integer.
pub const INT_FROM_ABI: &'static str = "%n% as _";
/// Host side: the red channel of a colour.
pub const COLOR_R_TO_ABI: &'static str = "match %v% { crate::drawer::types::Color::Rgb(r, _, _) => r as u32, _ => 0 }";
/// Host side: the green channel of a colour.
pub const COLOR_G_TO_ABI: &'static str = "match %v% { crate::drawer::types::Color::Rgb(_, g, _) => g as u32, _ => 0 }";
/// Host side: the blue channel of a colour.
pub const COLOR_B_TO_ABI: &'static str = "match %v% { crate::drawer::types::Color::Rgb(_, _, b) => b as u32, _ => 0 }";
/// Host side: a colour from its three channels.
pub const COLOR_FROM_ABI: &'static str = "crate::drawer::types::Color::Rgb(%n%_r as u8, %n%_g as u8, %n%_b as u8)";
/// Widget side: a colour from its three channels.
pub const COLOR_TS_FROM_ABI: &'static str = "new Color(<u8>%n%_r, <u8>%n%_g, <u8>%n%_b)";
/// Host side: a point from its coordinates.
pub const POINT_FROM_ABI: &'static str = "crate::drawer::types::Point { x: %n%_x, y: %n%_y }";
/// Widget side: a point from its coordinates.
pub const POINT_TS_FROM_ABI: &'static str = "new Point(%n%_x, %n%_y)";
/// Host side: a rectangle from origin and size.
pub const RECT_FROM_ABI: &'static str = "crate::drawer::types::Rect { origin: crate::drawer::types::Point { x: %n%_x, y: %n%_y }, size: crate::drawer::types::Size { width: %n%_width, height: %n%_height } }";
/// Widget side: a rectangle from origin and size.
pub const RECT_TS_FROM_ABI: &'static str = "new Rect(%n%_x, %n%_y, %n%_width, %n%_height)";
/// Widget side: encodes a string as UTF-8.
pub const STR_TS_ENCODE: &'static str = "    const __%n%_buf = String.UTF8.encode(%v%);\n";
/// Widget side: byte length of the encoded string.
pub const STR_TS_LEN: &'static str = "__%n%_buf.byteLength";
/// Widget side: address of the encoded string.
pub const STR_TS_PTR: &'static str = "changetype<usize>(__%n%_buf)";
/// Widget side: a string decoded from host memory.
pub const STR_TS_FROM_ABI: &'static str = "String.UTF8.decodeUnsafe(%n%_ptr, %n%_len)";
/// Host side: a duration from its ticks.
pub const DURATION_FROM_ABI: &'static str = "embassy_time::Duration::from_ticks(%n%)";
/// Widget side: a duration from its ticks.
pub const DURATION_TS_FROM_ABI: &'static str = "new Duration(%n%)";
/// Host side: a timer id from its number.
pub const TIMER_ID_FROM_ABI: &'static str = "crate::time::TimerId(%n%)";
/// Host side: a request id from its number.
pub const REQUEST_ID_FROM_ABI: &'static str = "crate::http::RequestId(%n%)";
/// Host side: a stroke alignment from its number.
pub const STROKE_FROM_ABI: &'static str = "crate::drawer::types::StrokeAlignment::from_int(%n%)";
/// Widget side: a stroke alignment from its number.
pub const STROKE_TS_FROM_ABI: &'static str = "%n% as StrokeAlignment";
/// Host side: a font from its number.
pub const FONT_FROM_ABI: &'static str = "crate::drawer::types::Font::from_int(%n%)";
/// Widget side: a font from its number.
pub const FONT_TS_FROM_ABI: &'static str = "%n% as Font";
/// Host side: a text alignment from its number.
pub const TEXT_ALIGN_FROM_ABI: &'static str = "crate::drawer::types::TextAlignment::from_int(%n%)";
/// Widget side: a text alignment from its number.
pub const TEXT_ALIGN_TS_FROM_ABI: &'static str = "%n% as TextAlignment";
/// Host side: a baseline from its number.
pub const BASELINE_FROM_ABI: &'static str = "crate::drawer::types::Baseline::from_int(%n%)";
/// Widget side: a baseline from its number.
pub const BASELINE_TS_FROM_ABI: &'static str = "%n% as Baseline";
/// Host side: byte length of an integer array.
pub const INT_ARRAY_LEN: &'static str = "((%v%).len() * %size%) as u32";
/// Host side: bytes of an integer array.
pub const INT_ARRAY_BYTES: &'static str = "(%v%).iter().flat_map(|__x| __x.to_le_bytes()).collect::<alloc::vec::Vec<u8>>()";
/// Widget side: byte length of an integer array.
pub const INT_ARRAY_TS_LEN: &'static str = "(%v%).length << %shift%";
/// Host side: packed byte length of a string array.
pub const STR_ARRAY_LEN: &'static str = "(%v%).iter().map(|__s| 4 + __s.len()).sum::<usize>() as u32";
/// Host side: packed bytes of a string array.
pub const STR_ARRAY_BYTES: &'static str = "{ let mut __b: alloc::vec::Vec<u8> = alloc::vec::Vec::new(); for __s in (%v%).iter() { __b.extend_from_slice(&(__s.len() as u32).to_le_bytes()); __b.extend_from_slice(__s.as_bytes()); } __b }";
/// Host side: packed byte length of a pair array.
pub const PAIR_ARRAY_LEN: &'static str = "(%v%).iter().map(|__p| 8 + __p.0.len() + __p.1.len()).sum::<usize>() as u32";
/// Host side: packed bytes of a pair array.
pub const PAIR_ARRAY_BYTES: &'static str = "{ let mut __b: alloc::vec::Vec<u8> = alloc::vec::Vec::new(); for __p in (%v%).iter() { __b.extend_from_slice(&(__p.0.len() as u32).to_le_bytes()); __b.extend_from_slice(__p.0.as_bytes()); __b.extend_from_slice(&(__p.1.len() as u32).to_le_bytes()); __b.extend_from_slice(__p.1.as_bytes()); } __b }";

/// One scalar on the wire: its name and its widget-side scalar type
/// ("u32", "u64", "i32", "i64" or "usize", the last a guest pointer).
pub struct AbiField {
    pub name: String,
    pub ty: &'static str,
}

impl View for AbiField {
    type V = (Seq<char>, Seq<char>);

    open spec fn view(&self) -> (Seq<char>, Seq<char>) {
        (self.name@, self.ty@)
    }
}

/// One direction of a conversion: statements emitted first, then one
/// expression per ABI scalar (or one expression building the typed value).
pub struct Conversion {
    pub preamble: String,
    pub exprs: Vec<String>,
}

/// The text of a conversion.
pub struct ConversionView {
    pub preamble: Seq<char>,
    pub exprs: Seq<Seq<char>>,
}

impl View for Conversion {
    type V = ConversionView;

    open spec fn view(&self) -> ConversionView {
        ConversionView { preamble: self.preamble@, exprs: self.exprs@.map_values(|e: String| e@) }
    }
}

/// Everything the generators need about one field or return type.
pub struct Expansion {
    pub ta_type: String,
    pub ta_default: Option<String>,
    pub abi: Vec<AbiField>,
    pub rust_to_abi: Conversion,
    pub abi_to_rust: Conversion,
    pub ts_to_abi: Conversion,
    pub abi_to_ts: Conversion,
}

/// The text of an expansion.
pub struct ExpansionView {
    pub ta_type: Seq<char>,
    pub ta_default: Option<Seq<char>>,
    pub abi: Seq<(Seq<char>, Seq<char>)>,
    pub rust_to_abi: ConversionView,
    pub abi_to_rust: ConversionView,
    pub ts_to_abi: ConversionView,
    pub abi_to_ts: ConversionView,
}

pub open spec fn opt_string_view(o: Option<String>) -> Option<Seq<char>> {
    match o {
        Some(s) => Some(s@),
        None => None,
    }
}

pub open spec fn opt_str_view(o: Option<&str>) -> Option<Seq<char>> {
    match o {
        Some(s) => Some(s@),
        None => None,
    }
}

impl View for Expansion {
    type V = ExpansionView;

    open spec fn view(&self) -> ExpansionView {
        ExpansionView {
            ta_type: self.ta_type@,
            ta_default: opt_string_view(self.ta_default),
            abi: self.abi@.map_values(|a: AbiField| a@),
            rust_to_abi: self.rust_to_abi@,
            abi_to_rust: self.abi_to_rust@,
            ts_to_abi: self.ts_to_abi@,
            abi_to_ts: self.abi_to_ts@,
        }
    }
}

// ── The mapping, stated ───────────────────────────────────────────────────────

/// `t` with `%n%` standing for `name`.
pub open spec fn fill_spec(t: Seq<char>, name: Seq<char>) -> Seq<char> {
    render_spec(t, seq![("n"@, name)])
}

pub open spec fn listed(exprs: Seq<Seq<char>>) -> ConversionView {
    ConversionView { preamble: seq![], exprs }
}

pub open spec fn single(e: Seq<char>) -> ConversionView {
    listed(seq![e])
}

pub open spec fn int_view(name: Seq<char>, ty: Seq<char>) -> ExpansionView {
    ExpansionView {
        ta_type: ty,
        ta_default: Some("0"@),
        abi: seq![(name, ty)],
        rust_to_abi: single("%v% as "@ + ty),
        abi_to_rust: single(fill_spec(INT_FROM_ABI@, name)),
        ts_to_abi: single("%v%"@),
        abi_to_ts: single(name),
    }
}

pub open spec fn bool_view(name: Seq<char>) -> ExpansionView {
    ExpansionView {
        ta_type: "bool"@,
        ta_default: Some("false"@),
        abi: seq![(name, "u32"@)],
        rust_to_abi: single(BOOL_TO_ABI@),
        abi_to_rust: single(fill_spec(BOOL_FROM_ABI@, name)),
        ts_to_abi: single("%v% ? 1 : 0"@),
        abi_to_ts: single(fill_spec(BOOL_FROM_ABI@, name)),
    }
}

pub open spec fn color_view(name: Seq<char>) -> ExpansionView {
    ExpansionView {
        ta_type: "Color"@,
        ta_default: Some("Color.WHITE"@),
        abi: seq![(name + "_r"@, "u32"@), (name + "_g"@, "u32"@), (name + "_b"@, "u32"@)],
        rust_to_abi: listed(seq![COLOR_R_TO_ABI@, COLOR_G_TO_ABI@, COLOR_B_TO_ABI@]),
        abi_to_rust: single(fill_spec(COLOR_FROM_ABI@, name)),
        ts_to_abi: listed(seq!["%v%.r"@, "%v%.g"@, "%v%.b"@]),
        abi_to_ts: single(fill_spec(COLOR_TS_FROM_ABI@, name)),
    }
}

pub open spec fn point_view(name: Seq<char>) -> ExpansionView {
    ExpansionView {
        ta_type: "Point"@,
        ta_default: Some("new Point(0, 0)"@),
        abi: seq![(name + "_x"@, "u32"@), (name + "_y"@, "u32"@)],
        rust_to_abi: listed(seq!["(%v%).x"@, "(%v%).y"@]),
        abi_to_rust: single(fill_spec(POINT_FROM_ABI@, name)),
        ts_to_abi: listed(seq!["%v%.x"@, "%v%.y"@]),
        abi_to_ts: single(fill_spec(POINT_TS_FROM_ABI@, name)),
    }
}

pub open spec fn rect_view(name: Seq<char>) -> ExpansionView {
    ExpansionView {
        ta_type: "Rect"@,
        ta_default: Some("new Rect(0, 0, 0, 0)"@),
        abi: seq![
            (name + "_x"@, "u32"@),
            (name + "_y"@, "u32"@),
            (name + "_width"@, "u32"@),
            (name + "_height"@, "u32"@),
        ],
        rust_to_abi: listed(
            seq![
                "(%v%).origin.x"@,
                "(%v%).origin.y"@,
                "(%v%).size.width"@,
                "(%v%).size.height"@,
            ],
        ),
        abi_to_rust: single(fill_spec(RECT_FROM_ABI@, name)),
        ts_to_abi: listed(seq!["%v%.x"@, "%v%.y"@, "%v%.width"@, "%v%.height"@]),
        abi_to_ts: single(fill_spec(RECT_TS_FROM_ABI@, name)),
    }
}

/// The length/pointer pair that strings and arrays occupy.
pub open spec fn buffer_abi(name: Seq<char>) -> Seq<(Seq<char>, Seq<char>)> {
    seq![(name + "_len"@, "u32"@), (name + "_ptr"@, "usize"@)]
}

pub open spec fn str_view(name: Seq<char>) -> ExpansionView {
    ExpansionView {
        ta_type: "string"@,
        ta_default: Some("\"\""@),
        abi: buffer_abi(name),
        rust_to_abi: listed(seq!["(%v%).len() as u32"@, "(%v%).as_bytes().to_vec()"@]),
        abi_to_rust: ConversionView {
            preamble: fill_spec(GUEST_BYTES@, name) + fill_spec(STR_DECODE@, name),
            exprs: seq![name + "_buf"@],
        },
        ts_to_abi: ConversionView {
            preamble: fill_spec(STR_TS_ENCODE@, name),
            exprs: seq![fill_spec(STR_TS_LEN@, name), fill_spec(STR_TS_PTR@, name)],
        },
        abi_to_ts: single(fill_spec(STR_TS_FROM_ABI@, name)),
    }
}

pub open spec fn duration_view(name: Seq<char>) -> ExpansionView {
    ExpansionView {
        ta_type: "Duration"@,
        ta_default: Some("new Duration(0)"@),
        abi: seq![(name, "u64"@)],
        rust_to_abi: single("(%v%).as_ticks()"@),
        abi_to_rust: single(fill_spec(DURATION_FROM_ABI@, name)),
        ts_to_abi: single("%v%.ticks"@),
        abi_to_ts: single(fill_spec(DURATION_TS_FROM_ABI@, name)),
    }
}

/// A newtype over `u32` (timer and request ids).
pub open spec fn id_view(name: Seq<char>, from_abi: Seq<char>) -> ExpansionView {
    ExpansionView {
        ta_type: "u32"@,
        ta_default: Some("0"@),
        abi: seq![(name, "u32"@)],
        rust_to_abi: single("(%v%).0"@),
        abi_to_rust: single(fill_spec(from_abi, name)),
        ts_to_abi: single("%v%"@),
        abi_to_ts: single(name),
    }
}

/// A field-less enum carried as its number.
pub open spec fn enum_view(
    name: Seq<char>,
    ta_type: Seq<char>,
    ta_default: Seq<char>,
    from_abi: Seq<char>,
    ts_from_abi: Seq<char>,
) -> ExpansionView {
    ExpansionView {
        ta_type,
        ta_default: Some(ta_default),
        abi: seq![(name, "u32"@)],
        rust_to_abi: single("%v% as u32"@),
        abi_to_rust: single(fill_spec(from_abi, name)),
        ts_to_abi: single("%v% as u32"@),
        abi_to_ts: single(fill_spec(ts_from_abi, name)),
    }
}

/// Widget element type, byte size and shift of an integer array element.
pub open spec fn int_elem_spec(e: Seq<char>) -> Option<(Seq<char>, nat, nat)> {
    if e == "u8"@ {
        Some(("u8"@, 1, 0))
    } else if e == "i8"@ {
        Some(("i8"@, 1, 0))
    } else if e == "u16"@ {
        Some(("u16"@, 2, 1))
    } else if e == "i16"@ {
        Some(("i16"@, 2, 1))
    } else if e == "u32"@ || e == "usize"@ {
        Some(("u32"@, 4, 2))
    } else if e == "i32"@ {
        Some(("i32"@, 4, 2))
    } else if e == "u64"@ {
        Some(("u64"@, 8, 3))
    } else if e == "i64"@ {
        Some(("i64"@, 8, 3))
    } else {
        None
    }
}

pub open spec fn guest_bytes_spec(name: Seq<char>) -> Seq<char> {
    fill_spec(GUEST_BYTES@, name)
}

pub open spec fn packed_strings_spec(name: Seq<char>, out: Seq<char>) -> Seq<char> {
    render_spec(PACKED_STRINGS_DECODE@, seq![("n"@, name), ("out"@, out)])
}

pub open spec fn int_array_view(
    name: Seq<char>,
    elem: Seq<char>,
    ts_elem: Seq<char>,
    size: nat,
    shift: nat,
) -> ExpansionView {
    ExpansionView {
        ta_type: ts_elem + "[]"@,
        ta_default: Some("[]"@),
        abi: buffer_abi(name),
        rust_to_abi: listed(
            seq![render_spec(INT_ARRAY_LEN@, seq![("size"@, decimal(size))]), INT_ARRAY_BYTES@],
        ),
        abi_to_rust: ConversionView {
            preamble: guest_bytes_spec(name) + render_spec(
                INT_ARRAY_DECODE@,
                seq![("n"@, name), ("elem"@, elem), ("size"@, decimal(size))],
            ),
            exprs: seq![name + "_vec"@],
        },
        ts_to_abi: listed(
            seq![
                render_spec(INT_ARRAY_TS_LEN@, seq![("shift"@, decimal(shift))]),
                "(%v%).dataStart"@,
            ],
        ),
        abi_to_ts: ConversionView {
            preamble: render_spec(
                INT_ARRAY_TS_DECODE@,
                seq![("n"@, name), ("ts_elem"@, ts_elem), ("shift"@, decimal(shift))],
            ),
            exprs: seq![name + "_arr"@],
        },
    }
}

pub open spec fn string_array_view(name: Seq<char>) -> ExpansionView {
    ExpansionView {
        ta_type: "string[]"@,
        ta_default: Some("[]"@),
        abi: buffer_abi(name),
        rust_to_abi: listed(seq![STR_ARRAY_LEN@, STR_ARRAY_BYTES@]),
        abi_to_rust: ConversionView {
            preamble: guest_bytes_spec(name) + packed_strings_spec(name, name + "_vec"@),
            exprs: seq![name + "_vec"@],
        },
        ts_to_abi: ConversionView {
            preamble: fill_spec(STR_ARRAY_TS_ENCODE@, name) + fill_spec(TS_PACK_STRINGS@, name),
            exprs: seq![fill_spec(STR_TS_LEN@, name), fill_spec(STR_TS_PTR@, name)],
        },
        abi_to_ts: ConversionView {
            preamble: fill_spec(STR_ARRAY_TS_DECODE@, name),
            exprs: seq![name + "_arr"@],
        },
    }
}

pub open spec fn pair_array_view(name: Seq<char>) -> ExpansionView {
    ExpansionView {
        ta_type: "string[][]"@,
        ta_default: Some("[]"@),
        abi: buffer_abi(name),
        rust_to_abi: listed(seq![PAIR_ARRAY_LEN@, PAIR_ARRAY_BYTES@]),
        abi_to_rust: ConversionView {
            preamble: guest_bytes_spec(name) + packed_strings_spec(name, name + "_flat"@)
                + fill_spec(PAIR_ARRAY_REGROUP@, name),
            exprs: seq![name + "_vec"@],
        },
        ts_to_abi: ConversionView {
            preamble: fill_spec(PAIR_ARRAY_TS_ENCODE@, name) + fill_spec(TS_PACK_STRINGS@, name),
            exprs: seq![fill_spec(STR_TS_LEN@, name), fill_spec(STR_TS_PTR@, name)],
        },
        abi_to_ts: ConversionView {
            preamble: fill_spec(PAIR_ARRAY_TS_DECODE@, name),
            exprs: seq![name + "_arr"@],
        },
    }
}

/// `Vec<elem>`: starts with `Vec<` and ends with `>`.
pub open spec fn is_vec_type(t: Seq<char>) -> bool {
    t.len() >= 5 && t[0] == 'V' && t[1] == 'e' && t[2] == 'c' && t[3] == '<' && t.last() == '>'
}

/// The element type between `Vec<` and the closing `>`.
pub open spec fn vec_elem(t: Seq<char>) -> Seq<char> {
    t.subrange(4, t.len() - 1)
}

/// The expansion of an array of `elem`, if that element type is supported.
pub open spec fn array_view(name: Seq<char>, elem: Seq<char>) -> Option<ExpansionView> {
    if elem == "str"@ || elem == "String"@ {
        Some(string_array_view(name))
    } else if elem == "(String, String)"@ || elem == "(str, str)"@ {
        Some(pair_array_view(name))
    } else {
        match int_elem_spec(elem) {
            Some((ts_elem, size, shift)) => Some(int_array_view(name, elem, ts_elem, size, shift)),
            None => None,
        }
    }
}

/// The expansion of a field `name` of type `t` with the type's own default,
/// or `None` for a type that has no mapping.
pub open spec fn base_expansion(name: Seq<char>, t: Seq<char>) -> Option<ExpansionView> {
    if t == "u32"@ || t == "u8"@ || t == "u16"@ || t == "usize"@ {
        Some(int_view(name, "u32"@))
    } else if t == "u64"@ {
        Some(int_view(name, "u64"@))
    } else if t == "i32"@ || t == "i8"@ || t == "i16"@ {
        Some(int_view(name, "i32"@))
    } else if t == "i64"@ {
        Some(int_view(name, "i64"@))
    } else if t == "bool"@ {
        Some(bool_view(name))
    } else if t == "Color"@ {
        Some(color_view(name))
    } else if t == "Point"@ {
        Some(point_view(name))
    } else if t == "Rect"@ {
        Some(rect_view(name))
    } else if t == "str"@ || t == "String"@ {
        Some(str_view(name))
    } else if t == "Duration"@ {
        Some(duration_view(name))
    } else if t == "TimerId"@ {
        Some(id_view(name, TIMER_ID_FROM_ABI@))
    } else if t == "RequestId"@ {
        Some(id_view(name, REQUEST_ID_FROM_ABI@))
    } else if t == "StrokeAlignment"@ {
        Some(
            enum_view(
                name,
                "StrokeAlignment"@,
                "StrokeAlignment.Center"@,
                STROKE_FROM_ABI@,
                STROKE_TS_FROM_ABI@,
            ),
        )
    } else if t == "Font"@ {
        Some(enum_view(name, "Font"@, "Font.Font6x10"@, FONT_FROM_ABI@, FONT_TS_FROM_ABI@))
    } else if t == "TextAlignment"@ {
        Some(
            enum_view(
                name,
                "TextAlignment"@,
                "TextAlignment.Left"@,
                TEXT_ALIGN_FROM_ABI@,
                TEXT_ALIGN_TS_FROM_ABI@,
            ),
        )
    } else if t == "Baseline"@ {
        Some(
            enum_view(
                name,
                "Baseline"@,
                "Baseline.Alphabetic"@,
                BASELINE_FROM_ABI@,
                BASELINE_TS_FROM_ABI@,
            ),
        )
    } else if is_vec_type(t) {
        array_view(name, vec_elem(t))
    } else {
        None
    }
}

/// A Rust default expression rewritten into widget-side syntax.
pub open spec fn default_to_ts(d: Seq<char>) -> Seq<char> {
    replace_all(
        replace_all(
            replace_all(
                replace_all(
                    replace_all(
                        replace_all(
                            replace_all(d, "Color::WHITE"@, "Color.WHITE"@),
                            "Color::BLACK"@,
                            "Color.BLACK"@,
                        ),
                        "Color::RGB"@,
                        "new Color"@,
                    ),
                    "StrokeAlignment::"@,
                    "StrokeAlignment."@,
                ),
                "Font::"@,
                "Font."@,
            ),
            "TextAlignment::"@,
            "TextAlignment."@,
        ),
        "Baseline::"@,
        "Baseline."@,
    )
}

/// The expansion of a known field type with required/default handling: a
/// required field has no default; otherwise an `@default` annotation
/// overrides the type's own default.
pub open spec fn expand_spec(
    name: Seq<char>,
    t: Seq<char>,
    required: bool,
    default: Option<Seq<char>>,
) -> ExpansionView {
    let e = base_expansion(name, t)->0;
    ExpansionView {
        ta_type: e.ta_type,
        ta_default: if required {
            None
        } else {
            match default {
                Some(d) => Some(default_to_ts(d)),
                None => e.ta_default,
            }
        },
        abi: e.abi,
        rust_to_abi: e.rust_to_abi,
        abi_to_rust: e.abi_to_rust,
        ts_to_abi: e.ts_to_abi,
        abi_to_ts: e.abi_to_ts,
    }
}

/// A return type fits when it has a mapping that is one non-pointer scalar.
pub open spec fn fits_return(t: Seq<char>) -> bool {
    &&& base_expansion("ret"@, t) is Some
    &&& base_expansion("ret"@, t)->0.abi.len() == 1
    &&& base_expansion("ret"@, t)->0.abi[0].1 != "usize"@
}

/// Every mapped type yields one host-to-ABI expression and one
/// widget-to-ABI expression per ABI scalar, and one expression building the
/// value back on each side.
pub proof fn lemma_expansion_arity(name: Seq<char>, t: Seq<char>)
    requires
        base_expansion(name, t) is Some,
    ensures
        ({
            let e = base_expansion(name, t)->0;
            &&& e.abi.len() >= 1
            &&& e.rust_to_abi.exprs.len() == e.abi.len()
            &&& e.ts_to_abi.exprs.len() == e.abi.len()
            &&& e.abi_to_rust.exprs.len() == 1
            &&& e.abi_to_ts.exprs.len() == 1
        }),
{
}

/// A guest pointer in the ABI list is always `name_ptr`, right after the
/// byte length `name_len` that sizes its buffer.
pub proof fn lemma_pointer_follows_length(name: Seq<char>, t: Seq<char>, i: int)
    requires
        base_expansion(name, t) is Some,
        0 <= i < base_expansion(name, t)->0.abi.len(),
        base_expansion(name, t)->0.abi[i].1 == "usize"@,
    ensures
        i >= 1,
        base_expansion(name, t)->0.abi[i].0 == name + "_ptr"@,
        base_expansion(name, t)->0.abi[i - 1] == (name + "_len"@, "u32"@),
{
    reveal_strlit("usize");
    reveal_strlit("u32");
    reveal_strlit("u64");
    reveal_strlit("i32");
    reveal_strlit("i64");
}

// ── Building the text ─────────────────────────────────────────────────────────

/// `t` with `%n%` replaced by `name`.
fn fill(t: &str, name: &str) -> (r: String)
    ensures
        r@ == fill_spec(t@, name@),
{
    let mut vars: Vec<(&str, &str)> = Vec::new();
    vars.push(("n", name));
    assert(pair_views(vars@) =~= seq![("n"@, name@)]);
    render(t, vars.as_slice())
}

fn render2(t: &str, k1: &str, v1: &str, k2: &str, v2: &str) -> (r: String)
    ensures
        r@ == render_spec(t@, seq![(k1@, v1@), (k2@, v2@)]),
{
    let mut vars: Vec<(&str, &str)> = Vec::new();
    vars.push((k1, v1));
    vars.push((k2, v2));
    assert(pair_views(vars@) =~= seq![(k1@, v1@), (k2@, v2@)]);
    render(t, vars.as_slice())
}

fn render3(t: &str, k1: &str, v1: &str, k2: &str, v2: &str, k3: &str, v3: &str) -> (r: String)
    ensures
        r@ == render_spec(t@, seq![(k1@, v1@), (k2@, v2@), (k3@, v3@)]),
{
    let mut vars: Vec<(&str, &str)> = Vec::new();
    vars.push((k1, v1));
    vars.push((k2, v2));
    vars.push((k3, v3));
    assert(pair_views(vars@) =~= seq![(k1@, v1@), (k2@, v2@), (k3@, v3@)]);
    render(t, vars.as_slice())
}

/// Decimal text of `n`.
fn decimal_string(n: usize) -> (r: String)
    ensures
        r@ == decimal(n as nat),
{
    let mut s = String::new();
    push_decimal(&mut s, n);
    assert(s@ =~= decimal(n as nat));
    s
}

fn lit(s: &str) -> (r: String)
    ensures
        r@ == s@,
{
    s.to_owned()
}

fn abi(name: String, ty: &'static str) -> (r: AbiField)
    ensures
        r@ == (name@, ty@),
{
    AbiField { name, ty }
}

fn exprs1(a: String) -> (r: Vec<String>)
    ensures
        r@.map_values(|e: String| e@) == seq![a@],
{
    let mut v = Vec::new();
    v.push(a);
    assert(v@.map_values(|e: String| e@) =~= seq![v@[0]@]);
    v
}

fn exprs2(a: String, b: String) -> (r: Vec<String>)
    ensures
        r@.map_values(|e: String| e@) == seq![a@, b@],
{
    let mut v = Vec::new();
    v.push(a);
    v.push(b);
    assert(v@.map_values(|e: String| e@) =~= seq![v@[0]@, v@[1]@]);
    v
}

fn exprs3(a: String, b: String, c: String) -> (r: Vec<String>)
    ensures
        r@.map_values(|e: String| e@) == seq![a@, b@, c@],
{
    let mut v = Vec::new();
    v.push(a);
    v.push(b);
    v.push(c);
    assert(v@.map_values(|e: String| e@) =~= seq![v@[0]@, v@[1]@, v@[2]@]);
    v
}

fn exprs4(a: String, b: String, c: String, d: String) -> (r: Vec<String>)
    ensures
        r@.map_values(|e: String| e@) == seq![a@, b@, c@, d@],
{
    let mut v = Vec::new();
    v.push(a);
    v.push(b);
    v.push(c);
    v.push(d);
    assert(v@.map_values(|e: String| e@) =~= seq![v@[0]@, v@[1]@, v@[2]@, v@[3]@]);
    v
}

fn conv(preamble: String, exprs: Vec<String>) -> (r: Conversion)
    ensures
        r@ == (ConversionView { preamble: preamble@, exprs: exprs@.map_values(|e: String| e@) }),
{
    Conversion { preamble, exprs }
}

fn expr(e: String) -> (r: Conversion)
    ensures
        r@ == single(e@),
{
    conv(String::new(), exprs1(e))
}

fn listed2(a: String, b: String) -> (r: Conversion)
    ensures
        r@ == listed(seq![a@, b@]),
{
    conv(String::new(), exprs2(a, b))
}

fn listed3(a: String, b: String, c: String) -> (r: Conversion)
    ensures
        r@ == listed(seq![a@, b@, c@]),
{
    conv(String::new(), exprs3(a, b, c))
}

fn listed4(a: String, b: String, c: String, d: String) -> (r: Conversion)
    ensures
        r@ == listed(seq![a@, b@, c@, d@]),
{
    conv(String::new(), exprs4(a, b, c, d))
}

fn abis1(a: AbiField) -> (r: Vec<AbiField>)
    ensures
        r@.map_values(|f: AbiField| f@) == seq![a@],
{
    let mut v = Vec::new();
    v.push(a);
    assert(v@.map_values(|f: AbiField| f@) =~= seq![v@[0]@]);
    v
}

fn abis2(a: AbiField, b: AbiField) -> (r: Vec<AbiField>)
    ensures
        r@.map_values(|f: AbiField| f@) == seq![a@, b@],
{
    let mut v = Vec::new();
    v.push(a);
    v.push(b);
    assert(v@.map_values(|f: AbiField| f@) =~= seq![v@[0]@, v@[1]@]);
    v
}

fn abis3(a: AbiField, b: AbiField, c: AbiField) -> (r: Vec<AbiField>)
    ensures
        r@.map_values(|f: AbiField| f@) == seq![a@, b@, c@],
{
    let mut v = Vec::new();
    v.push(a);
    v.push(b);
    v.push(c);
    assert(v@.map_values(|f: AbiField| f@) =~= seq![v@[0]@, v@[1]@, v@[2]@]);
    v
}

fn abis4(a: AbiField, b: AbiField, c: AbiField, d: AbiField) -> (r: Vec<AbiField>)
    ensures
        r@.map_values(|f: AbiField| f@) == seq![a@, b@, c@, d@],
{
    let mut v = Vec::new();
    v.push(a);
    v.push(b);
    v.push(c);
    v.push(d);
    assert(v@.map_values(|f: AbiField| f@) =~= seq![v@[0]@, v@[1]@, v@[2]@, v@[3]@]);
    v
}

fn buffer_abis(name: &str) -> (r: Vec<AbiField>)
    ensures
        r@.map_values(|f: AbiField| f@) == buffer_abi(name@),
{
    abis2(abi(concat(name, "_len"), "u32"), abi(concat(name, "_ptr"), "usize"))
}

// ── One function per type family ──────────────────────────────────────────────

fn int_expansion(name: &str, ty: &'static str) -> (e: Expansion)
    ensures
        e@ == int_view(name@, ty@),
{
    Expansion {
        ta_type: lit(ty),
        ta_default: Some(lit("0")),
        abi: abis1(abi(lit(name), ty)),
        rust_to_abi: expr(concat("%v% as ", ty)),
        abi_to_rust: expr(fill(INT_FROM_ABI, name)),
        ts_to_abi: expr(lit("%v%")),
        abi_to_ts: expr(lit(name)),
    }
}

fn bool_expansion(name: &str) -> (e: Expansion)
    ensures
        e@ == bool_view(name@),
{
    Expansion {
        ta_type: lit("bool"),
        ta_default: Some(lit("false")),
        abi: abis1(abi(lit(name), "u32")),
        rust_to_abi: expr(lit(BOOL_TO_ABI)),
        abi_to_rust: expr(fill(BOOL_FROM_ABI, name)),
        ts_to_abi: expr(lit("%v% ? 1 : 0")),
        abi_to_ts: expr(fill(BOOL_FROM_ABI, name)),
    }
}

fn color_expansion(name: &str) -> (e: Expansion)
    ensures
        e@ == color_view(name@),
{
    Expansion {
        ta_type: lit("Color"),
        ta_default: Some(lit("Color.WHITE")),
        abi: abis3(
            abi(concat(name, "_r"), "u32"),
            abi(concat(name, "_g"), "u32"),
            abi(concat(name, "_b"), "u32"),
        ),
        rust_to_abi: listed3(lit(COLOR_R_TO_ABI), lit(COLOR_G_TO_ABI), lit(COLOR_B_TO_ABI)),
        abi_to_rust: expr(fill(COLOR_FROM_ABI, name)),
        ts_to_abi: listed3(lit("%v%.r"), lit("%v%.g"), lit("%v%.b")),
        abi_to_ts: expr(fill(COLOR_TS_FROM_ABI, name)),
    }
}

fn point_expansion(name: &str) -> (e: Expansion)
    ensures
        e@ == point_view(name@),
{
    Expansion {
        ta_type: lit("Point"),
        ta_default: Some(lit("new Point(0, 0)")),
        abi: abis2(abi(concat(name, "_x"), "u32"), abi(concat(name, "_y"), "u32")),
        rust_to_abi: listed2(lit("(%v%).x"), lit("(%v%).y")),
        abi_to_rust: expr(fill(POINT_FROM_ABI, name)),
        ts_to_abi: listed2(lit("%v%.x"), lit("%v%.y")),
        abi_to_ts: expr(fill(POINT_TS_FROM_ABI, name)),
    }
}

fn rect_expansion(name: &str) -> (e: Expansion)
    ensures
        e@ == rect_view(name@),
{
    Expansion {
        ta_type: lit("Rect"),
        ta_default: Some(lit("new Rect(0, 0, 0, 0)")),
        abi: abis4(
            abi(concat(name, "_x"), "u32"),
            abi(concat(name, "_y"), "u32"),
            abi(concat(name, "_width"), "u32"),
            abi(concat(name, "_height"), "u32"),
        ),
        rust_to_abi: listed4(
            lit("(%v%).origin.x"),
            lit("(%v%).origin.y"),
            lit("(%v%).size.width"),
            lit("(%v%).size.height"),
        ),
        abi_to_rust: expr(fill(RECT_FROM_ABI, name)),
        ts_to_abi: listed4(lit("%v%.x"), lit("%v%.y"), lit("%v%.width"), lit("%v%.height")),
        abi_to_ts: expr(fill(RECT_TS_FROM_ABI, name)),
    }
}

/// Host-side preamble that borrows `name_len` guest bytes at `name_ptr`.
fn read_guest_bytes(name: &str) -> (r: String)
    ensures
        r@ == guest_bytes_spec(name@),
{
    fill(GUEST_BYTES, name)
}

fn str_expansion(name: &str) -> (e: Expansion)
    ensures
        e@ == str_view(name@),
{
    let guest = read_guest_bytes(name);
    let decode = fill(STR_DECODE, name);
    Expansion {
        ta_type: lit("string"),
        ta_default: Some(lit("\"\"")),
        abi: buffer_abis(name),
        rust_to_abi: listed2(lit("(%v%).len() as u32"), lit("(%v%).as_bytes().to_vec()")),
        abi_to_rust: conv(concat(guest.as_str(), decode.as_str()), exprs1(concat(name, "_buf"))),
        ts_to_abi: conv(
            fill(STR_TS_ENCODE, name),
            exprs2(fill(STR_TS_LEN, name), fill(STR_TS_PTR, name)),
        ),
        abi_to_ts: expr(fill(STR_TS_FROM_ABI, name)),
    }
}

fn duration_expansion(name: &str) -> (e: Expansion)
    ensures
        e@ == duration_view(name@),
{
    Expansion {
        ta_type: lit("Duration"),
        ta_default: Some(lit("new Duration(0)")),
        abi: abis1(abi(lit(name), "u64")),
        rust_to_abi: expr(lit("(%v%).as_ticks()")),
        abi_to_rust: expr(fill(DURATION_FROM_ABI, name)),
        ts_to_abi: expr(lit("%v%.ticks")),
        abi_to_ts: expr(fill(DURATION_TS_FROM_ABI, name)),
    }
}

fn id_expansion(name: &str, from_abi: &str) -> (e: Expansion)
    ensures
        e@ == id_view(name@, from_abi@),
{
    Expansion {
        ta_type: lit("u32"),
        ta_default: Some(lit("0")),
        abi: abis1(abi(lit(name), "u32")),
        rust_to_abi: expr(lit("(%v%).0")),
        abi_to_rust: expr(fill(from_abi, name)),
        ts_to_abi: expr(lit("%v%")),
        abi_to_ts: expr(lit(name)),
    }
}

fn enum_expansion(
    name: &str,
    ta_type: &str,
    ta_default: &str,
    from_abi: &str,
    ts_from_abi: &str,
) -> (e: Expansion)
    ensures
        e@ == enum_view(name@, ta_type@, ta_default@, from_abi@, ts_from_abi@),
{
    Expansion {
        ta_type: lit(ta_type),
        ta_default: Some(lit(ta_default)),
        abi: abis1(abi(lit(name), "u32")),
        rust_to_abi: expr(lit("%v% as u32")),
        abi_to_rust: expr(fill(from_abi, name)),
        ts_to_abi: expr(lit("%v% as u32")),
        abi_to_ts: expr(fill(ts_from_abi, name)),
    }
}

/// (widget element type, byte size, shift) of an integer array element.
fn int_elem(elem: &str) -> (r: Option<(&'static str, usize, u32)>)
    ensures
        match r {
            Some((t, size, shift)) => int_elem_spec(elem@) == Some((t@, size as nat, shift as nat)),
            None => int_elem_spec(elem@) is None,
        },
{
    if str_eq(elem, "u8") {
        Some(("u8", 1, 0))
    } else if str_eq(elem, "i8") {
        Some(("i8", 1, 0))
    } else if str_eq(elem, "u16") {
        Some(("u16", 2, 1))
    } else if str_eq(elem, "i16") {
        Some(("i16", 2, 1))
    } else if str_eq(elem, "u32") || str_eq(elem, "usize") {
        Some(("u32", 4, 2))
    } else if str_eq(elem, "i32") {
        Some(("i32", 4, 2))
    } else if str_eq(elem, "u64") {
        Some(("u64", 8, 3))
    } else if str_eq(elem, "i64") {
        Some(("i64", 8, 3))
    } else {
        None
    }
}

/// Host-side loop that parses the packed strings of `name_bytes` into `out`.
fn rust_parse_packed_strings(name: &str, out: &str) -> (r: String)
    ensures
        r@ == packed_strings_spec(name@, out@),
{
    render2(PACKED_STRINGS_DECODE, "n", name, "out", out)
}

/// Widget-side loop that packs the encoded strings of `__name_enc`.
fn ts_pack_strings(name: &str) -> (r: String)
    ensures
        r@ == fill_spec(TS_PACK_STRINGS@, name@),
{
    fill(TS_PACK_STRINGS, name)
}

fn int_array_expansion(name: &str, elem: &str, ts_elem: &'static str, size: usize, shift: u32) -> (e:
    Expansion)
    ensures
        e@ == int_array_view(name@, elem@, ts_elem@, size as nat, shift as nat),
{
    let size_text = decimal_string(size);
    let shift_text = decimal_string(shift as usize);
    let mut size_vars: Vec<(&str, &str)> = Vec::new();
    size_vars.push(("size", size_text.as_str()));
    assert(pair_views(size_vars@) =~= seq![("size"@, decimal(size as nat))]);
    let mut shift_vars: Vec<(&str, &str)> = Vec::new();
    shift_vars.push(("shift", shift_text.as_str()));
    assert(pair_views(shift_vars@) =~= seq![("shift"@, decimal(shift as nat))]);
    let guest = read_guest_bytes(name);
    let decode = render3(INT_ARRAY_DECODE, "n", name, "elem", elem, "size", size_text.as_str());
    Expansion {
        ta_type: concat(ts_elem, "[]"),
        ta_default: Some(lit("[]")),
        abi: buffer_abis(name),
        rust_to_abi: listed2(render(INT_ARRAY_LEN, size_vars.as_slice()), lit(INT_ARRAY_BYTES)),
        abi_to_rust: conv(concat(guest.as_str(), decode.as_str()), exprs1(concat(name, "_vec"))),
        ts_to_abi: listed2(render(INT_ARRAY_TS_LEN, shift_vars.as_slice()), lit("(%v%).dataStart")),
        abi_to_ts: conv(
            render3(
                INT_ARRAY_TS_DECODE,
                "n",
                name,
                "ts_elem",
                ts_elem,
                "shift",
                shift_text.as_str(),
            ),
            exprs1(concat(name, "_arr")),
        ),
    }
}

fn string_array_expansion(name: &str) -> (e: Expansion)
    ensures
        e@ == string_array_view(name@),
{
    let out = concat(name, "_vec");
    let guest = read_guest_bytes(name);
    let parse = rust_parse_packed_strings(name, out.as_str());
    let encode = fill(STR_ARRAY_TS_ENCODE, name);
    let pack = ts_pack_strings(name);
    Expansion {
        ta_type: lit("string[]"),
        ta_default: Some(lit("[]")),
        abi: buffer_abis(name),
        rust_to_abi: listed2(lit(STR_ARRAY_LEN), lit(STR_ARRAY_BYTES)),
        abi_to_rust: conv(concat(guest.as_str(), parse.as_str()), exprs1(concat(name, "_vec"))),
        ts_to_abi: conv(
            concat(encode.as_str(), pack.as_str()),
            exprs2(fill(STR_TS_LEN, name), fill(STR_TS_PTR, name)),
        ),
        abi_to_ts: conv(fill(STR_ARRAY_TS_DECODE, name), exprs1(concat(name, "_arr"))),
    }
}

fn string_pair_array_expansion(name: &str) -> (e: Expansion)
    ensures
        e@ == pair_array_view(name@),
{
    let flat = concat(name, "_flat");
    let guest = read_guest_bytes(name);
    let parse = rust_parse_packed_strings(name, flat.as_str());
    let regroup = fill(PAIR_ARRAY_REGROUP, name);
    let head = concat(guest.as_str(), parse.as_str());
    let encode = fill(PAIR_ARRAY_TS_ENCODE, name);
    let pack = ts_pack_strings(name);
    Expansion {
        ta_type: lit("string[][]"),
        ta_default: Some(lit("[]")),
        abi: buffer_abis(name),
        rust_to_abi: listed2(lit(PAIR_ARRAY_LEN), lit(PAIR_ARRAY_BYTES)),
        abi_to_rust: conv(concat(head.as_str(), regroup.as_str()), exprs1(concat(name, "_vec"))),
        ts_to_abi: conv(
            concat(encode.as_str(), pack.as_str()),
            exprs2(fill(STR_TS_LEN, name), fill(STR_TS_PTR, name)),
        ),
        abi_to_ts: conv(fill(PAIR_ARRAY_TS_DECODE, name), exprs1(concat(name, "_arr"))),
    }
}

/// The expansion of an array whose element type is supported.
fn array_expansion(name: &str, elem: &str, context: &str) -> (e: Expansion)
    requires
        array_view(name@, elem@) is Some,
    ensures
        e@ == array_view(name@, elem@)->0,
{
    if str_eq(elem, "str") || str_eq(elem, "String") {
        string_array_expansion(name)
    } else if str_eq(elem, "(String, String)") || str_eq(elem, "(str, str)") {
        string_pair_array_expansion(name)
    } else {
        match int_elem(elem) {
            Some((ts_elem, size, shift)) => int_array_expansion(name, elem, ts_elem, size, shift),
            None => {
                assert(false);
                string_array_expansion(name)
            },
        }
    }
}

/// The element type of `Vec<elem>`, or `None` when `t` is not of that form.
fn vec_element(t: &str) -> (r: Option<String>)
    ensures
        match r {
            Some(e) => is_vec_type(t@) && e@ == vec_elem(t@),
            None => !is_vec_type(t@),
        },
{
    let c = chars_of(t);
    let n = c.len();
    if n >= 5 && c[0] == 'V' && c[1] == 'e' && c[2] == 'c' && c[3] == '<' && c[n - 1] == '>' {
        Some(crate::text::string_from(&c, 4, n - 1))
    } else {
        None
    }
}

/// The type's own expansion, before required/default handling.
fn base_expansion_of(name: &str, t: &str, context: &str) -> (e: Expansion)
    requires
        base_expansion(name@, t@) is Some,
    ensures
        e@ == base_expansion(name@, t@)->0,
{
    if str_eq(t, "u32") || str_eq(t, "u8") || str_eq(t, "u16") || str_eq(t, "usize") {
        int_expansion(name, "u32")
    } else if str_eq(t, "u64") {
        int_expansion(name, "u64")
    } else if str_eq(t, "i32") || str_eq(t, "i8") || str_eq(t, "i16") {
        int_expansion(name, "i32")
    } else if str_eq(t, "i64") {
        int_expansion(name, "i64")
    } else if str_eq(t, "bool") {
        bool_expansion(name)
    } else if str_eq(t, "Color") {
        color_expansion(name)
    } else if str_eq(t, "Point") {
        point_expansion(name)
    } else if str_eq(t, "Rect") {
        rect_expansion(name)
    } else if str_eq(t, "str") || str_eq(t, "String") {
        str_expansion(name)
    } else if str_eq(t, "Duration") {
        duration_expansion(name)
    } else if str_eq(t, "TimerId") {
        id_expansion(name, TIMER_ID_FROM_ABI)
    } else if str_eq(t, "RequestId") {
        id_expansion(name, REQUEST_ID_FROM_ABI)
    } else if str_eq(t, "StrokeAlignment") {
        enum_expansion(
            name,
            "StrokeAlignment",
            "StrokeAlignment.Center",
            STROKE_FROM_ABI,
            STROKE_TS_FROM_ABI,
        )
    } else if str_eq(t, "Font") {
        enum_expansion(name, "Font", "Font.Font6x10", FONT_FROM_ABI, FONT_TS_FROM_ABI)
    } else if str_eq(t, "TextAlignment") {
        enum_expansion(
            name,
            "TextAlignment",
            "TextAlignment.Left",
            TEXT_ALIGN_FROM_ABI,
            TEXT_ALIGN_TS_FROM_ABI,
        )
    } else if str_eq(t, "Baseline") {
        enum_expansion(
            name,
            "Baseline",
            "Baseline.Alphabetic",
            BASELINE_FROM_ABI,
            BASELINE_TS_FROM_ABI,
        )
    } else {
        match vec_element(t) {
            Some(elem) => array_expansion(name, elem.as_str(), context),
            None => {
                assert(false);
                bool_expansion(name)
            },
        }
    }
}

/// Rewrites a Rust default expression into widget-side syntax.
fn rust_default_to_ts(default: &str) -> (r: String)
    ensures
        r@ == default_to_ts(default@),
{
    proof {
        reveal_strlit("Color::WHITE");
        reveal_strlit("Color::BLACK");
        reveal_strlit("Color::RGB");
        reveal_strlit("StrokeAlignment::");
        reveal_strlit("Font::");
        reveal_strlit("TextAlignment::");
        reveal_strlit("Baseline::");
    }
    let s = replace_str(default, "Color::WHITE", "Color.WHITE");
    let s = replace_str(s.as_str(), "Color::BLACK", "Color.BLACK");
    let s = replace_str(s.as_str(), "Color::RGB", "new Color");
    let s = replace_str(s.as_str(), "StrokeAlignment::", "StrokeAlignment.");
    let s = replace_str(s.as_str(), "Font::", "Font.");
    let s = replace_str(s.as_str(), "TextAlignment::", "TextAlignment.");
    replace_str(s.as_str(), "Baseline::", "Baseline.")
}

/// Expands a field `name` of type `ty_name` into all per-generator data.
/// `context` names the owner of the field; a required field gets no default
/// and an `@default` value overrides the type's own.
pub fn expand(
    name: &str,
    ty_name: &str,
    context: &str,
    required: bool,
    default: Option<&str>,
) -> (e: Expansion)
    requires
        base_expansion(name@, ty_name@) is Some,
    ensures
        e@ == expand_spec(name@, ty_name@, required, opt_str_view(default)),
{
    let base = base_expansion_of(name, ty_name, context);
    let ta_default = if required {
        None
    } else {
        match default {
            Some(d) => Some(rust_default_to_ts(d)),
            None => base.ta_default,
        }
    };
    Expansion {
        ta_type: base.ta_type,
        ta_default,
        abi: base.abi,
        rust_to_abi: base.rust_to_abi,
        abi_to_rust: base.abi_to_rust,
        ts_to_abi: base.ts_to_abi,
        abi_to_ts: base.abi_to_ts,
    }
}

/// Expands a return type: a required value named `ret` that fits in one
/// non-pointer scalar.
pub fn expand_return(ty_name: &str, method_name: &str) -> (e: Expansion)
    requires
        fits_return(ty_name@),
    ensures
        e@ == expand_spec("ret"@, ty_name@, true, None),
        e@.abi.len() == 1,
{
    expand("ret", ty_name, method_name, true, None)
}

/// Whether a field `name` of type `ty_name` has a mapping.
pub fn is_known_type(name: &str, ty_name: &str) -> (r: bool)
    ensures
        r == (base_expansion(name@, ty_name@) is Some),
{
    if str_eq(ty_name, "u32") || str_eq(ty_name, "u8") || str_eq(ty_name, "u16") || str_eq(
        ty_name,
        "usize",
    ) || str_eq(ty_name, "u64") || str_eq(ty_name, "i32") || str_eq(ty_name, "i8") || str_eq(
        ty_name,
        "i16",
    ) || str_eq(ty_name, "i64") || str_eq(ty_name, "bool") || str_eq(ty_name, "Color") || str_eq(
        ty_name,
        "Point",
    ) || str_eq(ty_name, "Rect") || str_eq(ty_name, "str") || str_eq(ty_name, "String") || str_eq(
        ty_name,
        "Duration",
    ) || str_eq(ty_name, "TimerId") || str_eq(ty_name, "RequestId") || str_eq(
        ty_name,
        "StrokeAlignment",
    ) || str_eq(ty_name, "Font") || str_eq(ty_name, "TextAlignment") || str_eq(
        ty_name,
        "Baseline",
    ) {
        return true;
    }
    match vec_element(ty_name) {
        None => false,
        Some(elem) => {
            let e = elem.as_str();
            str_eq(e, "str") || str_eq(e, "String") || str_eq(e, "(String, String)") || str_eq(
                e,
                "(str, str)",
            ) || int_elem(e).is_some()
        },
    }
}

/// Whether `ty_name` can be returned: a mapping that is one non-pointer scalar.
pub fn return_fits(ty_name: &str) -> (r: bool)
    ensures
        r == fits_return(ty_name@),
{
    if !is_known_type("ret", ty_name) {
        return false;
    }
    let e = expand("ret", ty_name, "", true, None);
    if e.abi.len() != 1 {
        return false;
    }
    assert(e.abi@.map_values(|a: AbiField| a@)[0] == e.abi@[0]@);
    !str_eq(e.abi[0].ty, "usize")
}

} // verus!

verus! {

/// How a host-side expression refers to the typed value `%v%`: never
/// directly followed by `.`, and in parentheses only where a `.` follows
/// (so that a place expression such as `*field` can stand in for it).
pub open spec fn value_refs_ok(s: Seq<char>) -> bool {
    forall|i: int|
        0 <= i && i + 3 <= s.len() && #[trigger] s[i] == '%' && s[i + 1] == 'v' && s[i + 2] == '%'
            ==> (i + 3 < s.len() ==> s[i + 3] != '.') && (1 <= i && i + 3 < s.len() && s[i - 1]
            == '(' && s[i + 3] == ')' ==> i + 4 < s.len() && s[i + 4] == '.')
}

/// `pat` does not start at any position of `s` before `n`.
pub open spec fn no_match_before(s: Seq<char>, pat: Seq<char>, n: int) -> bool {
    forall|i: int|
        0 <= i < n && i + pat.len() <= s.len() ==> #[trigger] s.skip(i).take(pat.len() as int)
            != pat
}

/// Replacing in `a + b` where no occurrence of `pat` starts inside `a`
/// leaves `a` as it is.
proof fn lemma_replace_after_prefix(a: Seq<char>, b: Seq<char>, pat: Seq<char>, rep: Seq<char>)
    requires
        pat.len() > 0,
        no_match_before(a + b, pat, a.len() as int),
    ensures
        replace_all(a + b, pat, rep) == a + replace_all(b, pat, rep),
    decreases a.len(),
{
    if a.len() > 0 {
        let s = a + b;
        assert(s.skip(0) =~= s);
        crate::codegen::lemma_replace_step(s, pat, rep);
        assert(s.skip(1) =~= a.skip(1) + b);
        assert forall|i: int|
            0 <= i < a.len() - 1 && i + pat.len() <= (a.skip(1) + b).len() implies #[trigger] (a.skip(
            1,
        ) + b).skip(i).take(pat.len() as int) != pat by {
            assert((a.skip(1) + b).skip(i) =~= s.skip(i + 1));
        }
        lemma_replace_after_prefix(a.skip(1), b, pat, rep);
        assert(seq![s[0]] + (a.skip(1) + replace_all(b, pat, rep)) =~= a + replace_all(b, pat, rep));
    } else {
        assert(a + b =~= b);
    }
}

/// The host-side length expression of an integer array with element size
/// `size`.
proof fn lemma_int_array_len_text(size: nat)
    requires
        size == 1 || size == 2 || size == 4 || size == 8,
    ensures
        value_refs_ok(render_spec(INT_ARRAY_LEN@, seq![("size"@, decimal(size))])),
{
    reveal_strlit("((%v%).len() * %size%) as u32");
    reveal_strlit("((%v%).len() * ");
    reveal_strlit("%size%");
    reveal_strlit(") as u32");
    reveal_strlit("size");
    let pat = crate::codegen::placeholder("size"@);
    assert(pat =~= "%size%"@);
    let a = "((%v%).len() * "@;
    let b = ") as u32"@;
    let d = decimal(size);
    assert(INT_ARRAY_LEN@ =~= a + (pat + b));
    assert(no_match_before(a + (pat + b), pat, a.len() as int)) by {
        assert forall|i: int|
            0 <= i < a.len() && i + pat.len() <= (a + (pat + b)).len() implies #[trigger] (a + (pat
            + b)).skip(i).take(pat.len() as int) != pat by {
            let w = (a + (pat + b)).skip(i).take(pat.len() as int);
            assert(w[1] == (a + (pat + b))[i + 1]);
            assert(w[0] == (a + (pat + b))[i]);
        }
    }
    lemma_replace_after_prefix(a, pat + b, pat, d);
    crate::codegen::lemma_replace_step(pat + b, pat, d);
    assert((pat + b).take(pat.len() as int) =~= pat);
    assert((pat + b).skip(pat.len() as int) =~= b);
    assert(no_match_before(b + seq![], pat, b.len() as int)) by {
        assert forall|i: int|
            0 <= i < b.len() && i + pat.len() <= (b + seq![]).len() implies #[trigger] (b
            + seq![]).skip(i).take(pat.len() as int) != pat by {
            let w = (b + seq![]).skip(i).take(pat.len() as int);
            assert(w[0] == (b + seq![])[i]);
            assert(w[0] != pat[0]);
        }
    }
    lemma_replace_after_prefix(b, seq![], pat, d);
    assert(b + seq![] =~= b);
    assert(replace_all(seq![], pat, d) =~= seq![]);
    assert(render_spec(INT_ARRAY_LEN@, seq![("size"@, d)]) == replace_all(INT_ARRAY_LEN@, pat, d)) by {
        reveal_with_fuel(render_spec, 2);
        assert(seq![("size"@, d)].drop_first() =~= seq![]);
    }
    let r = a + (d + b);
    assert(d.len() == 1 && d[0] != '%');
    assert(render_spec(INT_ARRAY_LEN@, seq![("size"@, d)]) =~= r);
    assert forall|i: int|
        0 <= i && i + 3 <= r.len() && #[trigger] r[i] == '%' && r[i + 1] == 'v' && r[i + 2] == '%'
            implies (i + 3 < r.len() ==> r[i + 3] != '.') && (1 <= i && i + 3 < r.len() && r[i
            - 1] == '(' && r[i + 3] == ')' ==> i + 4 < r.len() && r[i + 4] == '.') by {
        assert(i == 2);
    }
}

proof fn lemma_text_bool_to_abi()
    ensures
        value_refs_ok(BOOL_TO_ABI@),
{
    reveal_strlit("if %v% { 1u32 } else { 0u32 }");
}

proof fn lemma_text_color_r_to_abi()
    ensures
        value_refs_ok(COLOR_R_TO_ABI@),
{
    reveal_strlit("match %v% { crate::drawer::types::Color::Rgb(r, _, _) => r as u32, _ => 0 }");
}

proof fn lemma_text_color_g_to_abi()
    ensures
        value_refs_ok(COLOR_G_TO_ABI@),
{
    reveal_strlit("match %v% { crate::drawer::types::Color::Rgb(_, g, _) => g as u32, _ => 0 }");
}

proof fn lemma_text_color_b_to_abi()
    ensures
        value_refs_ok(COLOR_B_TO_ABI@),
{
    reveal_strlit("match %v% { crate::drawer::types::Color::Rgb(_, _, b) => b as u32, _ => 0 }");
}

proof fn lemma_text_int_array_bytes()
    ensures
        value_refs_ok(INT_ARRAY_BYTES@),
{
    reveal_strlit("(%v%).iter().flat_map(|__x| __x.to_le_bytes()).collect::<alloc::vec::Vec<u8>>()");
}

proof fn lemma_text_str_array_len()
    ensures
        value_refs_ok(STR_ARRAY_LEN@),
{
    reveal_strlit("(%v%).iter().map(|__s| 4 + __s.len()).sum::<usize>() as u32");
}

proof fn lemma_text_str_array_bytes()
    ensures
        value_refs_ok(STR_ARRAY_BYTES@),
{
    reveal_strlit("{ let mut __b: alloc::vec::Vec<u8> = alloc::vec::Vec::new(); for __s in (%v%).iter() { __b.extend_from_slice(&(__s.len() as u32).to_le_bytes()); __b.extend_from_slice(__s.as_bytes()); } __b }");
}

proof fn lemma_text_pair_array_len()
    ensures
        value_refs_ok(PAIR_ARRAY_LEN@),
{
    reveal_strlit("(%v%).iter().map(|__p| 8 + __p.0.len() + __p.1.len()).sum::<usize>() as u32");
}

proof fn lemma_text_pair_array_bytes()
    ensures
        value_refs_ok(PAIR_ARRAY_BYTES@),
{
    reveal_strlit("{ let mut __b: alloc::vec::Vec<u8> = alloc::vec::Vec::new(); for __p in (%v%).iter() { __b.extend_from_slice(&(__p.0.len() as u32).to_le_bytes()); __b.extend_from_slice(__p.0.as_bytes()); __b.extend_from_slice(&(__p.1.len() as u32).to_le_bytes()); __b.extend_from_slice(__p.1.as_bytes()); } __b }");
}

proof fn lemma_text_fields()
    ensures
        value_refs_ok("(%v%).x"@),
        value_refs_ok("(%v%).y"@),
        value_refs_ok("(%v%).origin.x"@),
        value_refs_ok("(%v%).origin.y"@),
        value_refs_ok("(%v%).size.width"@),
        value_refs_ok("(%v%).size.height"@),
        value_refs_ok("(%v%).len() as u32"@),
        value_refs_ok("(%v%).as_bytes().to_vec()"@),
        value_refs_ok("(%v%).as_ticks()"@),
        value_refs_ok("(%v%).0"@),
        value_refs_ok("%v% as u32"@),
{
    reveal_strlit("(%v%).x");
    reveal_strlit("(%v%).y");
    reveal_strlit("(%v%).origin.x");
    reveal_strlit("(%v%).origin.y");
    reveal_strlit("(%v%).size.width");
    reveal_strlit("(%v%).size.height");
    reveal_strlit("(%v%).len() as u32");
    reveal_strlit("(%v%).as_bytes().to_vec()");
    reveal_strlit("(%v%).as_ticks()");
    reveal_strlit("(%v%).0");
    reveal_strlit("%v% as u32");
}

proof fn lemma_text_int_casts()
    ensures
        value_refs_ok("%v% as "@ + "u32"@),
        value_refs_ok("%v% as "@ + "u64"@),
        value_refs_ok("%v% as "@ + "i32"@),
        value_refs_ok("%v% as "@ + "i64"@),
{
    reveal_strlit("%v% as ");
    reveal_strlit("u32");
    reveal_strlit("u64");
    reveal_strlit("i32");
    reveal_strlit("i64");
}

/// Every host-side expression of a mapped type refers to the typed value
/// `%v%` as the generators expect: never as `%v%.`, and as `(%v%)` only
/// where a `.` follows.
pub proof fn lemma_value_refs(name: Seq<char>, t: Seq<char>)
    requires
        base_expansion(name, t) is Some,
    ensures
        forall|k: int|
            0 <= k < base_expansion(name, t)->0.rust_to_abi.exprs.len() ==> value_refs_ok(
                #[trigger] base_expansion(name, t)->0.rust_to_abi.exprs[k],
            ),
{
    lemma_text_bool_to_abi();
    lemma_text_color_r_to_abi();
    lemma_text_color_g_to_abi();
    lemma_text_color_b_to_abi();
    lemma_text_int_array_bytes();
    lemma_text_str_array_len();
    lemma_text_str_array_bytes();
    lemma_text_pair_array_len();
    lemma_text_pair_array_bytes();
    lemma_text_fields();
    lemma_text_int_casts();
    if is_vec_type(t) && int_elem_spec(vec_elem(t)) is Some {
        let (_, size, _) = int_elem_spec(vec_elem(t))->0;
        lemma_int_array_len_text(size);
    }
}

} // verus!

verus! {

/// The scalar types that cross the wire.
pub open spec fn wire_scalar(ty: Seq<char>) -> bool {
    ty == "u32"@ || ty == "u64"@ || ty == "i32"@ || ty == "i64"@ || ty == "usize"@
}

proof fn lemma_suffixed_name(name: Seq<char>, suffix: Seq<char>)
    ensures
        name.is_prefix_of(name + suffix),
{
    assert((name + suffix).subrange(0, name.len() as int) =~= name);
}

/// Every ABI scalar of a mapped type has a wire scalar type and a name that
/// starts with the field's name.
pub proof fn lemma_abi_scalars(name: Seq<char>, t: Seq<char>)
    requires
        base_expansion(name, t) is Some,
    ensures
        forall|i: int|
            0 <= i < base_expansion(name, t)->0.abi.len() ==> wire_scalar(
                #[trigger] base_expansion(name, t)->0.abi[i].1,
            ) && name.is_prefix_of(base_expansion(name, t)->0.abi[i].0),
{
    lemma_suffixed_name(name, seq![]);
    assert(name + seq![] =~= name);
    lemma_suffixed_name(name, "_r"@);
    lemma_suffixed_name(name, "_g"@);
    lemma_suffixed_name(name, "_b"@);
    lemma_suffixed_name(name, "_x"@);
    lemma_suffixed_name(name, "_y"@);
    lemma_suffixed_name(name, "_width"@);
    lemma_suffixed_name(name, "_height"@);
    lemma_suffixed_name(name, "_len"@);
    lemma_suffixed_name(name, "_ptr"@);
}

} // verus!

verus! {

/// `e` is a widget-side conditional `%v% ? a : b` over one-digit literals,
/// and it sends `n` for the value `v`.
pub open spec fn ts_conditional_sends(e: Seq<char>, v: bool, n: nat) -> bool {
    exists|a: nat, b: nat|
        #![trigger crate::text::digit_char(a), crate::text::digit_char(b)]
        a < 10 && b < 10 && e == "%v% ? "@ + seq![crate::text::digit_char(a)] + " : "@ + seq![
            crate::text::digit_char(b),
        ] && n == (if v {
            a
        } else {
            b
        })
}

/// `e` is a host-side conditional `if %v% { a } else { b }` over one-digit
/// `u32` literals, and it sends `n` for the value `v`.
pub open spec fn host_conditional_sends(e: Seq<char>, v: bool, n: nat) -> bool {
    exists|a: nat, b: nat|
        #![trigger crate::text::digit_char(a), crate::text::digit_char(b)]
        a < 10 && b < 10 && e == "if %v% { "@ + seq![crate::text::digit_char(a)]
            + "u32 } else { "@ + seq![crate::text::digit_char(b)] + "u32 }"@ && n == (if v {
            a
        } else {
            b
        })
}

/// `e` reads the scalar `name` back as a truth value: `name != 0`.
pub open spec fn reads_nonzero(e: Seq<char>, name: Seq<char>) -> bool {
    e == name + " != 0"@
}

proof fn lemma_digit_char_one_zero(a: nat)
    requires
        a < 10,
    ensures
        crate::text::digit_char(a) == '1' ==> a == 1,
        crate::text::digit_char(a) == '0' ==> a == 0,
{
}

/// `%n% != 0` with `%n%` standing for `name`.
proof fn lemma_nonzero_text(name: Seq<char>)
    ensures
        fill_spec(BOOL_FROM_ABI@, name) == name + " != 0"@,
{
    reveal_strlit("%n% != 0");
    reveal_strlit(" != 0");
    reveal_strlit("n");
    let pat = crate::codegen::placeholder("n"@);
    assert(pat =~= "%n%"@) by {
        reveal_strlit("%n%");
    }
    let b = " != 0"@;
    let s = BOOL_FROM_ABI@;
    assert(s =~= pat + b) by {
        reveal_strlit("%n%");
    }
    crate::codegen::lemma_replace_step(s, pat, name);
    assert(s.take(pat.len() as int) =~= pat);
    assert(s.skip(pat.len() as int) =~= b);
    assert(no_match_before(b + seq![], pat, b.len() as int)) by {
        assert forall|i: int|
            0 <= i < b.len() && i + pat.len() <= (b + seq![]).len() implies #[trigger] (b
            + seq![]).skip(i).take(pat.len() as int) != pat by {
            let w = (b + seq![]).skip(i).take(pat.len() as int);
            assert(w[0] == (b + seq![])[i]);
            assert(w[0] != pat[0]);
        }
    }
    lemma_replace_after_prefix(b, seq![], pat, name);
    assert(b + seq![] =~= b);
    assert(replace_all(seq![], pat, name) =~= seq![]);
    assert(fill_spec(s, name) == replace_all(s, pat, name)) by {
        reveal_with_fuel(render_spec, 2);
        assert(seq![("n"@, name)].drop_first() =~= seq![]);
    }
}

/// A `bool` field round-trips in both directions: the sending side turns
/// `true` into a nonzero scalar and `false` into 0, and the receiving side
/// reads the scalar back as `scalar != 0`, so every value arrives as sent.
pub proof fn lemma_bool_round_trip(name: Seq<char>)
    ensures
        base_expansion(name, "bool"@) is Some,
        ({
            let e = base_expansion(name, "bool"@)->0;
            &&& e.abi == seq![(name, "u32"@)]
            &&& e.ts_to_abi.exprs.len() == 1
            &&& e.rust_to_abi.exprs.len() == 1
            &&& exists|n: nat| #[trigger] ts_conditional_sends(e.ts_to_abi.exprs[0], true, n)
            &&& exists|n: nat| #[trigger] ts_conditional_sends(e.ts_to_abi.exprs[0], false, n)
            &&& forall|v: bool, n: nat|
                #[trigger] ts_conditional_sends(e.ts_to_abi.exprs[0], v, n) ==> ((n != 0) == v)
            &&& reads_nonzero(e.abi_to_rust.exprs[0], name)
            &&& exists|n: nat| #[trigger] host_conditional_sends(e.rust_to_abi.exprs[0], true, n)
            &&& exists|n: nat| #[trigger] host_conditional_sends(e.rust_to_abi.exprs[0], false, n)
            &&& forall|v: bool, n: nat|
                #[trigger] host_conditional_sends(e.rust_to_abi.exprs[0], v, n) ==> ((n != 0) == v)
            &&& reads_nonzero(e.abi_to_ts.exprs[0], name)
        }),
{
    reveal_strlit("bool");
    reveal_strlit("u32");
    reveal_strlit("u8");
    reveal_strlit("u16");
    reveal_strlit("usize");
    reveal_strlit("u64");
    reveal_strlit("i32");
    reveal_strlit("i8");
    reveal_strlit("i16");
    reveal_strlit("i64");
    let e = base_expansion(name, "bool"@)->0;
    assert(e == bool_view(name));
    let ts = "%v% ? 1 : 0"@;
    let host = "if %v% { 1u32 } else { 0u32 }"@;
    reveal_strlit("%v% ? 1 : 0");
    reveal_strlit("if %v% { 1u32 } else { 0u32 }");
    reveal_strlit("%v% ? ");
    reveal_strlit(" : ");
    reveal_strlit("if %v% { ");
    reveal_strlit("u32 } else { ");
    reveal_strlit("u32 }");
    let one = crate::text::digit_char(1);
    let zero = crate::text::digit_char(0);
    assert(ts =~= "%v% ? "@ + seq![one] + " : "@ + seq![zero]);
    assert(host =~= "if %v% { "@ + seq![one] + "u32 } else { "@ + seq![zero] + "u32 }"@);
    assert(ts_conditional_sends(ts, true, 1nat));
    assert(ts_conditional_sends(ts, false, 0nat));
    assert(host_conditional_sends(host, true, 1nat));
    assert(host_conditional_sends(host, false, 0nat));
    assert forall|v: bool, n: nat| #[trigger] ts_conditional_sends(ts, v, n) implies ((n != 0) == v) by {
        let (a, b) = choose|a: nat, b: nat|
            #![trigger crate::text::digit_char(a), crate::text::digit_char(b)]
            a < 10 && b < 10 && ts == "%v% ? "@ + seq![crate::text::digit_char(a)] + " : "@ + seq![
                crate::text::digit_char(b),
            ] && n == (if v {
                a
            } else {
                b
            });
        assert(ts[6] == crate::text::digit_char(a));
        assert(ts[10] == crate::text::digit_char(b));
        lemma_digit_char_one_zero(a);
        lemma_digit_char_one_zero(b);
    }
    assert forall|v: bool, n: nat| #[trigger] host_conditional_sends(host, v, n) implies ((n != 0) == v) by {
        let (a, b) = choose|a: nat, b: nat|
            #![trigger crate::text::digit_char(a), crate::text::digit_char(b)]
            a < 10 && b < 10 && host == "if %v% { "@ + seq![crate::text::digit_char(a)]
                + "u32 } else { "@ + seq![crate::text::digit_char(b)] + "u32 }"@ && n == (if v {
                a
            } else {
                b
            });
        assert(host[9] == crate::text::digit_char(a));
        assert(host[23] == crate::text::digit_char(b));
        lemma_digit_char_one_zero(a);
        lemma_digit_char_one_zero(b);
    }
    lemma_nonzero_text(name);
    assert(e.abi =~= seq![(name, "u32"@)]);
    assert(e.ts_to_abi.exprs[0] == ts);
    assert(e.rust_to_abi.exprs[0] == host);
    assert(e.abi_to_rust.exprs[0] == fill_spec(BOOL_FROM_ABI@, name));
    assert(e.abi_to_ts.exprs[0] == fill_spec(BOOL_FROM_ABI@, name));
}

} // verus!
