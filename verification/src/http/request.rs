//! Serialisation of an HTTP/1.0 request.
use vstd::prelude::*;
use vstd::string::StringExecFns;

use crate::http::{HttpRequestData, ParsedUrl};
use crate::text::{chars_of, decimal, push_decimal};

verus! {

/// Code of `c` after mapping ASCII upper case to lower case.
pub open spec fn ascii_lower(c: char) -> u32 {
    if 'A' <= c <= 'Z' {
        (c as u32 + 32) as u32
    } else {
        c as u32
    }
}

fn ascii_lower_exec(c: char) -> (r: u32)
    ensures
        r == ascii_lower(c),
{
    if 'A' <= c && c <= 'Z' {
        (c as u32) + 32
    } else {
        c as u32
    }
}

/// `str::eq_ignore_ascii_case`.
pub open spec fn eq_ignore_ascii_case(a: Seq<char>, b: Seq<char>) -> bool {
    a.len() == b.len() && forall|i: int| 0 <= i < a.len() ==> ascii_lower(#[trigger] a[i]) == ascii_lower(b[i])
}

pub open spec fn content_length_name() -> Seq<char> {
    seq!['c', 'o', 'n', 't', 'e', 'n', 't', '-', 'l', 'e', 'n', 'g', 't', 'h']
}

/// The header list already names a content length (in any letter case).
pub open spec fn has_content_length(headers: Seq<(Seq<char>, Seq<char>)>) -> bool {
    exists|i: int| 0 <= i < headers.len() && eq_ignore_ascii_case(#[trigger] headers[i].0, content_length_name())
}

/// `name: value\r\n` for each header, in order.
pub open spec fn header_lines(headers: Seq<(Seq<char>, Seq<char>)>) -> Seq<char>
    decreases headers.len(),
{
    if headers.len() == 0 {
        seq![]
    } else {
        header_lines(headers.drop_last()) + headers.last().0 + ": "@ + headers.last().1 + "\r\n"@
    }
}

pub open spec fn header_views(h: Seq<(String, String)>) -> Seq<(Seq<char>, Seq<char>)> {
    h.map_values(|p: (String, String)| (p.0@, p.1@))
}

/// The full HTTP/1.0 request for `method path` on `host`: request line, `Host`,
/// `Connection: close`, the caller's headers, a `Content-Length` (the body's
/// length in bytes) when the body is not empty and no such header was given,
/// a blank line and the body.
pub open spec fn request_text(
    method: Seq<char>,
    path: Seq<char>,
    host: Seq<char>,
    headers: Seq<(Seq<char>, Seq<char>)>,
    body: Seq<char>,
    body_bytes: nat,
) -> Seq<char> {
    let head = method + " "@ + path + " HTTP/1.0\r\nHost: "@ + host + "\r\nConnection: close\r\n"@
        + header_lines(headers);
    if body.len() == 0 {
        head + "\r\n"@
    } else if has_content_length(headers) {
        head + "\r\n"@ + body
    } else {
        head + "Content-Length: "@ + decimal(body_bytes) + "\r\n"@ + "\r\n"@ + body
    }
}

fn is_content_length(name: &str) -> (r: bool)
    ensures
        r == eq_ignore_ascii_case(name@, content_length_name()),
{
    let n = chars_of(name);
    let target: [char; 14] = ['c', 'o', 'n', 't', 'e', 'n', 't', '-', 'l', 'e', 'n', 'g', 't', 'h'];
    assert(target@ =~= content_length_name());
    if n.len() != 14 {
        return false;
    }
    let mut i: usize = 0;
    while i < 14
        invariant
            n@ == name@,
            n@.len() == 14,
            target@ == content_length_name(),
            i <= 14,
            forall|j: int| 0 <= j < i ==> ascii_lower(#[trigger] n@[j]) == ascii_lower(target@[j]),
        decreases 14 - i,
    {
        if ascii_lower_exec(n[i]) != ascii_lower_exec(target[i]) {
            return false;
        }
        i = i + 1;
    }
    true
}

/// Serialises the request that `write_http_request` sends for `req` to the
/// endpoint `parsed`.
pub fn build_http_request(parsed: &ParsedUrl, req: &HttpRequestData) -> (buf: String)
    ensures
        buf@ == request_text(
            req.method@,
            parsed.path@,
            parsed.host@,
            header_views(req.headers@),
            req.body@,
            vstd::utf8::encode_utf8(req.body@).len(),
        ),
{
    let mut buf = String::new();
    buf.append(req.method.as_str());
    buf.append(" ");
    buf.append(parsed.path);
    buf.append(" HTTP/1.0\r\nHost: ");
    buf.append(parsed.host);
    buf.append("\r\nConnection: close\r\n");
    let ghost head0 = buf@;
    let ghost hv = header_views(req.headers@);
    let mut has_length = false;
    let mut i: usize = 0;
    while i < req.headers.len()
        invariant
            i <= req.headers@.len(),
            hv == header_views(req.headers@),
            buf@ == head0 + header_lines(hv.take(i as int)),
            has_length <==> has_content_length(hv.take(i as int)),
        decreases req.headers@.len() - i,
    {
        let (name, value) = &req.headers[i];
        buf.append(name.as_str());
        buf.append(": ");
        buf.append(value.as_str());
        buf.append("\r\n");
        let hit = is_content_length(name.as_str());
        proof {
            assert(hv.take(i + 1).drop_last() =~= hv.take(i as int));
            assert(hv.take(i + 1).last() == (name@, value@));
            if hit {
                assert(hv.take(i + 1)[i as int] == (name@, value@));
            }
            if has_content_length(hv.take(i + 1)) && !hit {
                let j = choose|j: int|
                    0 <= j < i + 1 && eq_ignore_ascii_case(#[trigger] hv.take(i + 1)[j].0, content_length_name());
                assert(hv.take(i as int)[j] == hv.take(i + 1)[j]);
            }
            if has_content_length(hv.take(i as int)) {
                let j = choose|j: int|
                    0 <= j < i && eq_ignore_ascii_case(#[trigger] hv.take(i as int)[j].0, content_length_name());
                assert(hv.take(i + 1)[j] == hv.take(i as int)[j]);
            }
        }
        has_length = has_length || hit;
        i = i + 1;
    }
    assert(hv.take(i as int) =~= hv);
    if !req.body.as_str().is_empty() {
        if !has_length {
            buf.append("Content-Length: ");
            push_decimal(&mut buf, req.body.as_str().as_bytes().len());
            buf.append("\r\n");
        }
        buf.append("\r\n");
        buf.append(req.body.as_str());
    } else {
        buf.append("\r\n");
    }
    buf
}

} // verus!
