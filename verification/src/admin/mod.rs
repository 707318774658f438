//! The decisions of the administration API: status, validation of requests,
//! allocation of widget ids, and the error answers.
use vstd::prelude::*;

use crate::config::{entry_error, WidgetEntry};
use crate::text::{append_str, chars_of, concat, contains_seq, decimal, occurs_at, push_decimal};

pub mod file;

verus! {

/// HTTP status 400.
pub const BAD_REQUEST: u16 = 400;

/// HTTP status 404.
pub const NOT_FOUND: u16 = 404;

/// HTTP status 500.
pub const INTERNAL_SERVER_ERROR: u16 = 500;

/// Answer to `GET /api/status`.
pub struct SystemStatusResponse {
    pub status: &'static str,
    pub uptime_ms: u64,
    pub ip: String,
    pub free_heap: usize,
    pub free_psram: usize,
    pub widget_count: usize,
}

/// Body of an error answer.
pub struct ApiError {
    pub error: String,
}

/// An error answer: HTTP status and body.
pub struct ApiErrorResponse(pub u16, pub ApiError);

/// A value answered as JSON.
pub struct Json<T>(pub T);

/// The error answer with `status` and `message`.
pub fn error_response(status: u16, message: String) -> (r: ApiErrorResponse)
    ensures
        r.0 == status,
        r.1.error@ == message@,
{
    ApiErrorResponse(status, ApiError { error: message })
}

/// "ok" while the network link is up, "disconnected" otherwise.
pub fn link_status(link_up: bool) -> (s: &'static str)
    ensures
        s@ == (if link_up {
            "ok"@
        } else {
            "disconnected"@
        }),
{
    if link_up {
        "ok"
    } else {
        "disconnected"
    }
}

/// The status answer for the given readings.
pub fn system_status(
    link_up: bool,
    uptime_ms: u64,
    ip: Option<String>,
    free_heap: usize,
    free_psram: usize,
    widget_count: usize,
) -> (r: SystemStatusResponse)
    ensures
        r.status@ == (if link_up {
            "ok"@
        } else {
            "disconnected"@
        }),
        r.uptime_ms == uptime_ms,
        r.ip@ == match ip {
            Some(a) => a@,
            None => "127.0.0.1"@,
        },
        r.free_heap == free_heap,
        r.free_psram == free_psram,
        r.widget_count == widget_count,
{
    let ip = match ip {
        Some(a) => a,
        None => "127.0.0.1".to_owned(),
    };
    SystemStatusResponse {
        status: link_status(link_up),
        uptime_ms,
        ip,
        free_heap,
        free_psram,
        widget_count,
    }
}

/// `Widget with ID <id> not found`.
pub open spec fn not_found_text(id: usize) -> Seq<char> {
    "Widget with ID "@ + decimal(id as nat) + " not found"@
}

/// The 404 answer for a widget id that is not placed.
pub fn widget_not_found(id: usize) -> (r: ApiErrorResponse)
    ensures
        r.0 == NOT_FOUND,
        r.1.error@ == not_found_text(id),
{
    let mut m = "Widget with ID ".to_owned();
    push_decimal(&mut m, id);
    append_str(&mut m, " not found");
    error_response(NOT_FOUND, m)
}

/// Largest of `ids`, or 0 when there are none.
pub open spec fn max_id(ids: Seq<usize>) -> nat
    decreases ids.len(),
{
    if ids.len() == 0 {
        0
    } else {
        let rest = max_id(ids.drop_last());
        if ids.last() as nat > rest {
            ids.last() as nat
        } else {
            rest
        }
    }
}

proof fn lemma_max_id_bounds(ids: Seq<usize>)
    ensures
        forall|i: int| 0 <= i < ids.len() ==> ids[i] <= max_id(ids),
        max_id(ids) == 0 || ids.contains(max_id(ids) as usize),
    decreases ids.len(),
{
    if ids.len() > 0 {
        lemma_max_id_bounds(ids.drop_last());
        assert forall|i: int| 0 <= i < ids.len() implies ids[i] <= max_id(ids) by {
            if i < ids.len() - 1 {
                assert(ids.drop_last()[i] == ids[i]);
            }
        }
        if max_id(ids) != 0 && max_id(ids) != ids.last() {
            let k = choose|k: int|
                0 <= k < ids.drop_last().len() && ids.drop_last()[k] == max_id(ids) as usize;
            assert(ids[k] == max_id(ids) as usize);
        }
    }
}

/// The id for a new widget: one more than the largest placed id (1 when
/// none is placed).
pub fn next_widget_id(ids: &Vec<usize>) -> (id: usize)
    requires
        forall|i: int| 0 <= i < ids@.len() ==> ids@[i] < usize::MAX,
    ensures
        id == max_id(ids@) + 1,
        forall|i: int| 0 <= i < ids@.len() ==> ids@[i] < id,
{
    let mut max: usize = 0;
    let mut i: usize = 0;
    while i < ids.len()
        invariant
            i <= ids@.len(),
            max == max_id(ids@.take(i as int)),
            forall|j: int| 0 <= j < ids@.len() ==> ids@[j] < usize::MAX,
        decreases ids@.len() - i,
    {
        assert(ids@.take(i + 1).drop_last() =~= ids@.take(i as int));
        if ids[i] > max {
            max = ids[i];
        }
        i = i + 1;
    }
    assert(ids@.take(i as int) =~= ids@);
    proof {
        lemma_max_id_bounds(ids@);
        if max != 0 {
            let k = choose|k: int| 0 <= k < ids@.len() && ids@[k] == max;
        }
    }
    max + 1
}

/// What adding `item` answers: the refusal for an invalid entry, otherwise
/// the id it gets.
pub fn plan_add_widget(item: &WidgetEntry, ids: &Vec<usize>) -> (r: Result<usize, ApiErrorResponse>)
    requires
        item.x + item.width <= u32::MAX,
        item.y + item.height <= u32::MAX,
        forall|i: int| 0 <= i < ids@.len() ==> ids@[i] < usize::MAX,
    ensures
        match entry_error(item.widget_type@, item.x, item.y, item.width, item.height) {
            Some(m) => r matches Err(e) && e.0 == BAD_REQUEST && e.1.error@ == m,
            None => r == Ok::<usize, ApiErrorResponse>((max_id(ids@) + 1) as usize),
        },
{
    match item.validate() {
        Err(e) => Err(error_response(BAD_REQUEST, e)),
        Ok(()) => Ok(next_widget_id(ids)),
    }
}

/// What replacing widget `id` by `item` answers when `exists` tells whether
/// it is placed: a refusal for an invalid entry, 404 for an unknown id.
pub fn plan_replace_widget(id: usize, item: &WidgetEntry, exists: bool) -> (r: Result<
    (),
    ApiErrorResponse,
>)
    requires
        item.x + item.width <= u32::MAX,
        item.y + item.height <= u32::MAX,
    ensures
        match entry_error(item.widget_type@, item.x, item.y, item.width, item.height) {
            Some(m) => r matches Err(e) && e.0 == BAD_REQUEST && e.1.error@ == m,
            None => if exists {
                r is Ok
            } else {
                r matches Err(e) && e.0 == NOT_FOUND && e.1.error@ == not_found_text(id)
            },
        },
{
    match item.validate() {
        Err(e) => Err(error_response(BAD_REQUEST, e)),
        Ok(()) => if exists {
            Ok(())
        } else {
            Err(widget_not_found(id))
        },
    }
}

/// What removing widget `id` answers when `exists` tells whether it is placed.
pub fn plan_remove_widget(id: usize, exists: bool) -> (r: Result<(), ApiErrorResponse>)
    ensures
        exists ==> r is Ok,
        !exists ==> (r matches Err(e) && e.0 == NOT_FOUND && e.1.error@ == not_found_text(id)),
{
    if exists {
        Ok(())
    } else {
        Err(widget_not_found(id))
    }
}

/// An upload name is refused when empty or when it holds `..`, `/` or `\`;
/// then it must end in `.wasm`.
pub open spec fn upload_error(name: Seq<char>) -> Option<Seq<char>> {
    if name.len() == 0 || contains_seq(name, seq!['.', '.']) || name.contains('/')
        || name.contains('\\') {
        Some("Invalid filename: directory traversal or path segments not allowed"@)
    } else if !(name.len() >= 5 && name.subrange(name.len() - 5, name.len() as int) == seq![
        '.',
        'w',
        'a',
        's',
        'm',
    ]) {
        Some("Only .wasm files can be uploaded to the widgets directory"@)
    } else {
        None
    }
}

/// Position `j` of `s` starts a forbidden piece: a separator or `..`.
pub open spec fn bad_at(s: Seq<char>, j: int) -> bool {
    s[j] == '/' || s[j] == '\\' || (j + 1 < s.len() && s[j] == '.' && s[j + 1] == '.')
}

/// Checks an uploaded file name; a valid name gives its path `/widgets/<name>`.
pub fn upload_path(name: &str) -> (r: Result<String, ApiErrorResponse>)
    ensures
        match upload_error(name@) {
            Some(m) => r matches Err(e) && e.0 == BAD_REQUEST && e.1.error@ == m,
            None => r matches Ok(p) && p@ == "/widgets/"@ + name@,
        },
{
    let c = chars_of(name);
    let n = c.len();
    let mut bad = n == 0;
    let mut i: usize = 0;
    while i < n
        invariant
            n == c@.len(),
            c@ == name@,
            i <= n,
            bad == (n == 0 || exists|j: int| 0 <= j < i && #[trigger] bad_at(c@, j)),
        decreases n - i,
    {
        if c[i] == '/' || c[i] == '\\' || (i + 1 < n && c[i] == '.' && c[i + 1] == '.') {
            assert(bad_at(c@, i as int));
            bad = true;
        }
        i = i + 1;
    }
    proof {
        assert(bad == (n == 0 || contains_seq(name@, seq!['.', '.']) || name@.contains('/')
            || name@.contains('\\'))) by {
            if contains_seq(name@, seq!['.', '.']) {
                let dots = seq!['.', '.'];
                let j = choose|j: int| #[trigger] occurs_at(name@, dots, j);
                assert(name@.subrange(j, j + 2)[0] == '.');
                assert(name@.subrange(j, j + 2)[1] == '.');
                assert(bad_at(c@, j));
            }
            if name@.contains('/') {
                let j = choose|j: int| 0 <= j < name@.len() && name@[j] == '/';
                assert(bad_at(c@, j));
            }
            if name@.contains('\\') {
                let j = choose|j: int| 0 <= j < name@.len() && name@[j] == '\\';
                assert(bad_at(c@, j));
            }
            if bad && n != 0 {
                let j = choose|j: int| 0 <= j < n && #[trigger] bad_at(c@, j);
                if c@[j] == '.' && j + 1 < n && c@[j + 1] == '.' {
                    assert(name@.subrange(j, j + 2) =~= seq!['.', '.']);
                    assert(occurs_at(name@, seq!['.', '.'], j));
                }
            }
        }
    }
    if bad {
        return Err(
            error_response(
                BAD_REQUEST,
                "Invalid filename: directory traversal or path segments not allowed".to_owned(),
            ),
        );
    }
    if !(n >= 5 && c[n - 5] == '.' && c[n - 4] == 'w' && c[n - 3] == 'a' && c[n - 2] == 's' && c[n
        - 1] == 'm') {
        proof {
            if n >= 5 && name@.subrange(n - 5, n as int) == seq!['.', 'w', 'a', 's', 'm'] {
                assert(name@.subrange(n - 5, n as int)[0] == c@[n - 5]);
                assert(name@.subrange(n - 5, n as int)[1] == c@[n - 4]);
                assert(name@.subrange(n - 5, n as int)[2] == c@[n - 3]);
                assert(name@.subrange(n - 5, n as int)[3] == c@[n - 2]);
                assert(name@.subrange(n - 5, n as int)[4] == c@[n - 1]);
            }
        }
        return Err(
            error_response(
                BAD_REQUEST,
                "Only .wasm files can be uploaded to the widgets directory".to_owned(),
            ),
        );
    }
    assert(name@.subrange(n - 5, n as int) =~= seq!['.', 'w', 'a', 's', 'm']);
    Ok(concat("/widgets/", name))
}

/// An accepted upload name cannot leave the widgets directory: it holds
/// no separator and no `..`, and ends in `.wasm`.
pub proof fn lemma_upload_stays_in_widgets(name: Seq<char>)
    requires
        upload_error(name) is None,
    ensures
        !name.contains('/'),
        !name.contains('\\'),
        !contains_seq(name, seq!['.', '.']),
        name.len() >= 5 && name.subrange(name.len() - 5, name.len() as int) == seq!['.', 'w', 'a', 's', 'm'],
{
}

} // verus!
