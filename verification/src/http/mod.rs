pub mod request;
pub mod response;

use vstd::prelude::*;
use vstd::string::StrSliceExecFns;

use crate::text::{chars_of, decimal, digit_char};

verus! {

/// Per-widget sequence number of an HTTP request.
#[derive(Clone, Copy, Debug, PartialEq, Eq, Structural, PartialOrd, Ord)]
pub struct RequestId(pub u32);

/// A request issued by a widget.
pub struct HttpRequestData {
    pub method: String,
    pub url: String,
    pub body: String,
    pub headers: Vec<(String, String)>,
}

/// Outcome of a request: headers and body on success, the error otherwise.
pub struct HttpResponse {
    pub request_id: RequestId,
    pub headers: Option<Vec<(String, String)>>,
    pub body: Option<String>,
    pub error: Option<HttpError>,
}

#[derive(Clone, Copy, Debug, PartialEq, Eq, Structural)]
pub enum HttpError {
    UnsupportedScheme,
    InvalidPort,
    DnsQueryFailed,
    NoDnsResult,
    ConnectFailed,
    WriteFailed,
    FlushFailed,
    TlsHandshakeFailed,
    ChannelFull,
}

/// HTTP access of one widget.
///
/// @wasm
pub trait Http {
    /// Queues a request and returns its id; the response arrives later as an event.
    ///
    /// @wasm builder_name="fetch"
    fn send_request(&mut self, data: HttpRequestData) -> RequestId;
}

/// The response a widget receives for a finished request: headers and body
/// when the exchange succeeded, the error otherwise.
pub fn response_from_outcome(
    request_id: RequestId,
    outcome: Result<(Vec<(String, String)>, String), HttpError>,
) -> (r: HttpResponse)
    ensures
        r.request_id == request_id,
        match outcome {
            Ok((h, b)) => r.headers == Some(h) && r.body == Some(b) && r.error is None,
            Err(e) => r.headers is None && r.body is None && r.error == Some(e),
        },
{
    match outcome {
        Ok((headers, body)) => HttpResponse {
            request_id,
            headers: Some(headers),
            body: Some(body),
            error: None,
        },
        Err(e) => HttpResponse { request_id, headers: None, body: None, error: Some(e) },
    }
}

/// Request ids of one widget: each request gets the previous id plus one,
/// wrapping at 2^32; the first is 1.
pub struct RequestIds {
    last: u32,
}

impl RequestIds {
    pub closed spec fn last_id(&self) -> u32 {
        self.last
    }

    pub fn new() -> (r: Self)
        ensures
            r.last_id() == 0,
    {
        RequestIds { last: 0 }
    }

    /// The id of the next request.
    pub fn next(&mut self) -> (id: RequestId)
        ensures
            id.0 == vstd::wrapping::u32_specs::wrapping_add(old(self).last_id(), 1),
            final(self).last_id() == id.0,
    {
        self.last = self.last.wrapping_add(1);
        RequestId(self.last)
    }
}

/// Requests that may wait in one widget's queue.
pub const CHANNEL_DEPTH: usize = 4;

/// Whether a widget's queue holding `pending` requests takes one more.
pub fn queue_has_room(pending: usize) -> (r: bool)
    ensures
        r == (pending < CHANNEL_DEPTH),
{
    pending < CHANNEL_DEPTH
}

/// The response reported at once for a request that found the widget's
/// queue full.
pub fn channel_full_response(request_id: RequestId) -> (r: HttpResponse)
    ensures
        r.request_id == request_id,
        r.headers is None,
        r.body is None,
        r.error == Some(HttpError::ChannelFull),
{
    response_from_outcome(request_id, Err(HttpError::ChannelFull))
}

impl HttpError {
    /// Human-readable description of the error.
    pub fn message(&self) -> (m: &'static str)
        ensures
            m@ == http_error_message(*self),
    {
        match self {
            HttpError::UnsupportedScheme => "unsupported scheme",
            HttpError::InvalidPort => "invalid port",
            HttpError::DnsQueryFailed => "DNS query failed",
            HttpError::NoDnsResult => "no DNS result",
            HttpError::ConnectFailed => "connect failed",
            HttpError::WriteFailed => "write failed",
            HttpError::FlushFailed => "flush failed",
            HttpError::TlsHandshakeFailed => "TLS handshake failed",
            HttpError::ChannelFull => "request queue full",
        }
    }
}

pub open spec fn http_error_message(e: HttpError) -> Seq<char> {
    match e {
        HttpError::UnsupportedScheme => "unsupported scheme"@,
        HttpError::InvalidPort => "invalid port"@,
        HttpError::DnsQueryFailed => "DNS query failed"@,
        HttpError::NoDnsResult => "no DNS result"@,
        HttpError::ConnectFailed => "connect failed"@,
        HttpError::WriteFailed => "write failed"@,
        HttpError::FlushFailed => "flush failed"@,
        HttpError::TlsHandshakeFailed => "TLS handshake failed"@,
        HttpError::ChannelFull => "request queue full"@,
    }
}

/// The parts of an `http://` or `https://` URL that a request needs.
pub struct ParsedUrl<'a> {
    pub is_https: bool,
    pub host: &'a str,
    pub port: u16,
    pub path: &'a str,
}

/// `s` begins with `p`.
pub open spec fn has_prefix(s: Seq<char>, p: Seq<char>) -> bool {
    p.len() <= s.len() && s.take(p.len() as int) == p
}

/// Index of the first `c` in `s`, or -1.
pub open spec fn find_first(s: Seq<char>, c: char) -> int
    decreases s.len(),
{
    if s.len() == 0 {
        -1
    } else if find_first(s.drop_last(), c) >= 0 {
        find_first(s.drop_last(), c)
    } else if s.last() == c {
        s.len() - 1
    } else {
        -1
    }
}

/// Index of the last `c` in `s`, or -1.
pub open spec fn find_last(s: Seq<char>, c: char) -> int
    decreases s.len(),
{
    if s.len() == 0 {
        -1
    } else if s.last() == c {
        s.len() - 1
    } else {
        find_last(s.drop_last(), c)
    }
}

pub open spec fn is_digit(c: char) -> bool {
    '0' <= c <= '9'
}

/// Value of the decimal numeral `s` (meaningful when all characters are digits).
pub open spec fn digits_value(s: Seq<char>) -> nat
    decreases s.len(),
{
    if s.len() == 0 {
        0
    } else {
        digits_value(s.drop_last()) * 10 + ((s.last() as int - '0' as int) as nat)
    }
}

pub open spec fn all_digits(d: Seq<char>) -> bool {
    forall|i: int| 0 <= i < d.len() ==> is_digit(#[trigger] d[i])
}

/// `s` without one leading `+`.
pub open spec fn unsigned_digits(s: Seq<char>) -> Seq<char> {
    if s.len() > 0 && s[0] == '+' {
        s.drop_first()
    } else {
        s
    }
}

/// `u16::from_str`: an optional `+` followed by at least one decimal digit,
/// with a value that fits in 16 bits.
pub open spec fn parse_u16_spec(s: Seq<char>) -> Option<u16> {
    let d = unsigned_digits(s);
    if d.len() > 0 && all_digits(d) && digits_value(d) <= 65535 {
        Some(digits_value(d) as u16)
    } else {
        None
    }
}

proof fn lemma_digits_value_grows(s: Seq<char>, i: int)
    requires
        0 <= i <= s.len(),
        forall|j: int| 0 <= j < s.len() ==> is_digit(#[trigger] s[j]),
    ensures
        digits_value(s.take(i)) <= digits_value(s),
    decreases s.len() - i,
{
    if i < s.len() {
        lemma_digits_value_grows(s, i + 1);
        assert(s.take(i + 1).drop_last() =~= s.take(i));
    } else {
        assert(s.take(i) =~= s);
    }
}

/// Parses `s[from..to]` as a `u16` the way `u16::from_str` does.
pub fn parse_u16(s: &Vec<char>, from: usize, to: usize) -> (r: Option<u16>)
    requires
        from <= to <= s@.len(),
    ensures
        r == parse_u16_spec(s@.subrange(from as int, to as int)),
{
    let ghost whole = s@.subrange(from as int, to as int);
    let mut start = from;
    if from < to && s[from] == '+' {
        start = from + 1;
    }
    let ghost d = s@.subrange(start as int, to as int);
    assert(d =~= unsigned_digits(whole));
    if start == to {
        return None;
    }
    let mut value: u32 = 0;
    let mut i = start;
    while i < to
        invariant
            from <= start <= i <= to <= s@.len(),
            d == s@.subrange(start as int, to as int),
            whole == s@.subrange(from as int, to as int),
            d == unsigned_digits(whole),
            forall|j: int| start <= j < i ==> is_digit(#[trigger] s@[j]),
            value == digits_value(s@.subrange(start as int, i as int)),
            value <= 65535,
        decreases to - i,
    {
        let c = s[i];
        if !('0' <= c && c <= '9') {
            assert(!is_digit(d[i - start]));
            return None;
        }
        let digit = (c as u32) - 48;
        proof {
            assert(s@.subrange(start as int, i + 1).drop_last() =~= s@.subrange(start as int, i as int));
        }
        value = value * 10 + digit;
        if value > 65535 {
            proof {
                if forall|j: int| 0 <= j < d.len() ==> is_digit(#[trigger] d[j]) {
                    assert(d.take(i + 1 - start) =~= s@.subrange(start as int, i + 1));
                    lemma_digits_value_grows(d, i + 1 - start);
                }
            }
            return None;
        }
        i = i + 1;
    }
    proof {
        assert(s@.subrange(start as int, i as int) =~= d);
        assert forall|j: int| 0 <= j < d.len() implies is_digit(#[trigger] d[j]) by {
            assert(d[j] == s@[start + j]);
        }
    }
    Some(value as u16)
}

/// The default port of the scheme.
pub open spec fn default_port(is_https: bool) -> u16 {
    if is_https {
        443
    } else {
        80
    }
}

/// Splits what follows the scheme into host, port and path: the path starts
/// at the first `/` (default `/`), and the port follows the last `:` of what
/// precedes it (default by scheme).
pub open spec fn split_authority(is_https: bool, rest: Seq<char>) -> Result<
    (bool, Seq<char>, u16, Seq<char>),
    HttpError,
> {
    let slash = find_first(rest, '/');
    let host_port = if slash >= 0 {
        rest.take(slash)
    } else {
        rest
    };
    let path = if slash >= 0 {
        rest.skip(slash)
    } else {
        seq!['/']
    };
    let colon = find_last(host_port, ':');
    if colon >= 0 {
        match parse_u16_spec(host_port.skip(colon + 1)) {
            Some(port) => Ok((is_https, host_port.take(colon), port, path)),
            None => Err(HttpError::InvalidPort),
        }
    } else {
        Ok((is_https, host_port, default_port(is_https), path))
    }
}

pub open spec fn https_scheme() -> Seq<char> {
    seq!['h', 't', 't', 'p', 's', ':', '/', '/']
}

pub open spec fn http_scheme() -> Seq<char> {
    seq!['h', 't', 't', 'p', ':', '/', '/']
}

/// What `parse_url` yields for the URL `u`: (is_https, host, port, path).
pub open spec fn parse_url_spec(u: Seq<char>) -> Result<(bool, Seq<char>, u16, Seq<char>), HttpError> {
    if has_prefix(u, https_scheme()) {
        split_authority(true, u.skip(8))
    } else if has_prefix(u, http_scheme()) {
        split_authority(false, u.skip(7))
    } else {
        Err(HttpError::UnsupportedScheme)
    }
}

fn has_prefix_exec(s: &Vec<char>, p: &[char]) -> (r: bool)
    ensures
        r == has_prefix(s@, p@),
{
    if p.len() > s.len() {
        return false;
    }
    let mut i: usize = 0;
    while i < p.len()
        invariant
            p@.len() <= s@.len(),
            i <= p@.len(),
            forall|j: int| 0 <= j < i ==> s@[j] == p@[j],
        decreases p@.len() - i,
    {
        if s[i] != p[i] {
            assert(s@.take(p@.len() as int)[i as int] != p@[i as int]);
            return false;
        }
        i = i + 1;
    }
    assert(s@.take(p@.len() as int) =~= p@);
    true
}

/// Index within `s[from..to]` (relative to `from`) of the first `c`, or -1.
pub(crate) fn find_first_exec(s: &Vec<char>, from: usize, to: usize, c: char) -> (r: Option<usize>)
    requires
        from <= to <= s@.len(),
    ensures
        match r {
            Some(i) => i == find_first(s@.subrange(from as int, to as int), c),
            None => find_first(s@.subrange(from as int, to as int), c) == -1,
        },
{
    let mut i = from;
    while i < to
        invariant
            from <= i <= to <= s@.len(),
            find_first(s@.subrange(from as int, i as int), c) == -1,
        decreases to - i,
    {
        proof {
            assert(s@.subrange(from as int, i + 1).drop_last() =~= s@.subrange(from as int, i as int));
        }
        if s[i] == c {
            proof {
                lemma_find_first_prefix(s@.subrange(from as int, to as int), i + 1 - from, c);
                assert(s@.subrange(from as int, to as int).take(i + 1 - from) =~= s@.subrange(
                    from as int,
                    i + 1,
                ));
            }
            return Some(i - from);
        }
        i = i + 1;
    }
    None
}

pub(crate) proof fn lemma_find_first_props(s: Seq<char>, c: char)
    ensures
        -1 <= find_first(s, c) < s.len(),
        find_first(s, c) >= 0 ==> s[find_first(s, c)] == c,
        forall|j: int| 0 <= j < s.len() && (find_first(s, c) == -1 || j < find_first(s, c)) ==> #[trigger] s[j] != c,
    decreases s.len(),
{
    if s.len() > 0 {
        lemma_find_first_props(s.drop_last(), c);
        assert forall|j: int| 0 <= j < s.len() - 1 implies #[trigger] s[j] == s.drop_last()[j] by {}
    }
}

proof fn lemma_find_last_props(s: Seq<char>, c: char)
    ensures
        -1 <= find_last(s, c) < s.len(),
        find_last(s, c) >= 0 ==> s[find_last(s, c)] == c,
        forall|j: int| 0 <= j < s.len() && find_last(s, c) < j ==> #[trigger] s[j] != c,
    decreases s.len(),
{
    if s.len() > 0 {
        lemma_find_last_props(s.drop_last(), c);
        assert forall|j: int| 0 <= j < s.len() - 1 implies #[trigger] s[j] == s.drop_last()[j] by {}
    }
}

/// The first occurrence found in a prefix is the first occurrence overall.
proof fn lemma_find_first_prefix(s: Seq<char>, n: int, c: char)
    requires
        0 <= n <= s.len(),
        find_first(s.take(n), c) >= 0,
    ensures
        find_first(s, c) == find_first(s.take(n), c),
    decreases s.len() - n,
{
    if n < s.len() {
        assert(s.take(n + 1).drop_last() =~= s.take(n));
        lemma_find_first_prefix(s, n + 1, c);
    } else {
        assert(s.take(n) =~= s);
    }
}

/// Index within `s[from..to]` (relative to `from`) of the last `c`, or None.
fn find_last_exec(s: &Vec<char>, from: usize, to: usize, c: char) -> (r: Option<usize>)
    requires
        from <= to <= s@.len(),
    ensures
        match r {
            Some(i) => i == find_last(s@.subrange(from as int, to as int), c),
            None => find_last(s@.subrange(from as int, to as int), c) == -1,
        },
{
    let mut i = to;
    while i > from
        invariant
            from <= i <= to <= s@.len(),
            find_last(s@.subrange(from as int, to as int), c) == find_last(
                s@.subrange(from as int, i as int),
                c,
            ),
        decreases i - from,
    {
        proof {
            assert(s@.subrange(from as int, i - 1) =~= s@.subrange(from as int, i as int).drop_last());
        }
        if s[i - 1] == c {
            return Some(i - 1 - from);
        }
        i = i - 1;
    }
    None
}

/// Splits a URL into scheme, host, port and path.
#[verifier::rlimit(30)]
pub fn parse_url(url: &str) -> (r: Result<ParsedUrl<'_>, HttpError>)
    ensures
        match (r, parse_url_spec(url@)) {
            (Ok(p), Ok((is_https, host, port, path))) => p.is_https == is_https && p.host@ == host
                && p.port == port && p.path@ == path,
            (Err(e), Err(e2)) => e == e2,
            _ => false,
        },
{
    let u = chars_of(url);
    let https: [char; 8] = ['h', 't', 't', 'p', 's', ':', '/', '/'];
    let http: [char; 7] = ['h', 't', 't', 'p', ':', '/', '/'];
    assert(https@ =~= https_scheme());
    assert(http@ =~= http_scheme());
    let (is_https, start): (bool, usize) = if has_prefix_exec(&u, &https) {
        (true, 8)
    } else if has_prefix_exec(&u, &http) {
        (false, 7)
    } else {
        return Err(HttpError::UnsupportedScheme);
    };
    let n = u.len();
    let ghost rest = u@.skip(start as int);
    assert(rest =~= u@.subrange(start as int, n as int));
    let (hp_end, path) = match find_first_exec(&u, start, n, '/') {
        Some(i) => {
            proof {
                lemma_find_first_props(rest, '/');
            }
            assert(rest.take(i as int) =~= u@.subrange(start as int, start + i));
            assert(rest.skip(i as int) =~= u@.subrange(start + i, n as int));
            (start + i, url.substring_char(start + i, n))
        },
        None => {
            proof {
                reveal_strlit("/");
            }
            (n, "/")
        },
    };
    let ghost host_port = u@.subrange(start as int, hp_end as int);
    match find_last_exec(&u, start, hp_end, ':') {
        Some(i) => {
            proof {
                lemma_find_last_props(host_port, ':');
            }
            let colon = start + i;
            assert(host_port.skip(i + 1) =~= u@.subrange(colon + 1, hp_end as int));
            assert(host_port.take(i as int) =~= u@.subrange(start as int, colon as int));
            match parse_u16(&u, colon + 1, hp_end) {
                Some(port) => Ok(
                    ParsedUrl { is_https, host: url.substring_char(start, colon), port, path },
                ),
                None => Err(HttpError::InvalidPort),
            }
        },
        None => {
            let port: u16 = if is_https {
                443
            } else {
                80
            };
            Ok(ParsedUrl { is_https, host: url.substring_char(start, hp_end), port, path })
        },
    }
}

/// The URL with the given parts: scheme, host, `:`, the port in decimal,
/// and the path.
pub open spec fn url_text(is_https: bool, host: Seq<char>, port: u16, path: Seq<char>) -> Seq<char> {
    (if is_https {
        https_scheme()
    } else {
        http_scheme()
    }) + host + seq![':'] + decimal(port as nat) + path
}

proof fn lemma_find_first_at(s: Seq<char>, c: char, k: int)
    requires
        0 <= k < s.len(),
        s[k] == c,
        forall|j: int| 0 <= j < k ==> s[j] != c,
    ensures
        find_first(s, c) == k,
{
    lemma_find_first_props(s, c);
}

proof fn lemma_find_last_at(s: Seq<char>, c: char, k: int)
    requires
        0 <= k < s.len(),
        s[k] == c,
        forall|j: int| k < j < s.len() ==> s[j] != c,
    ensures
        find_last(s, c) == k,
{
    lemma_find_last_props(s, c);
}

proof fn lemma_decimal_digits(n: nat)
    ensures
        decimal(n).len() > 0,
        all_digits(decimal(n)),
        digits_value(decimal(n)) == n,
    decreases n,
{
    let d = (n % 10) as nat;
    assert(digit_char(d) as int - '0' as int == d && is_digit(digit_char(d)));
    if n >= 10 {
        lemma_decimal_digits(n / 10);
        let p = decimal(n / 10);
        assert(decimal(n) == p.push(digit_char(d)));
        assert(decimal(n).drop_last() =~= p);
        vstd::arithmetic::div_mod::lemma_fundamental_div_mod(n as int, 10);
        assert(digits_value(decimal(n)) == digits_value(p) * 10 + d);
        assert forall|i: int| 0 <= i < decimal(n).len() implies is_digit(#[trigger] decimal(n)[i]) by {
            if i < p.len() {
                assert(decimal(n)[i] == p[i]);
            }
        }
    } else {
        assert(d == n);
        assert(decimal(n) == seq![digit_char(n)]);
        assert(decimal(n).drop_last() =~= Seq::<char>::empty());
        assert(digits_value(decimal(n)) == digits_value(Seq::<char>::empty()) * 10 + d);
    }
}

/// Parsing a URL built from a host without `/` or `:`, a port and a path
/// starting with `/` gives those parts back.
#[verifier::spinoff_prover]
#[verifier::rlimit(40)]
pub proof fn lemma_parse_url_round_trip(is_https: bool, host: Seq<char>, port: u16, path: Seq<char>)
    requires
        !host.contains('/'),
        !host.contains(':'),
        path.len() > 0,
        path[0] == '/',
    ensures
        parse_url_spec(url_text(is_https, host, port, path)) == Ok::<
            (bool, Seq<char>, u16, Seq<char>),
            HttpError,
        >((is_https, host, port, path)),
{
    let u = url_text(is_https, host, port, path);
    let scheme = if is_https {
        https_scheme()
    } else {
        http_scheme()
    };
    let digits = decimal(port as nat);
    lemma_decimal_digits(port as nat);
    let rest = host + seq![':'] + digits + path;
    assert(u =~= scheme + rest);
    assert(u.skip(scheme.len() as int) =~= rest);
    assert(u.take(scheme.len() as int) =~= scheme);
    if is_https {
        assert(has_prefix(u, https_scheme()));
    } else {
        assert(u[4] == ':');
        assert(!has_prefix(u, https_scheme())) by {
            if has_prefix(u, https_scheme()) {
                assert(u.take(8)[4] == 's');
            }
        }
        assert(has_prefix(u, http_scheme()));
    }
    let hp = host + seq![':'] + digits;
    let slash = hp.len() as int;
    assert forall|j: int| 0 <= j < slash implies rest[j] != '/' by {
        if j < host.len() {
            assert(rest[j] == host[j]);
            if host[j] == '/' {
                assert(host.contains('/'));
            }
        } else if j == host.len() {
        } else {
            assert(rest[j] == digits[j - host.len() - 1]);
            assert(is_digit(digits[j - host.len() - 1]));
        }
    }
    assert(rest[slash] == path[0]);
    lemma_find_first_at(rest, '/', slash);
    assert(rest.take(slash) =~= hp);
    assert(rest.skip(slash) =~= path);
    let colon = host.len() as int;
    assert forall|j: int| colon < j < hp.len() implies hp[j] != ':' by {
        assert(hp[j] == digits[j - host.len() - 1]);
        assert(is_digit(digits[j - host.len() - 1]));
    }
    assert(hp[colon] == ':');
    lemma_find_last_at(hp, ':', colon);
    assert(hp.skip(colon + 1) =~= digits);
    assert(hp.take(colon) =~= host);
    assert(unsigned_digits(digits) == digits) by {
        assert(is_digit(digits[0]));
    }
}

} // verus!
