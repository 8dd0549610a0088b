use vstd::prelude::*;
use vstd::slice::{slice_subrange, slice_to_vec};
use vstd::string::StringSliceAdditionalSpecFns;
use vstd::utf8::{decode_utf8, valid_utf8};
use crate::error::{Error, Result};
use crate::request::{Request, RequestBody, RequestLine, RequestTarget, RequestView};
use crate::types::{
    AcceptEncoding, Connection, ContentEncoding, ContentLength, ContentType, Encoding, Header,
    HeaderView, Headers, HttpMethod, HttpVersion, headers_view,
};

verus! {

// ---------------------------------------------------------------------------
// The grammar, stated over bytes.
// ---------------------------------------------------------------------------

/// A space or a tab.
pub open spec fn is_space(b: u8) -> bool {
    b == 32 || b == 9
}

/// The first index at or after `i` that is not a space or tab.
pub open spec fn skip_spaces(s: Seq<u8>, i: int) -> int
    decreases s.len() - i,
{
    if 0 <= i < s.len() && is_space(s[i]) {
        skip_spaces(s, i + 1)
    } else {
        i
    }
}

/// The first index at or after `i` that holds a space, or the length.
pub open spec fn until_space(s: Seq<u8>, i: int) -> int
    decreases s.len() - i,
{
    if 0 <= i < s.len() && s[i] != 32 {
        until_space(s, i + 1)
    } else {
        i
    }
}

/// `s` holds `\r\n` at `i`.
pub open spec fn is_crlf_at(s: Seq<u8>, i: int) -> bool {
    0 <= i && i + 1 < s.len() && s[i] == 13 && s[i + 1] == 10
}

/// The first index at or after `i` where `\r\n` starts, or -1.
pub open spec fn find_crlf(s: Seq<u8>, i: int) -> int
    decreases s.len() - i,
{
    if i < 0 || i + 1 >= s.len() {
        -1
    } else if is_crlf_at(s, i) {
        i
    } else {
        find_crlf(s, i + 1)
    }
}

/// `s` holds `t` at `i`.
pub open spec fn tag_at(s: Seq<u8>, i: int, t: Seq<u8>) -> bool {
    0 <= i && i + t.len() <= s.len() && s.subrange(i, i + t.len()) == t
}

/// The method at the start of the input and where it ends.
pub open spec fn method_spec(s: Seq<u8>) -> Option<(HttpMethod, int)> {
    if tag_at(s, 0, "GET".spec_bytes()) {
        Some((HttpMethod::Get, "GET".spec_bytes().len() as int))
    } else if tag_at(s, 0, "POST".spec_bytes()) {
        Some((HttpMethod::Post, "POST".spec_bytes().len() as int))
    } else {
        None
    }
}

/// `METHOD SP+ TARGET SP+ VERSION CRLF`: the method, the decoded target and
/// the index where the line's `\r\n` starts. The version is any text up to
/// the first `\r\n`; it is not checked.
pub open spec fn request_line_spec(s: Seq<u8>) -> Option<(HttpMethod, Seq<char>, int)> {
    match method_spec(s) {
        None => None,
        Some((m, i)) => {
            let j = skip_spaces(s, i);
            let k = until_space(s, j);
            let l = skip_spaces(s, k);
            let c = find_crlf(s, l);
            if j == i || k == j || l == k || c < 0 || !valid_utf8(s.subrange(j, k)) {
                None
            } else {
                Some((m, decode_utf8(s.subrange(j, k)), c))
            }
        },
    }
}

/// The last index not preceded by trailing spaces or tabs in `t[..j]`.
pub open spec fn trail_spaces(t: Seq<u8>, j: int) -> int
    decreases j,
{
    if 0 < j <= t.len() && is_space(t[j - 1]) {
        trail_spaces(t, j - 1)
    } else {
        j
    }
}

/// `t` without leading and trailing spaces and tabs.
pub open spec fn trim_spaces(t: Seq<u8>) -> Seq<u8> {
    let a = skip_spaces(t, 0);
    let b = trail_spaces(t, t.len() as int);
    if a < b {
        t.subrange(a, b)
    } else {
        Seq::empty()
    }
}

/// The first index at or after `i` that holds a comma, or the length.
pub open spec fn comma_from(v: Seq<u8>, i: int) -> int
    decreases v.len() - i,
{
    if i < 0 || i >= v.len() {
        v.len() as int
    } else if v[i] == 44 {
        i
    } else {
        comma_from(v, i + 1)
    }
}

/// The coding a single list token names, if it is a known one.
pub open spec fn token_encodings(t: Seq<u8>) -> Seq<Encoding> {
    if trim_spaces(t) == "gzip".spec_bytes() {
        seq![Encoding::Gzip]
    } else {
        Seq::empty()
    }
}

/// The known codings of a comma separated list, in order; unknown tokens
/// are dropped.
pub open spec fn encodings_in(v: Seq<u8>) -> Seq<Encoding>
    decreases v.len(),
{
    let c = comma_from(v, 0);
    if 0 <= c < v.len() {
        token_encodings(v.subrange(0, c)) + encodings_in(v.subrange(c + 1, v.len() as int))
    } else {
        token_encodings(v)
    }
}

/// A decimal digit.
pub open spec fn is_digit(b: u8) -> bool {
    48 <= b <= 57
}

/// The value of a string of decimal digits.
pub open spec fn digits_value(v: Seq<u8>) -> nat
    decreases v.len(),
{
    if v.len() == 0 {
        0
    } else {
        digits_value(v.drop_last()) * 10 + (v.last() - 48) as nat
    }
}

/// The digits of a number: everything after an optional leading `+`.
pub open spec fn unsigned_digits(v: Seq<u8>) -> Seq<u8> {
    if v.len() > 0 && v[0] == 43 {
        v.drop_first()
    } else {
        v
    }
}

/// Every byte is a decimal digit.
pub open spec fn all_digits(d: Seq<u8>) -> bool {
    forall|i: int| 0 <= i < d.len() ==> is_digit(#[trigger] d[i])
}

/// An unsigned 32-bit decimal number: an optional `+`, then at least one
/// digit, and a value that fits.
pub open spec fn parse_u32(v: Seq<u8>) -> Option<u32> {
    let d = unsigned_digits(v);
    if d.len() > 0 && all_digits(d) && digits_value(d) <= u32::MAX {
        Some(digits_value(d) as u32)
    } else {
        None
    }
}

/// The `Accept-Encoding` value read from a list; `None` when no coding in it
/// is known.
pub open spec fn accept_encoding_spec(v: Seq<u8>) -> Option<HeaderView> {
    let es = encodings_in(v);
    if es.len() == 0 {
        None
    } else {
        Some(HeaderView::AcceptEncoding(es))
    }
}

/// The text after a tag, decoded.
pub open spec fn text_value(v: Seq<u8>) -> Option<Seq<char>> {
    if valid_utf8(v) {
        Some(decode_utf8(v))
    } else {
        None
    }
}

/// One header line, without its line break. The tags understood are
/// `Host`, `User-Agent`, `Accept`, `Content-Type`, `Content-Length`,
/// `Content-Encoding`, `Accept-Encoding` and `Connection` (whose only value
/// is `close`; the connection loop needs it to know when to stop).
/// `None`: the line is not understood. `Some(None)`: it is understood and yields no header (an
/// `Accept-Encoding` line with no known coding).
pub open spec fn header_line(line: Seq<u8>) -> Option<Option<HeaderView>> {
    let ae = "Accept-Encoding: ".spec_bytes();
    let host = "Host: ".spec_bytes();
    let ua = "User-Agent: ".spec_bytes();
    let acc = "Accept: ".spec_bytes();
    let ct = "Content-Type: ".spec_bytes();
    let cl = "Content-Length: ".spec_bytes();
    let ce = "Content-Encoding: ".spec_bytes();
    let cn = "Connection: ".spec_bytes();
    if tag_at(line, 0, ae) {
        Some(accept_encoding_spec(line.subrange(ae.len() as int, line.len() as int)))
    } else if tag_at(line, 0, host) {
        match text_value(line.subrange(host.len() as int, line.len() as int)) {
            Some(v) => Some(Some(HeaderView::Host(v))),
            None => None,
        }
    } else if tag_at(line, 0, ua) {
        match text_value(line.subrange(ua.len() as int, line.len() as int)) {
            Some(v) => Some(Some(HeaderView::UserAgent(v))),
            None => None,
        }
    } else if tag_at(line, 0, acc) {
        match text_value(line.subrange(acc.len() as int, line.len() as int)) {
            Some(v) => Some(Some(HeaderView::Accept(v))),
            None => None,
        }
    } else if tag_at(line, 0, ct) {
        let v = line.subrange(ct.len() as int, line.len() as int);
        if v == "text/plain".spec_bytes() {
            Some(Some(HeaderView::ContentType(ContentType::TextPlain)))
        } else if v == "application/octet-stream".spec_bytes() {
            Some(Some(HeaderView::ContentType(ContentType::OctetStream)))
        } else {
            None
        }
    } else if tag_at(line, 0, cl) {
        match parse_u32(line.subrange(cl.len() as int, line.len() as int)) {
            Some(n) => Some(Some(HeaderView::ContentLength(n))),
            None => None,
        }
    } else if tag_at(line, 0, ce) {
        if line.subrange(ce.len() as int, line.len() as int) == "gzip".spec_bytes() {
            Some(Some(HeaderView::ContentEncoding(Encoding::Gzip)))
        } else {
            None
        }
    } else if tag_at(line, 0, cn) {
        if line.subrange(cn.len() as int, line.len() as int) == "close".spec_bytes() {
            Some(Some(HeaderView::Connection(Connection::Close)))
        } else {
            None
        }
    } else {
        None
    }
}

pub open spec fn opt_seq(h: Option<HeaderView>) -> Seq<HeaderView> {
    match h {
        Some(v) => seq![v],
        None => Seq::empty(),
    }
}

/// What to do with a header line that is not understood.
#[derive(Debug, Clone, Copy, PartialEq, Eq, Structural)]
pub enum HeaderPolicy {
    /// The line ends the header block; since no blank line follows, the
    /// whole message is refused.
    Strict,
    /// The line is passed over and reading goes on.
    SkipUnknown,
}

/// The header lines from `i` on, each ended by `\r\n`, up to the blank
/// line, with the index where that line starts. A line that is not
/// understood ends the block under `Strict` and is passed over under
/// `SkipUnknown`.
pub open spec fn headers_from(s: Seq<u8>, i: int, policy: HeaderPolicy) -> (Seq<HeaderView>, int)
    decreases s.len() - i,
{
    let c = find_crlf(s, i);
    if c < i || i < 0 || c + 2 > s.len() {
        (Seq::empty(), i)
    } else {
        match header_line(s.subrange(i, c)) {
            None => if policy == HeaderPolicy::SkipUnknown && c > i {
                headers_from(s, c + 2, policy)
            } else {
                (Seq::empty(), i)
            },
            Some(h) => {
                let (rest, end) = headers_from(s, c + 2, policy);
                (opt_seq(h) + rest, end)
            },
        }
    }
}

/// The whole message: request line, header lines, blank line, body.
pub open spec fn parse_request_spec_with(s: Seq<u8>, policy: HeaderPolicy) -> Option<RequestView> {
    match request_line_spec(s) {
        None => None,
        Some((m, t, c)) => {
            let (hs, e) = headers_from(s, c + 2, policy);
            if is_crlf_at(s, e) {
                Some(
                    RequestView {
                        method: m,
                        target: t,
                        version: HttpVersion::HttpOne,
                        headers: hs,
                        body: Some(s.subrange(e + 2, s.len() as int)),
                    },
                )
            } else {
                None
            }
        },
    }
}

/// The whole message under the strict policy: any header line that is not
/// understood ends the header block early, and the message is then refused
/// because no blank line follows.
pub open spec fn parse_request_spec(s: Seq<u8>) -> Option<RequestView> {
    parse_request_spec_with(s, HeaderPolicy::Strict)
}

// ---------------------------------------------------------------------------
// The parser.
// ---------------------------------------------------------------------------

/// Relies on `String::from_utf8`: it succeeds exactly on valid UTF-8 and
/// then holds the decoded characters.
#[verifier::external_body]
fn utf8_string(b: &[u8]) -> (r: Option<String>)
    ensures
        r is Some <==> valid_utf8(b@),
        r matches Some(s) ==> s@ == decode_utf8(b@),
{
    String::from_utf8(b.to_vec()).ok()
}

/// Byte-wise equality.
pub fn bytes_eq(a: &[u8], b: &[u8]) -> (r: bool)
    ensures
        r == (a@ == b@),
{
    if a.len() != b.len() {
        return false;
    }
    let mut i: usize = 0;
    while i < a.len()
        invariant
            a@.len() == b@.len(),
            i <= a@.len(),
            a@.subrange(0, i as int) == b@.subrange(0, i as int),
        decreases a@.len() - i,
    {
        if a[i] != b[i] {
            return false;
        }
        assert(a@.subrange(0, i + 1) == a@.subrange(0, i as int).push(a@[i as int]));
        assert(b@.subrange(0, i + 1) == b@.subrange(0, i as int).push(b@[i as int]));
        i = i + 1;
    }
    assert(a@ == a@.subrange(0, a@.len() as int));
    assert(b@ == b@.subrange(0, b@.len() as int));
    true
}

fn tag_at_exec(s: &[u8], i: usize, t: &[u8]) -> (r: bool)
    requires
        i <= s@.len(),
    ensures
        r == tag_at(s@, i as int, t@),
{
    if t.len() > s.len() - i {
        return false;
    }
    let part = slice_subrange(s, i, i + t.len());
    bytes_eq(part, t)
}

fn skip_spaces_exec(s: &[u8], i: usize) -> (r: usize)
    requires
        i <= s@.len(),
    ensures
        r as int == skip_spaces(s@, i as int),
        i <= r <= s@.len(),
{
    let mut j = i;
    while j < s.len() && (s[j] == 32 || s[j] == 9)
        invariant
            i <= j <= s@.len(),
            skip_spaces(s@, i as int) == skip_spaces(s@, j as int),
        decreases s@.len() - j,
    {
        j = j + 1;
    }
    j
}

fn until_space_exec(s: &[u8], i: usize) -> (r: usize)
    requires
        i <= s@.len(),
    ensures
        r as int == until_space(s@, i as int),
        i <= r <= s@.len(),
{
    let mut j = i;
    while j < s.len() && s[j] != 32
        invariant
            i <= j <= s@.len(),
            until_space(s@, i as int) == until_space(s@, j as int),
        decreases s@.len() - j,
    {
        j = j + 1;
    }
    j
}

fn find_crlf_exec(s: &[u8], i: usize) -> (r: Option<usize>)
    requires
        i <= s@.len(),
    ensures
        match r {
            Some(c) => c as int == find_crlf(s@, i as int) && i <= c && c + 1 < s@.len(),
            None => find_crlf(s@, i as int) == -1,
        },
{
    let mut j = i;
    while s.len() - j > 1
        invariant
            i <= j <= s@.len(),
            find_crlf(s@, i as int) == find_crlf(s@, j as int),
        decreases s@.len() - j,
    {
        if s[j] == 13 && s[j + 1] == 10 {
            return Some(j);
        }
        j = j + 1;
    }
    None
}

/// Reads the request line. On success: the line and the index where its
/// `\r\n` starts.
pub fn parse_request_line(input: &[u8]) -> (r: Option<(RequestLine, usize)>)
    ensures
        match request_line_spec(input@) {
            None => r is None,
            Some((m, t, c)) => r matches Some((line, end)) && line.0 == m && line.1.0@ == t
                && line.2 == HttpVersion::HttpOne && end == c,
        },
        r matches Some((_, end)) ==> end + 1 < input@.len(),
{
    let (m, i) = if tag_at_exec(input, 0, "GET".as_bytes()) {
        (HttpMethod::Get, "GET".as_bytes().len())
    } else if tag_at_exec(input, 0, "POST".as_bytes()) {
        (HttpMethod::Post, "POST".as_bytes().len())
    } else {
        return None;
    };
    let j = skip_spaces_exec(input, i);
    if j == i {
        return None;
    }
    let k = until_space_exec(input, j);
    if k == j {
        return None;
    }
    let l = skip_spaces_exec(input, k);
    if l == k {
        return None;
    }
    let c = match find_crlf_exec(input, l) {
        Some(c) => c,
        None => return None,
    };
    let target = match utf8_string(slice_subrange(input, j, k)) {
        Some(t) => t,
        None => return None,
    };
    Some((RequestLine(m, RequestTarget(target), HttpVersion::HttpOne), c))
}

fn trail_spaces_exec(t: &[u8]) -> (r: usize)
    ensures
        r as int == trail_spaces(t@, t@.len() as int),
        r <= t@.len(),
{
    let mut j = t.len();
    while j > 0 && (t[j - 1] == 32 || t[j - 1] == 9)
        invariant
            j <= t@.len(),
            trail_spaces(t@, t@.len() as int) == trail_spaces(t@, j as int),
        decreases j,
    {
        j = j - 1;
    }
    j
}

fn token_encodings_exec(t: &[u8]) -> (r: Vec<Encoding>)
    ensures
        r@ == token_encodings(t@),
{
    let a = skip_spaces_exec(t, 0);
    let b = trail_spaces_exec(t);
    let trimmed = if a < b {
        slice_subrange(t, a, b)
    } else {
        slice_subrange(t, 0, 0)
    };
    assert(trimmed@ =~= trim_spaces(t@));
    let mut r: Vec<Encoding> = Vec::new();
    if bytes_eq(trimmed, "gzip".as_bytes()) {
        r.push(Encoding::Gzip);
    }
    assert(r@ =~= token_encodings(t@));
    r
}

fn comma_exec(v: &[u8]) -> (r: usize)
    ensures
        r as int == comma_from(v@, 0),
        r <= v@.len(),
{
    let mut j: usize = 0;
    while j < v.len() && v[j] != 44
        invariant
            j <= v@.len(),
            comma_from(v@, 0) == comma_from(v@, j as int),
        decreases v@.len() - j,
    {
        j = j + 1;
    }
    j
}

fn encodings_in_exec(v: &[u8]) -> (r: Vec<Encoding>)
    ensures
        r@ == encodings_in(v@),
    decreases v@.len(),
{
    let c = comma_exec(v);
    if c < v.len() {
        let mut r = token_encodings_exec(slice_subrange(v, 0, c));
        let mut more = encodings_in_exec(slice_subrange(v, c + 1, v.len()));
        r.append(&mut more);
        r
    } else {
        assert(v@.subrange(0, c as int) == v@);
        token_encodings_exec(v)
    }
}

/// Reads an unsigned 32-bit decimal number as `str::parse` does.
pub fn parse_u32_exec(v: &[u8]) -> (r: Option<u32>)
    ensures
        r == parse_u32(v@),
{
    let start: usize = if v.len() > 0 && v[0] == 43 {
        1
    } else {
        0
    };
    let d = slice_subrange(v, start, v.len());
    assert(d@ =~= unsigned_digits(v@));
    if d.len() == 0 {
        return None;
    }
    let mut acc: u64 = 0;
    let mut big = false;
    let mut i: usize = 0;
    while i < d.len()
        invariant
            i <= d@.len(),
            forall|m: int| 0 <= m < i ==> is_digit(d@[m]),
            d@ == unsigned_digits(v@),
            !big ==> acc as nat == digits_value(d@.subrange(0, i as int)) && acc <= u32::MAX,
            big ==> digits_value(d@.subrange(0, i as int)) > u32::MAX,
        decreases d@.len() - i,
    {
        let b = d[i];
        if b < 48 || b > 57 {
            assert(!is_digit(d@[i as int]));
            return None;
        }
        let ghost prev = d@.subrange(0, i as int);
        assert(d@.subrange(0, i + 1).drop_last() =~= prev);
        if !big {
            let next: u64 = acc * 10 + (b - 48) as u64;
            if next > u32::MAX as u64 {
                big = true;
            } else {
                acc = next;
            }
        }
        i = i + 1;
    }
    assert(d@.subrange(0, d@.len() as int) =~= d@);
    if big {
        None
    } else {
        Some(acc as u32)
    }
}

/// Reads one header line (without its line break), as `header_line` states.
fn parse_header_line(line: &[u8]) -> (r: Option<Option<Header>>)
    ensures
        match header_line(line@) {
            None => r is None,
            Some(None) => r matches Some(None),
            Some(Some(h)) => r matches Some(Some(v)) && v@ == h,
        },
{
    let n = line.len();
    let ae = "Accept-Encoding: ".as_bytes();
    let host = "Host: ".as_bytes();
    let ua = "User-Agent: ".as_bytes();
    let acc = "Accept: ".as_bytes();
    let ct = "Content-Type: ".as_bytes();
    let cl = "Content-Length: ".as_bytes();
    let ce = "Content-Encoding: ".as_bytes();
    let cn = "Connection: ".as_bytes();
    if tag_at_exec(line, 0, ae) {
        let es = encodings_in_exec(slice_subrange(line, ae.len(), n));
        if es.len() == 0 {
            Some(None)
        } else {
            Some(Some(Header::AcceptEncoding(AcceptEncoding(es))))
        }
    } else if tag_at_exec(line, 0, host) {
        match utf8_string(slice_subrange(line, host.len(), n)) {
            Some(v) => Some(Some(Header::Host(crate::types::Host(v)))),
            None => None,
        }
    } else if tag_at_exec(line, 0, ua) {
        match utf8_string(slice_subrange(line, ua.len(), n)) {
            Some(v) => Some(Some(Header::UserAgent(crate::types::UserAgent(v)))),
            None => None,
        }
    } else if tag_at_exec(line, 0, acc) {
        match utf8_string(slice_subrange(line, acc.len(), n)) {
            Some(v) => Some(Some(Header::Accept(crate::types::Accept(v)))),
            None => None,
        }
    } else if tag_at_exec(line, 0, ct) {
        let v = slice_subrange(line, ct.len(), n);
        if bytes_eq(v, "text/plain".as_bytes()) {
            Some(Some(Header::ContentType(ContentType::TextPlain)))
        } else if bytes_eq(v, "application/octet-stream".as_bytes()) {
            Some(Some(Header::ContentType(ContentType::OctetStream)))
        } else {
            None
        }
    } else if tag_at_exec(line, 0, cl) {
        match parse_u32_exec(slice_subrange(line, cl.len(), n)) {
            Some(v) => Some(Some(Header::ContentLength(ContentLength(v)))),
            None => None,
        }
    } else if tag_at_exec(line, 0, ce) {
        if bytes_eq(slice_subrange(line, ce.len(), n), "gzip".as_bytes()) {
            Some(Some(Header::ContentEncoding(ContentEncoding(Encoding::Gzip))))
        } else {
            None
        }
    } else if tag_at_exec(line, 0, cn) {
        if bytes_eq(slice_subrange(line, cn.len(), n), "close".as_bytes()) {
            Some(Some(Header::Connection(Connection::Close)))
        } else {
            None
        }
    } else {
        None
    }
}

/// Reads header lines from `i` on, as `headers_from` states.
fn parse_headers_at(input: &[u8], i: usize, policy: HeaderPolicy) -> (r: (Vec<Header>, usize))
    requires
        i <= input@.len(),
    ensures
        (headers_view(r.0@), r.1 as int) == headers_from(input@, i as int, policy),
        r.1 <= input@.len(),
{
    let mut hs: Vec<Header> = Vec::new();
    let mut pos = i;
    while pos < input.len()
        invariant
            i <= pos <= input@.len(),
            headers_from(input@, i as int, policy) == (
                headers_view(hs@) + headers_from(input@, pos as int, policy).0,
                headers_from(input@, pos as int, policy).1,
            ),
        ensures
            headers_from(input@, pos as int, policy) == (Seq::<HeaderView>::empty(), pos as int),
            i <= pos <= input@.len(),
            headers_from(input@, i as int, policy) == (
                headers_view(hs@) + headers_from(input@, pos as int, policy).0,
                headers_from(input@, pos as int, policy).1,
            ),
        decreases input@.len() - pos,
    {
        let c = match find_crlf_exec(input, pos) {
            Some(c) => c,
            None => {
                assert(headers_from(input@, pos as int, policy) == (Seq::<HeaderView>::empty(), pos as int));
                break;
            },
        };
        match parse_header_line(slice_subrange(input, pos, c)) {
            None => {
                if policy == HeaderPolicy::SkipUnknown && c > pos {
                    pos = c + 2;
                } else {
                    assert(headers_from(input@, pos as int, policy) == (Seq::<HeaderView>::empty(), pos as int));
                    break;
                }
            },
            Some(h) => {
                let ghost before = headers_view(hs@);
                match h {
                    Some(v) => {
                        hs.push(v);
                    },
                    None => {},
                }
                assert(headers_view(hs@) =~= before + opt_seq(header_line(input@.subrange(pos as int, c as int))->Some_0));
                pos = c + 2;
            },
        }
    }
    assert(headers_from(input@, pos as int, policy).0 =~= Seq::<HeaderView>::empty());
    assert(headers_view(hs@) + Seq::<HeaderView>::empty() =~= headers_view(hs@));
    (hs, pos)
}

/// Reads the header lines at the start of `input` under the strict policy:
/// the headers and the index of the first line that was not read.
pub fn parse_headers(input: &[u8]) -> (r: (Vec<Header>, usize))
    ensures
        (headers_view(r.0@), r.1 as int) == headers_from(input@, 0, HeaderPolicy::Strict),
{
    parse_headers_at(input, 0, HeaderPolicy::Strict)
}

/// Reads one whole message, treating header lines that are not understood
/// as `policy` says. Fails with a general error exactly when the message
/// does not follow the grammar of `parse_request_spec_with`.
pub fn parse_request_with(input: &[u8], policy: HeaderPolicy) -> (r: Result<Request>)
    ensures
        match parse_request_spec_with(input@, policy) {
            Some(v) => r matches Ok(req) && req@ == v,
            None => r matches Err(Error::GeneralError(m)) && m@ == "Parser error"@,
        },
{
    let n = input.len();
    let lr = parse_request_line(input);
    let (line, c) = match lr {
        Some((l, c)) => (l, c),
        None => return Err(Error::GeneralError("Parser error".to_string())),
    };
    assert(c + 1 < input@.len());
    let (hs, e) = parse_headers_at(input, c + 2, policy);
    if input.len() - e > 1 && input[e] == 13 && input[e + 1] == 10 {
        let body = slice_to_vec(slice_subrange(input, e + 2, input.len()));
        Ok(Request { request_line: line, headers: Headers(hs), body: Some(RequestBody(body)) })
    } else {
        Err(Error::GeneralError("Parser error".to_string()))
    }
}

/// Reads one whole message under the strict policy: a header line that is
/// not understood makes the whole message fail. `Connection: close` is
/// understood along with the other recognised tags (see `header_line`).
pub fn parse_request(input: &[u8]) -> (r: Result<Request>)
    ensures
        match parse_request_spec(input@) {
            Some(v) => r matches Ok(req) && req@ == v,
            None => r matches Err(Error::GeneralError(m)) && m@ == "Parser error"@,
        },
{
    parse_request_with(input, HeaderPolicy::Strict)
}

} // verus!
