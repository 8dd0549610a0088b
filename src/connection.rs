use vstd::prelude::*;
use vstd::slice::slice_subrange;
use crate::endpoint::{Complete, State, StateView};
use crate::parsers::{parse_request, parse_request_spec};
use crate::types::{first_connection, first_content_length, response_bytes};

verus! {

/// `s` holds a blank line, `\r\n\r\n`, at `i`.
pub open spec fn is_blank_line_at(s: Seq<u8>, i: int) -> bool {
    0 <= i && i + 3 < s.len() && s[i] == 13 && s[i + 1] == 10 && s[i + 2] == 13 && s[i + 3] == 10
}

/// The first index at or after `i` where `\r\n\r\n` starts, or -1.
pub open spec fn find_blank_line(s: Seq<u8>, i: int) -> int
    decreases s.len() - i,
{
    if i < 0 || i + 3 >= s.len() {
        -1
    } else if is_blank_line_at(s, i) {
        i
    } else {
        find_blank_line(s, i + 1)
    }
}

/// The number of body bytes still to be read before `s` holds a whole
/// message: `None` while the header block is unfinished; otherwise what the
/// `Content-Length` of the header block asks for beyond what is there (no
/// header, or a header block that does not parse, asks for none).
pub open spec fn missing_bytes(s: Seq<u8>) -> Option<int> {
    let b = find_blank_line(s, 0);
    if b < 0 {
        None
    } else {
        let h = b + 4;
        let wanted: int = match parse_request_spec(s.subrange(0, h)) {
            Some(req) => match first_content_length(req.headers) {
                Some(n) => n as int,
                None => 0,
            },
            None => 0,
        };
        if h + wanted <= s.len() {
            Some(0)
        } else {
            Some(h + wanted - s.len())
        }
    }
}

/// The index just past the first blank line of `buf`, if it holds one.
pub fn header_end(buf: &[u8]) -> (r: Option<usize>)
    ensures
        match r {
            Some(h) => find_blank_line(buf@, 0) >= 0 && h == find_blank_line(buf@, 0) + 4,
            None => find_blank_line(buf@, 0) < 0,
        },
        r matches Some(h) ==> h <= buf@.len(),
{
    let n = buf.len();
    let mut j: usize = 0;
    while j < n && n - j > 3
        invariant
            n == buf@.len(),
            j <= n,
            find_blank_line(buf@, 0) == find_blank_line(buf@, j as int),
        decreases n - j,
    {
        if buf[j] == 13 && buf[j + 1] == 10 && buf[j + 2] == 13 && buf[j + 3] == 10 {
            return Some(j + 4);
        }
        j = j + 1;
    }
    None
}

/// How many more bytes the connection must read before `buf` holds one
/// whole message, as `missing_bytes` states.
pub fn bytes_missing(buf: &[u8]) -> (r: Option<u32>)
    ensures
        match missing_bytes(buf@) {
            None => r is None,
            Some(k) => r == Some(k as u32) && 0 <= k <= u32::MAX,
        },
{
    let h = match header_end(buf) {
        Some(h) => h,
        None => return None,
    };
    let wanted: u32 = match parse_request(slice_subrange(buf, 0, h)) {
        Ok(req) => match req.headers.content_length() {
            Some(cl) => cl.0,
            None => 0,
        },
        Err(_) => 0,
    };
    let have = buf.len() - h;
    if (wanted as u64) <= (have as u64) {
        Some(0)
    } else {
        Some(wanted - have as u32)
    }
}

/// What the connection does once a state was handled: the bytes to write,
/// if a response is attached, and whether to close afterwards (the request
/// asked for `Connection: close`).
pub open spec fn reply_spec(s: StateView) -> (Option<Seq<u8>>, bool) {
    match s {
        StateView::Incomplete(_) => (None, false),
        StateView::Complete(req, resp) => (
            Some(response_bytes(resp)),
            first_connection(req.headers) is Some,
        ),
    }
}

pub fn reply(state: &State) -> (r: (Option<Vec<u8>>, bool))
    ensures
        (match r.0 {
            Some(b) => Some(b@),
            None => None,
        }, r.1) == reply_spec(state@),
{
    match state {
        State::Incomplete(_) => (None, false),
        State::Complete(Complete(req, resp)) => (Some(resp.to_bytes()), req.connection().is_some()),
    }
}

} // verus!
