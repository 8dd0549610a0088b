use vstd::prelude::*;
use crate::types::{
    first_connection, first_user_agent, Connection, HeaderView, Headers, HttpMethod, HttpVersion,
    UserAgent,
};

verus! {

/// The raw request target, as it appeared on the request line.
#[derive(Debug, PartialEq)]
pub struct RequestTarget(pub String);

impl Clone for RequestTarget {
    fn clone(&self) -> (r: Self)
        ensures
            r == *self,
    {
        RequestTarget(self.0.clone())
    }
}

impl RequestTarget {
    pub fn start_with(&self, prefix: &str) -> (r: bool)
        ensures
            r == (prefix@.len() <= self.0@.len() && self.0@.subrange(0, prefix@.len() as int)
                == prefix@),
    {
        let n = prefix.unicode_len();
        if n > self.0.as_str().unicode_len() {
            return false;
        }
        let mut i: usize = 0;
        while i < n
            invariant
                n == prefix@.len() <= self.0@.len(),
                i <= n,
                self.0@.subrange(0, i as int) == prefix@.subrange(0, i as int),
            decreases n - i,
        {
            if self.0.as_str().get_char(i) != prefix.get_char(i) {
                assert(self.0@.subrange(0, n as int)[i as int] != prefix@[i as int]);
                return false;
            }
            assert(self.0@.subrange(0, i + 1) == self.0@.subrange(0, i as int).push(self.0@[i as int]));
            assert(prefix@.subrange(0, i + 1) == prefix@.subrange(0, i as int).push(prefix@[i as int]));
            i = i + 1;
        }
        assert(prefix@.subrange(0, n as int) == prefix@);
        true
    }
}

/// Method, target and version of a request.
#[derive(Debug, PartialEq)]
pub struct RequestLine(pub HttpMethod, pub RequestTarget, pub HttpVersion);

impl Clone for RequestLine {
    fn clone(&self) -> (r: Self)
        ensures
            r == *self,
    {
        RequestLine(self.0, self.1.clone(), self.2)
    }
}

/// The bytes that followed the header block.
#[derive(Debug)]
pub struct RequestBody(pub Vec<u8>);

impl View for RequestBody {
    type V = Seq<u8>;

    open spec fn view(&self) -> Seq<u8> {
        self.0@
    }
}

impl Clone for RequestBody {
    fn clone(&self) -> (r: Self)
        ensures
            r@ == self@,
    {
        RequestBody(self.0.clone())
    }
}

/// The mathematical value of a request.
pub ghost struct RequestView {
    pub method: HttpMethod,
    pub target: Seq<char>,
    pub version: HttpVersion,
    pub headers: Seq<HeaderView>,
    pub body: Option<Seq<u8>>,
}

/// A parsed request. It is never changed once built.
#[derive(Debug)]
pub struct Request {
    pub request_line: RequestLine,
    pub headers: Headers,
    pub body: Option<RequestBody>,
}

impl View for Request {
    type V = RequestView;

    open spec fn view(&self) -> RequestView {
        RequestView {
            method: self.request_line.0,
            target: self.request_line.1.0@,
            version: self.request_line.2,
            headers: self.headers@,
            body: match self.body {
                Some(b) => Some(b@),
                None => None,
            },
        }
    }
}

impl Clone for Request {
    fn clone(&self) -> (r: Self)
        ensures
            r@ == self@,
    {
        let body = match &self.body {
            Some(b) => Some(b.clone()),
            None => None,
        };
        Request { request_line: self.request_line.clone(), headers: self.headers.clone(), body }
    }
}

/// The first index at or after `i` that holds a `/`, or the length.
pub open spec fn slash_from(t: Seq<char>, i: int) -> int
    decreases t.len() - i,
{
    if i < 0 || i >= t.len() {
        t.len() as int
    } else if t[i] == '/' {
        i
    } else {
        slash_from(t, i + 1)
    }
}

/// A path segment: not empty and free of `/`.
pub open spec fn is_segment(s: Seq<char>) -> bool {
    s.len() > 0 && forall|i: int| 0 <= i < s.len() ==> s[i] != '/'
}

/// The route and path of a target. A target `/a` gives route `/a` and an
/// empty path, a target `/a/b` gives route `/a` and path `b`; every other
/// target gives route `/` and an empty path.
pub open spec fn split_target(t: Seq<char>) -> (Seq<char>, Seq<char>) {
    let k = slash_from(t, 1);
    if t.len() >= 2 && t[0] == '/' && k == t.len() {
        (t, Seq::empty())
    } else if t.len() >= 2 && t[0] == '/' && 1 < k && k + 1 < t.len() && slash_from(t, k + 1)
        == t.len() {
        (t.subrange(0, k), t.subrange(k + 1, t.len() as int))
    } else {
        ("/"@, Seq::empty())
    }
}

/// Where no `/` stands in `t[i..j]`, the search from `i` gives the search from `j`.
pub proof fn lemma_slash_from_skips(t: Seq<char>, i: int, j: int)
    requires
        1 <= i <= j <= t.len(),
        forall|m: int| i <= m < j ==> t[m] != '/',
    ensures
        slash_from(t, i) == slash_from(t, j),
    decreases j - i,
{
    if i < j {
        lemma_slash_from_skips(t, i + 1, j);
    }
}

/// A target of one segment is all route; a target of two segments is split
/// at the second `/`.
pub proof fn lemma_route_path_split(a: Seq<char>, b: Seq<char>)
    requires
        is_segment(a),
    ensures
        split_target(seq!['/'] + a) == (seq!['/'] + a, Seq::<char>::empty()),
        is_segment(b) ==> split_target(seq!['/'] + a + seq!['/'] + b) == (
            seq!['/'] + a,
            b,
        ),
{
    let t1 = seq!['/'] + a;
    assert forall|m: int| 1 <= m < t1.len() implies t1[m] != '/' by {
        assert(t1[m] == a[m - 1]);
    }
    lemma_slash_from_skips(t1, 1, t1.len() as int);
    if is_segment(b) {
        let t2 = seq!['/'] + a + seq!['/'] + b;
        let k: int = a.len() as int + 1;
        assert forall|m: int| 1 <= m < k implies t2[m] != '/' by {
            assert(t2[m] == a[m - 1]);
        }
        lemma_slash_from_skips(t2, 1, k);
        assert(t2[k] == '/');
        assert forall|m: int| k + 1 <= m < t2.len() implies t2[m] != '/' by {
            assert(t2[m] == b[m - k - 1]);
        }
        lemma_slash_from_skips(t2, k + 1, t2.len() as int);
        assert(t2.subrange(0, k) =~= seq!['/'] + a);
        assert(t2.subrange(k + 1, t2.len() as int) =~= b);
    }
}

/// Finds the first `/` at or after `i`.
fn find_slash(t: &str, i: usize, n: usize) -> (r: usize)
    requires
        n == t@.len(),
        1 <= i <= n,
    ensures
        r == slash_from(t@, i as int),
        i <= r <= n,
{
    let mut j = i;
    while j < n
        invariant
            n == t@.len(),
            1 <= i <= j <= n,
            slash_from(t@, i as int) == slash_from(t@, j as int),
        decreases n - j,
    {
        if t.get_char(j) == '/' {
            return j;
        }
        j = j + 1;
    }
    j
}

/// The route and the path of a target, as `split_target` states.
pub fn split_target_str(t: &str) -> (r: (String, String))
    ensures
        (r.0@, r.1@) == split_target(t@),
{
    let n = t.unicode_len();
    if n < 2 || t.get_char(0) != '/' {
        return ("/".to_string(), String::new());
    }
    let k = find_slash(t, 1, n);
    if k == n {
        return (t.to_string(), String::new());
    }
    if 1 < k && k + 1 < n {
        let k2 = find_slash(t, k + 1, n);
        if k2 == n {
            let route = t.substring_char(0, k).to_string();
            let path = t.substring_char(k + 1, n).to_string();
            return (route, path);
        }
    }
    ("/".to_string(), String::new())
}

impl Request {
    pub fn http_method(&self) -> (r: HttpMethod)
        ensures
            r == self@.method,
    {
        self.request_line.0
    }

    pub fn target(&self) -> (r: RequestTarget)
        ensures
            r.0@ == self@.target,
    {
        self.request_line.1.clone()
    }

    pub fn user_agent(&self) -> (r: Option<UserAgent>)
        ensures
            match first_user_agent(self@.headers) {
                Some(u) => r matches Some(v) && v.0@ == u,
                None => r is None,
            },
    {
        self.headers.user_agent()
    }

    pub fn connection(&self) -> (r: Option<Connection>)
        ensures
            r == first_connection(self@.headers),
    {
        self.headers.connection()
    }

    /// The path: the segment after the route, or empty.
    pub fn get_path(&self) -> (r: String)
        ensures
            r@ == split_target(self@.target).1,
    {
        split_target_str(self.request_line.1.0.as_str()).1
    }

    /// The route: the first segment of the target, or `/`.
    pub fn get_route(&self) -> (r: String)
        ensures
            r@ == split_target(self@.target).0,
    {
        split_target_str(self.request_line.1.0.as_str()).0
    }

    pub fn body(&self) -> (r: Option<RequestBody>)
        ensures
            match self@.body {
                Some(b) => r matches Some(v) && v@ == b,
                None => r is None,
            },
    {
        match &self.body {
            Some(b) => Some(b.clone()),
            None => None,
        }
    }

    pub fn headers(&self) -> (r: &Headers)
        ensures
            r@ == self@.headers,
    {
        &self.headers
    }
}

} // verus!
