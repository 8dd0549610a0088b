use vstd::prelude::*;
use vstd::slice::slice_to_vec;
use vstd::string::StringSliceAdditionalSpecFns;
use vstd::utf8::encode_utf8;
use crate::error::{Error, Result};

verus! {

/// The protocol version; only HTTP/1.1 is spoken.
#[derive(Debug, Clone, Copy, PartialEq, Eq, Structural)]
pub enum HttpVersion {
    HttpOne,
}

/// The status codes a response can carry.
#[derive(Debug, Clone, Copy, PartialEq, Eq, Structural)]
pub enum StatusCode {
    SC200,
    SC201,
    SC404,
}

/// The reason phrases matching the status codes.
#[derive(Debug, Clone, Copy, PartialEq, Eq, Structural)]
pub enum Reason {
    OK,
    Created,
    NotFound,
}


/// The value of a `Host` header.
#[derive(Debug, PartialEq)]
pub struct Host(pub String);

/// The value of a `User-Agent` header.
#[derive(Debug, PartialEq)]
pub struct UserAgent(pub String);

/// The value of an `Accept` header.
#[derive(Debug, PartialEq)]
pub struct Accept(pub String);

impl Clone for Host {
    fn clone(&self) -> (r: Self)
        ensures
            r == *self,
    {
        Host(self.0.clone())
    }
}

impl Clone for UserAgent {
    fn clone(&self) -> (r: Self)
        ensures
            r == *self,
    {
        UserAgent(self.0.clone())
    }
}

impl Clone for Accept {
    fn clone(&self) -> (r: Self)
        ensures
            r == *self,
    {
        Accept(self.0.clone())
    }
}

/// The two media types a body can be declared with.
#[derive(Debug, Clone, Copy, PartialEq, Eq, Structural)]
pub enum ContentType {
    TextPlain,
    OctetStream,
}

impl ContentType {
    /// Reads a media type; anything but the two known names is refused.
    pub fn from2(s: &str) -> (r: Result<ContentType>)
        ensures
            s@ == "text/plain"@ ==> r == Ok::<ContentType, Error>(ContentType::TextPlain),
            s@ == "application/octet-stream"@ ==> r == Ok::<ContentType, Error>(
                ContentType::OctetStream,
            ),
            s@ != "text/plain"@ && s@ != "application/octet-stream"@ ==> r matches Err(
                Error::GeneralError(_),
            ),
    {
        proof {
            reveal_strlit("text/plain");
            reveal_strlit("application/octet-stream");
            assert("application/octet-stream"@[0] != "text/plain"@[0]);
        }
        if str_eq(s, "text/plain") {
            Ok(ContentType::TextPlain)
        } else if str_eq(s, "application/octet-stream") {
            Ok(ContentType::OctetStream)
        } else {
            Err(Error::GeneralError("not able to create ContentType".to_string()))
        }
    }
}

/// Character-wise equality of two strings.
pub fn str_eq(a: &str, b: &str) -> (r: bool)
    ensures
        r == (a@ == b@),
{
    let n = a.unicode_len();
    if n != b.unicode_len() {
        return false;
    }
    let mut i: usize = 0;
    while i < n
        invariant
            n == a@.len() == b@.len(),
            i <= n,
            a@.subrange(0, i as int) == b@.subrange(0, i as int),
        decreases n - i,
    {
        if a.get_char(i) != b.get_char(i) {
            assert(a@[i as int] != b@[i as int]);
            return false;
        }
        assert(a@.subrange(0, i + 1) == a@.subrange(0, i as int).push(a@[i as int]));
        assert(b@.subrange(0, i + 1) == b@.subrange(0, i as int).push(b@[i as int]));
        i = i + 1;
    }
    assert(a@ == a@.subrange(0, n as int));
    assert(b@ == b@.subrange(0, n as int));
    true
}

/// A `Content-Length` value.
#[derive(Debug, Clone, Copy, PartialEq, Eq, Structural)]
pub struct ContentLength(pub u32);

/// The content codings that are recognised.
#[derive(Debug, Clone, Copy, PartialEq, Eq, Structural)]
pub enum Encoding {
    Gzip,
}

impl Encoding {
    /// Reads a coding name; only `gzip` is known.
    pub fn from(value: &str) -> (r: Result<Self>)
        ensures
            value@ == "gzip"@ <==> r == Ok::<Encoding, Error>(Encoding::Gzip),
            value@ != "gzip"@ ==> r matches Err(Error::GeneralError(_)),
    {
        if str_eq(value, "gzip") {
            Ok(Encoding::Gzip)
        } else {
            Err(Error::GeneralError("Unsupported encoding".to_string()))
        }
    }
}

/// The codings a client accepts, in the order it listed them.
#[derive(Debug, PartialEq)]
pub struct AcceptEncoding(pub Vec<Encoding>);

impl Clone for AcceptEncoding {
    fn clone(&self) -> (r: Self)
        ensures
            r@ == self@,
    {
        AcceptEncoding(self.0.clone())
    }
}

impl View for AcceptEncoding {
    type V = Seq<Encoding>;

    open spec fn view(&self) -> Seq<Encoding> {
        self.0@
    }
}

impl AcceptEncoding {
    pub fn has_gzip(&self) -> (r: bool)
        ensures
            r == self@.contains(Encoding::Gzip),
    {
        let mut i: usize = 0;
        while i < self.0.len()
            invariant
                i <= self.0@.len(),
                forall|j: int| 0 <= j < i ==> self.0@[j] != Encoding::Gzip,
            decreases self.0@.len() - i,
        {
            if self.0[i] == Encoding::Gzip {
                return true;
            }
            i = i + 1;
        }
        false
    }

    pub fn gzip(&self) -> (r: Option<Encoding>)
        ensures
            r == (if self@.contains(Encoding::Gzip) {
                Some(Encoding::Gzip)
            } else {
                None
            }),
    {
        if self.has_gzip() {
            Some(Encoding::Gzip)
        } else {
            None
        }
    }
}

/// The single coding a body was encoded with.
#[derive(Debug, Clone, Copy, PartialEq, Eq, Structural)]
pub struct ContentEncoding(pub Encoding);

/// The connection option; only `close` exists, keep-alive is the default.
#[derive(Debug, Clone, Copy, PartialEq, Eq, Structural)]
pub enum Connection {
    Close,
}

/// One recognised header. The set is closed: there is no variant for an
/// unknown header.
#[derive(Debug, PartialEq)]
pub enum Header {
    Host(Host),
    UserAgent(UserAgent),
    Accept(Accept),
    ContentType(ContentType),
    ContentLength(ContentLength),
    AcceptEncoding(AcceptEncoding),
    ContentEncoding(ContentEncoding),
    Connection(Connection),
}

/// The mathematical value of a header.
pub ghost enum HeaderView {
    Host(Seq<char>),
    UserAgent(Seq<char>),
    Accept(Seq<char>),
    ContentType(ContentType),
    ContentLength(u32),
    AcceptEncoding(Seq<Encoding>),
    ContentEncoding(Encoding),
    Connection(Connection),
}

impl View for Header {
    type V = HeaderView;

    open spec fn view(&self) -> HeaderView {
        match self {
            Header::Host(h) => HeaderView::Host(h.0@),
            Header::UserAgent(u) => HeaderView::UserAgent(u.0@),
            Header::Accept(a) => HeaderView::Accept(a.0@),
            Header::ContentType(c) => HeaderView::ContentType(*c),
            Header::ContentLength(l) => HeaderView::ContentLength(l.0),
            Header::AcceptEncoding(e) => HeaderView::AcceptEncoding(e@),
            Header::ContentEncoding(e) => HeaderView::ContentEncoding(e.0),
            Header::Connection(c) => HeaderView::Connection(*c),
        }
    }
}

impl Clone for Header {
    fn clone(&self) -> (r: Self)
        ensures
            r@ == self@,
    {
        match self {
            Header::Host(h) => Header::Host(h.clone()),
            Header::UserAgent(u) => Header::UserAgent(u.clone()),
            Header::Accept(a) => Header::Accept(a.clone()),
            Header::ContentType(c) => Header::ContentType(*c),
            Header::ContentLength(l) => Header::ContentLength(*l),
            Header::AcceptEncoding(e) => Header::AcceptEncoding(e.clone()),
            Header::ContentEncoding(e) => Header::ContentEncoding(*e),
            Header::Connection(c) => Header::Connection(*c),
        }
    }
}

impl Header {
    pub fn host(value: &str) -> (r: Self)
        ensures
            r@ == HeaderView::Host(value@),
    {
        Self::Host(Host(value.to_string()))
    }

    pub fn user_agent(value: &str) -> (r: Self)
        ensures
            r@ == HeaderView::UserAgent(value@),
    {
        Self::UserAgent(UserAgent(value.to_string()))
    }

    pub fn accept(value: &str) -> (r: Self)
        ensures
            r@ == HeaderView::Accept(value@),
    {
        Self::Accept(Accept(value.to_string()))
    }

    pub fn content_type(value: ContentType) -> (r: Self)
        ensures
            r@ == HeaderView::ContentType(value),
    {
        Self::ContentType(value)
    }

    pub fn content_length(value: u32) -> (r: Self)
        ensures
            r@ == HeaderView::ContentLength(value),
    {
        Self::ContentLength(ContentLength(value))
    }

    pub fn accept_encoding(value: &[Encoding]) -> (r: Self)
        ensures
            r@ == HeaderView::AcceptEncoding(value@),
    {
        let mut v: Vec<Encoding> = Vec::new();
        let mut i: usize = 0;
        while i < value.len()
            invariant
                i <= value@.len(),
                v@ == value@.subrange(0, i as int),
            decreases value@.len() - i,
        {
            v.push(value[i]);
            assert(value@.subrange(0, i + 1) == value@.subrange(0, i as int).push(value@[i as int]));
            i = i + 1;
        }
        assert(value@.subrange(0, value@.len() as int) == value@);
        Self::AcceptEncoding(AcceptEncoding(v))
    }

    pub fn content_encoding(value: Encoding) -> (r: Self)
        ensures
            r@ == HeaderView::ContentEncoding(value),
    {
        Self::ContentEncoding(ContentEncoding(value))
    }

    pub fn connection(value: Connection) -> (r: Self)
        ensures
            r@ == HeaderView::Connection(value),
    {
        Self::Connection(value)
    }
}

/// The views of a sequence of headers.
pub open spec fn headers_view(hs: Seq<Header>) -> Seq<HeaderView> {
    hs.map_values(|h: Header| h@)
}

/// The value of the first `Content-Length` header, if any.
pub open spec fn first_content_length(hs: Seq<HeaderView>) -> Option<u32>
    decreases hs.len(),
{
    if hs.len() == 0 {
        None
    } else {
        match hs[0] {
            HeaderView::ContentLength(n) => Some(n),
            _ => first_content_length(hs.drop_first()),
        }
    }
}

/// The value of the first `User-Agent` header, if any.
pub open spec fn first_user_agent(hs: Seq<HeaderView>) -> Option<Seq<char>>
    decreases hs.len(),
{
    if hs.len() == 0 {
        None
    } else {
        match hs[0] {
            HeaderView::UserAgent(u) => Some(u),
            _ => first_user_agent(hs.drop_first()),
        }
    }
}

/// The value of the first `Accept-Encoding` header, if any.
pub open spec fn first_accept_encoding(hs: Seq<HeaderView>) -> Option<Seq<Encoding>>
    decreases hs.len(),
{
    if hs.len() == 0 {
        None
    } else {
        match hs[0] {
            HeaderView::AcceptEncoding(e) => Some(e),
            _ => first_accept_encoding(hs.drop_first()),
        }
    }
}

/// The value of the first `Connection` header, if any.
pub open spec fn first_connection(hs: Seq<HeaderView>) -> Option<Connection>
    decreases hs.len(),
{
    if hs.len() == 0 {
        None
    } else {
        match hs[0] {
            HeaderView::Connection(c) => Some(c),
            _ => first_connection(hs.drop_first()),
        }
    }
}

/// The headers of a request, in the order they arrived. Duplicates are kept;
/// lookups return the first match.
#[derive(Debug)]
pub struct Headers(pub Vec<Header>);

impl View for Headers {
    type V = Seq<HeaderView>;

    open spec fn view(&self) -> Seq<HeaderView> {
        headers_view(self.0@)
    }
}

/// Copies a header vector, keeping every header's value.
pub fn copy_headers(hs: &Vec<Header>) -> (r: Vec<Header>)
    ensures
        headers_view(r@) == headers_view(hs@),
{
    let mut r: Vec<Header> = Vec::new();
    let mut i: usize = 0;
    while i < hs.len()
        invariant
            i <= hs@.len(),
            r@.len() == i,
            forall|j: int| 0 <= j < i ==> r@[j]@ == hs@[j]@,
        decreases hs@.len() - i,
    {
        r.push(hs[i].clone());
        i = i + 1;
    }
    assert(headers_view(r@) =~= headers_view(hs@));
    r
}

impl Clone for Headers {
    fn clone(&self) -> (r: Self)
        ensures
            r@ == self@,
    {
        Headers(copy_headers(&self.0))
    }
}

impl Headers {
    pub fn content_length(&self) -> (r: Option<ContentLength>)
        ensures
            match first_content_length(self@) {
                Some(n) => r == Some(ContentLength(n)),
                None => r is None,
            },
    {
        let mut i: usize = 0;
        assert(self@.subrange(0, self@.len() as int) == self@);
        while i < self.0.len()
            invariant
                i <= self.0@.len(),
                self@.len() == self.0@.len(),
                first_content_length(self@) == first_content_length(self@.subrange(i as int, self@.len() as int)),
            decreases self.0@.len() - i,
        {
            assert(self@.subrange(i as int, self@.len() as int).drop_first() == self@.subrange(i + 1, self@.len() as int));
            if let Header::ContentLength(cl) = &self.0[i] {
                return Some(*cl);
            }
            i = i + 1;
        }
        None
    }

    pub fn user_agent(&self) -> (r: Option<UserAgent>)
        ensures
            match first_user_agent(self@) {
                Some(u) => r matches Some(v) && v.0@ == u,
                None => r is None,
            },
    {
        let mut i: usize = 0;
        assert(self@.subrange(0, self@.len() as int) == self@);
        while i < self.0.len()
            invariant
                i <= self.0@.len(),
                self@.len() == self.0@.len(),
                first_user_agent(self@) == first_user_agent(self@.subrange(i as int, self@.len() as int)),
            decreases self.0@.len() - i,
        {
            assert(self@.subrange(i as int, self@.len() as int).drop_first() == self@.subrange(i + 1, self@.len() as int));
            if let Header::UserAgent(u) = &self.0[i] {
                return Some(u.clone());
            }
            i = i + 1;
        }
        None
    }

    pub fn accept_encoding(&self) -> (r: Option<AcceptEncoding>)
        ensures
            match first_accept_encoding(self@) {
                Some(e) => r matches Some(v) && v@ == e,
                None => r is None,
            },
    {
        let mut i: usize = 0;
        assert(self@.subrange(0, self@.len() as int) == self@);
        while i < self.0.len()
            invariant
                i <= self.0@.len(),
                self@.len() == self.0@.len(),
                first_accept_encoding(self@) == first_accept_encoding(self@.subrange(i as int, self@.len() as int)),
            decreases self.0@.len() - i,
        {
            assert(self@.subrange(i as int, self@.len() as int).drop_first() == self@.subrange(i + 1, self@.len() as int));
            if let Header::AcceptEncoding(a) = &self.0[i] {
                return Some(a.clone());
            }
            i = i + 1;
        }
        None
    }

    pub fn connection(&self) -> (r: Option<Connection>)
        ensures
            r == first_connection(self@),
    {
        let mut i: usize = 0;
        assert(self@.subrange(0, self@.len() as int) == self@);
        while i < self.0.len()
            invariant
                i <= self.0@.len(),
                self@.len() == self.0@.len(),
                first_connection(self@) == first_connection(self@.subrange(i as int, self@.len() as int)),
            decreases self.0@.len() - i,
        {
            assert(self@.subrange(i as int, self@.len() as int).drop_first() == self@.subrange(i + 1, self@.len() as int));
            if let Header::Connection(c) = &self.0[i] {
                return Some(*c);
            }
            i = i + 1;
        }
        None
    }
}

/// The bytes of a response body.
#[derive(Debug)]
pub struct ResponseBody(pub Vec<u8>);

impl View for ResponseBody {
    type V = Seq<u8>;

    open spec fn view(&self) -> Seq<u8> {
        self.0@
    }
}

impl Clone for ResponseBody {
    fn clone(&self) -> (r: Self)
        ensures
            r@ == self@,
    {
        ResponseBody(self.0.clone())
    }
}

/// Version, status code and optional reason phrase of a response.
#[derive(Debug, Clone, Copy)]
pub struct StatusLine(pub HttpVersion, pub StatusCode, pub Option<Reason>);

pub open spec fn status_ok() -> StatusLine {
    StatusLine(HttpVersion::HttpOne, StatusCode::SC200, Some(Reason::OK))
}

pub open spec fn status_created() -> StatusLine {
    StatusLine(HttpVersion::HttpOne, StatusCode::SC201, Some(Reason::Created))
}

pub open spec fn status_not_found() -> StatusLine {
    StatusLine(HttpVersion::HttpOne, StatusCode::SC404, Some(Reason::NotFound))
}

impl StatusLine {
    pub fn ok() -> (r: StatusLine)
        ensures
            r == status_ok(),
    {
        Self(HttpVersion::HttpOne, StatusCode::SC200, Some(Reason::OK))
    }

    pub fn created() -> (r: StatusLine)
        ensures
            r == status_created(),
    {
        Self(HttpVersion::HttpOne, StatusCode::SC201, Some(Reason::Created))
    }

    pub fn not_found() -> (r: StatusLine)
        ensures
            r == status_not_found(),
    {
        Self(HttpVersion::HttpOne, StatusCode::SC404, Some(Reason::NotFound))
    }
}

/// The mathematical value of a response.
pub ghost struct ResponseView {
    pub status: StatusLine,
    pub headers: Seq<HeaderView>,
    pub body: Option<Seq<u8>>,
}

/// A response: status line, headers in insertion order, optional body.
#[derive(Debug)]
pub struct Response(pub StatusLine, pub Vec<Header>, pub Option<ResponseBody>);

impl View for Response {
    type V = ResponseView;

    open spec fn view(&self) -> ResponseView {
        ResponseView {
            status: self.0,
            headers: headers_view(self.1@),
            body: match self.2 {
                Some(b) => Some(b@),
                None => None,
            },
        }
    }
}

impl Clone for Response {
    fn clone(&self) -> (r: Self)
        ensures
            r@ == self@,
    {
        let body = match &self.2 {
            Some(b) => Some(b.clone()),
            None => None,
        };
        Response(self.0, copy_headers(&self.1), body)
    }
}

/// The headers after a body of `n` bytes replaced the old one: every
/// `Content-Length` header now states `n`, every other header is kept.
pub open spec fn with_content_length(hs: Seq<HeaderView>, n: u32) -> Seq<HeaderView> {
    hs.map_values(
        |h: HeaderView|
            match h {
                HeaderView::ContentLength(_) => HeaderView::ContentLength(n),
                _ => h,
            },
    )
}

/// A 200 response with a body and the headers describing it.
pub open spec fn ok_view(ct: ContentType, body: Seq<u8>) -> ResponseView {
    ResponseView {
        status: status_ok(),
        headers: seq![HeaderView::ContentType(ct), HeaderView::ContentLength(body.len() as u32)],
        body: Some(body),
    }
}

impl Response {
    /// A 200 response carrying `body` as plain text.
    pub fn ok(body: &str) -> (r: Result<Self>)
        ensures
            body.spec_bytes().len() <= u32::MAX ==> (r matches Ok(resp) && resp@ == ok_view(
                ContentType::TextPlain,
                body.spec_bytes(),
            )),
            body.spec_bytes().len() > u32::MAX ==> r matches Err(Error::GeneralError(_)),
    {
        let bytes = body.as_bytes();
        if bytes.len() > u32::MAX as usize {
            return Err(Error::GeneralError("body too long".to_string()));
        }
        let len = bytes.len() as u32;
        let mut headers: Vec<Header> = Vec::new();
        headers.push(Header::ContentType(ContentType::TextPlain));
        headers.push(Header::ContentLength(ContentLength(len)));
        let r = Response(StatusLine::ok(), headers, Some(ResponseBody(slice_to_vec(bytes))));
        assert(r@.headers =~= ok_view(ContentType::TextPlain, body.spec_bytes()).headers);
        Ok(r)
    }

    /// A 200 response carrying `body` as raw bytes.
    pub fn ok_bin(body: &[u8]) -> (r: Result<Self>)
        ensures
            body@.len() <= u32::MAX ==> (r matches Ok(resp) && resp@ == ok_view(
                ContentType::OctetStream,
                body@,
            )),
            body@.len() > u32::MAX ==> r matches Err(Error::GeneralError(_)),
    {
        if body.len() > u32::MAX as usize {
            return Err(Error::GeneralError("body too long".to_string()));
        }
        let len = body.len() as u32;
        let mut headers: Vec<Header> = Vec::new();
        headers.push(Header::ContentType(ContentType::OctetStream));
        headers.push(Header::ContentLength(ContentLength(len)));
        let r = Response(StatusLine::ok(), headers, Some(ResponseBody(slice_to_vec(body))));
        assert(r@.headers =~= ok_view(ContentType::OctetStream, body@).headers);
        Ok(r)
    }

    /// Appends a header after the existing ones.
    pub fn add_header(&mut self, header: Header)
        ensures
            final(self)@ == (ResponseView {
                headers: old(self)@.headers.push(header@),
                ..old(self)@
            }),
    {
        let ghost h = header@;
        self.1.push(header);
        assert(headers_view(self.1@) =~= old(self)@.headers.push(h));
    }

    /// Replaces the body. Every `Content-Length` header is recomputed to the
    /// new length; other headers, including `Content-Type`, are kept as they
    /// are. A body whose length does not fit a `Content-Length` is refused
    /// and leaves the response unchanged.
    pub fn replace_body(&mut self, body: ResponseBody) -> (r: Result<()>)
        ensures
            body@.len() <= u32::MAX ==> r is Ok && final(self)@ == (ResponseView {
                status: old(self)@.status,
                headers: with_content_length(old(self)@.headers, body@.len() as u32),
                body: Some(body@),
            }),
            body@.len() > u32::MAX ==> (r matches Err(Error::GeneralError(_)) && final(self)@ == old(self)@),
    {
        if body.0.len() > u32::MAX as usize {
            return Err(Error::GeneralError("body too long".to_string()));
        }
        let n = body.0.len() as u32;
        let ghost old_hs = self@.headers;
        let mut hs: Vec<Header> = Vec::new();
        let mut i: usize = 0;
        while i < self.1.len()
            invariant
                i <= self.1@.len(),
                hs@.len() == i,
                old_hs == headers_view(self.1@),
                forall|j: int| 0 <= j < i ==> #[trigger] hs@[j]@ == with_content_length(old_hs, n)[j],
            decreases self.1@.len() - i,
        {
            let h = match &self.1[i] {
                Header::ContentLength(_) => Header::content_length(n),
                other => other.clone(),
            };
            hs.push(h);
            i = i + 1;
        }
        assert(headers_view(hs@) =~= with_content_length(old_hs, n));
        self.1 = hs;
        self.2 = Some(body);
        Ok(())
    }

    /// Transforms the body with `f`, if there is one, and then replaces it
    /// as `replace_body` does. Without a body nothing changes.
    pub fn set_body<F: Fn(&ResponseBody) -> Result<ResponseBody>>(&mut self, f: F) -> (r: Result<()>)
        requires
            forall|b: &ResponseBody| f.requires((b,)),
        ensures
            old(self).2 is None ==> r is Ok && final(self)@ == old(self)@,
            old(self).2 matches Some(b) ==> exists|fr: Result<ResponseBody>| #[trigger] f.ensures((&b,), fr) && match fr {
                Err(e) => r == Err::<(), Error>(e) && final(self)@ == old(self)@,
                Ok(nb) => if nb@.len() <= u32::MAX {
                    r is Ok && final(self)@ == (ResponseView {
                        status: old(self)@.status,
                        headers: with_content_length(old(self)@.headers, nb@.len() as u32),
                        body: Some(nb@),
                    })
                } else {
                    (r matches Err(Error::GeneralError(_)) && final(self)@ == old(self)@)
                },
            },
    {
        let fr = match &self.2 {
            None => return Ok(()),
            Some(b) => f(b),
        };
        match fr {
            Err(e) => Err(e),
            Ok(nb) => self.replace_body(nb),
        }
    }
}

/// After a body replacement a `Content-Length` header states the new length
/// exactly when one was present before; an absent one stays absent.
pub proof fn lemma_content_length_follows_body(hs: Seq<HeaderView>, n: u32)
    ensures
        first_content_length(with_content_length(hs, n)) == (if first_content_length(hs) is Some {
            Some(n)
        } else {
            None
        }),
    decreases hs.len(),
{
    if hs.len() > 0 {
        assert(with_content_length(hs, n).drop_first() =~= with_content_length(hs.drop_first(), n));
        lemma_content_length_follows_body(hs.drop_first(), n);
    }
}

/// `n` in decimal digits.
pub open spec fn decimal(n: nat) -> Seq<u8>
    decreases n,
{
    if n < 10 {
        seq![(48 + n) as u8]
    } else {
        decimal(n / 10).push((48 + n % 10) as u8)
    }
}

pub open spec fn crlf() -> Seq<u8> {
    seq![13u8, 10u8]
}

pub open spec fn encoding_bytes(e: Encoding) -> Seq<u8> {
    match e {
        Encoding::Gzip => "gzip".spec_bytes(),
    }
}

/// The coding names separated by `", "`.
pub open spec fn join_encodings(es: Seq<Encoding>) -> Seq<u8>
    decreases es.len(),
{
    if es.len() == 0 {
        seq![]
    } else if es.len() == 1 {
        encoding_bytes(es[0])
    } else {
        join_encodings(es.drop_last()) + ", ".spec_bytes() + encoding_bytes(es.last())
    }
}

pub open spec fn content_type_bytes(c: ContentType) -> Seq<u8> {
    match c {
        ContentType::TextPlain => "text/plain".spec_bytes(),
        ContentType::OctetStream => "application/octet-stream".spec_bytes(),
    }
}

/// The wire form of one header line, without its line break. The space
/// after the colon is present for `Host`, `User-Agent`, `Accept` and
/// `Content-Type` and absent for the others. Text values are written as
/// they are, without quoting.
pub open spec fn header_bytes(h: HeaderView) -> Seq<u8> {
    match h {
        HeaderView::Host(v) => "Host: ".spec_bytes() + encode_utf8(v),
        HeaderView::UserAgent(v) => "User-Agent: ".spec_bytes() + encode_utf8(v),
        HeaderView::Accept(v) => "Accept: ".spec_bytes() + encode_utf8(v),
        HeaderView::ContentType(c) => "Content-Type: ".spec_bytes() + content_type_bytes(c),
        HeaderView::ContentLength(n) => "Content-Length:".spec_bytes() + decimal(n as nat),
        HeaderView::AcceptEncoding(es) => "Accept-Encoding:".spec_bytes() + join_encodings(es),
        HeaderView::ContentEncoding(e) => "Content-Encoding:".spec_bytes() + encoding_bytes(e),
        HeaderView::Connection(_) => "Connection:close".spec_bytes(),
    }
}

/// Each header followed by a line break, in order.
pub open spec fn headers_bytes(hs: Seq<HeaderView>) -> Seq<u8>
    decreases hs.len(),
{
    if hs.len() == 0 {
        seq![]
    } else {
        headers_bytes(hs.drop_last()) + header_bytes(hs.last()) + crlf()
    }
}

pub open spec fn status_code_bytes(c: StatusCode) -> Seq<u8> {
    match c {
        StatusCode::SC200 => "200".spec_bytes(),
        StatusCode::SC201 => "201".spec_bytes(),
        StatusCode::SC404 => "404".spec_bytes(),
    }
}

pub open spec fn reason_bytes(r: Option<Reason>) -> Seq<u8> {
    match r {
        Some(Reason::OK) => "OK".spec_bytes(),
        Some(Reason::Created) => "Created".spec_bytes(),
        Some(Reason::NotFound) => "Not Found".spec_bytes(),
        None => seq![],
    }
}

/// `VERSION SP CODE SP REASON`.
pub open spec fn status_line_bytes(s: StatusLine) -> Seq<u8> {
    "HTTP/1.1 ".spec_bytes() + status_code_bytes(s.1) + " ".spec_bytes() + reason_bytes(s.2)
}

/// The whole response on the wire: status line, headers, blank line, body.
pub open spec fn response_bytes(r: ResponseView) -> Seq<u8> {
    status_line_bytes(r.status) + crlf() + headers_bytes(r.headers) + crlf() + match r.body {
        Some(b) => b,
        None => seq![],
    }
}

/// Appends the bytes of `s`.
pub fn push_str(out: &mut Vec<u8>, s: &str)
    ensures
        final(out)@ == old(out)@ + s.spec_bytes(),
{
    push_bytes(out, s.as_bytes());
}

/// Appends `b`.
pub fn push_bytes(out: &mut Vec<u8>, b: &[u8])
    ensures
        final(out)@ == old(out)@ + b@,
{
    let ghost start = out@;
    let mut i: usize = 0;
    while i < b.len()
        invariant
            i <= b@.len(),
            out@ == start + b@.subrange(0, i as int),
        decreases b@.len() - i,
    {
        out.push(b[i]);
        assert(b@.subrange(0, i + 1) == b@.subrange(0, i as int).push(b@[i as int]));
        i = i + 1;
    }
    assert(b@.subrange(0, b@.len() as int) == b@);
}

/// Appends `n` in decimal digits.
pub fn push_decimal(out: &mut Vec<u8>, n: u32)
    ensures
        final(out)@ == old(out)@ + decimal(n as nat),
    decreases n,
{
    if n >= 10 {
        push_decimal(out, n / 10);
    }
    let d: u8 = (n % 10) as u8;
    out.push(48u8 + d);
    proof {
        if n >= 10 {
            assert(old(out)@ + decimal(n as nat) =~= (old(out)@ + decimal((n / 10) as nat)).push((48 + n % 10) as u8));
        } else {
            assert(old(out)@ + decimal(n as nat) =~= old(out)@.push((48 + n) as u8));
        }
    }
}

impl Encoding {
    pub fn push_to(&self, out: &mut Vec<u8>)
        ensures
            final(out)@ == old(out)@ + encoding_bytes(*self),
    {
        match self {
            Encoding::Gzip => push_str(out, "gzip"),
        }
    }
}

impl Header {
    /// Appends the wire form of this header line.
    pub fn push_to(&self, out: &mut Vec<u8>)
        ensures
            final(out)@ == old(out)@ + header_bytes(self@),
    {
        let ghost start = out@;
        match self {
            Header::Host(v) => {
                push_str(out, "Host: ");
                push_str(out, v.0.as_str());
            },
            Header::UserAgent(v) => {
                push_str(out, "User-Agent: ");
                push_str(out, v.0.as_str());
            },
            Header::Accept(v) => {
                push_str(out, "Accept: ");
                push_str(out, v.0.as_str());
            },
            Header::ContentType(c) => {
                push_str(out, "Content-Type: ");
                match c {
                    ContentType::TextPlain => push_str(out, "text/plain"),
                    ContentType::OctetStream => push_str(out, "application/octet-stream"),
                }
            },
            Header::ContentLength(n) => {
                push_str(out, "Content-Length:");
                push_decimal(out, n.0);
            },
            Header::AcceptEncoding(es) => {
                push_str(out, "Accept-Encoding:");
                let ghost mid = out@;
                let mut i: usize = 0;
                while i < es.0.len()
                    invariant
                        i <= es.0@.len(),
                        out@ == mid + join_encodings(es.0@.subrange(0, i as int)),
                    decreases es.0@.len() - i,
                {
                    let ghost before = es.0@.subrange(0, i as int);
                    if i > 0 {
                        push_str(out, ", ");
                    }
                    es.0[i].push_to(out);
                    proof {
                        let now = es.0@.subrange(0, i + 1);
                        assert(now.drop_last() =~= before);
                        if i == 0 {
                            assert(before =~= Seq::<Encoding>::empty());
                        }
                        assert(out@ =~= mid + join_encodings(now));
                    }
                    i = i + 1;
                }
                assert(es.0@.subrange(0, es.0@.len() as int) == es.0@);
            },
            Header::ContentEncoding(e) => {
                push_str(out, "Content-Encoding:");
                e.0.push_to(out);
            },
            Header::Connection(_) => {
                push_str(out, "Connection:close");
            },
        }
        assert(out@ =~= start + header_bytes(self@));
    }

    /// The wire form of this header line.
    pub fn to_bytes(&self) -> (r: Vec<u8>)
        ensures
            r@ == header_bytes(self@),
    {
        let mut out: Vec<u8> = Vec::new();
        self.push_to(&mut out);
        assert(out@ =~= header_bytes(self@));
        out
    }
}

impl StatusLine {
    /// Appends `VERSION SP CODE SP REASON`.
    pub fn push_to(&self, out: &mut Vec<u8>)
        ensures
            final(out)@ == old(out)@ + status_line_bytes(*self),
    {
        let ghost start = out@;
        push_str(out, "HTTP/1.1 ");
        match self.1 {
            StatusCode::SC200 => push_str(out, "200"),
            StatusCode::SC201 => push_str(out, "201"),
            StatusCode::SC404 => push_str(out, "404"),
        }
        push_str(out, " ");
        match self.2 {
            Some(Reason::OK) => push_str(out, "OK"),
            Some(Reason::Created) => push_str(out, "Created"),
            Some(Reason::NotFound) => push_str(out, "Not Found"),
            None => {},
        }
        assert(out@ =~= start + status_line_bytes(*self));
    }

    pub fn to_bytes(&self) -> (r: Vec<u8>)
        ensures
            r@ == status_line_bytes(*self),
    {
        let mut out: Vec<u8> = Vec::new();
        self.push_to(&mut out);
        assert(out@ =~= status_line_bytes(*self));
        out
    }
}

/// Appends a line break.
pub fn push_crlf(out: &mut Vec<u8>)
    ensures
        final(out)@ == old(out)@ + crlf(),
{
    out.push(13u8);
    out.push(10u8);
    assert(final(out)@ =~= old(out)@ + crlf());
}

impl Response {
    /// The response as it goes on the wire.
    pub fn to_bytes(&self) -> (r: Vec<u8>)
        ensures
            r@ == response_bytes(self@),
    {
        let mut out: Vec<u8> = Vec::new();
        self.0.push_to(&mut out);
        push_crlf(&mut out);
        let ghost mid = out@;
        let ghost hs = self@.headers;
        let mut i: usize = 0;
        while i < self.1.len()
            invariant
                i <= self.1@.len(),
                hs == headers_view(self.1@),
                out@ == mid + headers_bytes(hs.subrange(0, i as int)),
            decreases self.1@.len() - i,
        {
            self.1[i].push_to(&mut out);
            push_crlf(&mut out);
            assert(hs.subrange(0, i + 1).drop_last() =~= hs.subrange(0, i as int));
            assert(out@ =~= mid + headers_bytes(hs.subrange(0, i + 1)));
            i = i + 1;
        }
        assert(hs.subrange(0, hs.len() as int) == hs);
        push_crlf(&mut out);
        match &self.2 {
            Some(b) => push_bytes(&mut out, b.0.as_slice()),
            None => {},
        }
        assert(out@ =~= response_bytes(self@));
        out
    }
}

/// The request methods that are understood.
#[derive(Debug, Clone, Copy, PartialEq, Eq, Structural)]
pub enum HttpMethod {
    Get,
    Post,
}

impl HttpMethod {
    pub fn is_get(&self) -> (r: bool)
        ensures
            r == (*self == HttpMethod::Get),
    {
        match self {
            HttpMethod::Get => true,
            _ => false,
        }
    }

    pub fn is_post(&self) -> (r: bool)
        ensures
            r == (*self == HttpMethod::Post),
    {
        match self {
            HttpMethod::Post => true,
            _ => false,
        }
    }
}

} // verus!
