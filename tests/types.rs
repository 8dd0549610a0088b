use http_endpoint::{
    bytes_missing, parse_request, reply, State, AcceptEncoding, Connection, ContentType, Context, Encoding, Error, Header, Headers,
    HttpMethod, RequestTarget, Response, ResponseBody, StatusLine,
};

#[test]
fn header_wire_forms() {
    assert_eq!(Header::host("h:1").to_bytes(), b"Host: h:1".to_vec());
    assert_eq!(Header::user_agent("ua").to_bytes(), b"User-Agent: ua".to_vec());
    assert_eq!(Header::accept("*/*").to_bytes(), b"Accept: */*".to_vec());
    assert_eq!(
        Header::content_type(ContentType::OctetStream).to_bytes(),
        b"Content-Type: application/octet-stream".to_vec()
    );
    assert_eq!(Header::content_length(0).to_bytes(), b"Content-Length:0".to_vec());
    assert_eq!(Header::content_length(4294967295).to_bytes(), b"Content-Length:4294967295".to_vec());
    assert_eq!(
        Header::accept_encoding(&[Encoding::Gzip, Encoding::Gzip]).to_bytes(),
        b"Accept-Encoding:gzip, gzip".to_vec()
    );
    assert_eq!(Header::accept_encoding(&[]).to_bytes(), b"Accept-Encoding:".to_vec());
    assert_eq!(Header::content_encoding(Encoding::Gzip).to_bytes(), b"Content-Encoding:gzip".to_vec());
    assert_eq!(Header::connection(Connection::Close).to_bytes(), b"Connection:close".to_vec());
}

#[test]
fn status_lines() {
    assert_eq!(StatusLine::ok().to_bytes(), b"HTTP/1.1 200 OK".to_vec());
    assert_eq!(StatusLine::created().to_bytes(), b"HTTP/1.1 201 Created".to_vec());
    assert_eq!(StatusLine::not_found().to_bytes(), b"HTTP/1.1 404 Not Found".to_vec());
}

#[test]
fn response_without_headers_or_body() {
    let r = Response(StatusLine::ok(), vec![], None);
    assert_eq!(r.to_bytes(), b"HTTP/1.1 200 OK\r\n\r\n".to_vec());
}

#[test]
fn ok_constructors() {
    let r = Response::ok("hi").unwrap();
    assert_eq!(
        r.to_bytes(),
        b"HTTP/1.1 200 OK\r\nContent-Type: text/plain\r\nContent-Length:2\r\n\r\nhi".to_vec()
    );
    let r = Response::ok_bin(&[0u8, 255]).unwrap();
    assert_eq!(
        r.to_bytes(),
        b"HTTP/1.1 200 OK\r\nContent-Type: application/octet-stream\r\nContent-Length:2\r\n\r\n\x00\xff".to_vec()
    );
    let r = Response::ok("").unwrap();
    assert_eq!(r.2.unwrap().0, Vec::<u8>::new());
}

#[test]
fn replacing_the_body_recomputes_content_length() {
    let mut r = Response::ok("hello").unwrap();
    r.add_header(Header::content_length(99));
    r.replace_body(ResponseBody(b"abc".to_vec())).unwrap();
    assert_eq!(
        r.1,
        vec![
            Header::content_type(ContentType::TextPlain),
            Header::content_length(3),
            Header::content_length(3),
        ]
    );
    assert_eq!(r.2.unwrap().0, b"abc".to_vec());
}

#[test]
fn replacing_the_body_keeps_content_length_absent() {
    let mut r = Response(StatusLine::ok(), vec![Header::host("h")], None);
    r.replace_body(ResponseBody(b"abcd".to_vec())).unwrap();
    assert_eq!(r.1, vec![Header::host("h")]);
    assert_eq!(r.2.unwrap().0, b"abcd".to_vec());
}

#[test]
fn set_body_transforms_an_existing_body() {
    let mut r = Response::ok("hello").unwrap();
    r.set_body(|b: &ResponseBody| Ok(ResponseBody(b.0[1..].to_vec()))).unwrap();
    assert_eq!(r.1[1], Header::content_length(4));
    assert_eq!(r.2.as_ref().unwrap().0, b"ello".to_vec());

    let mut r = Response(StatusLine::ok(), vec![Header::content_length(7)], None);
    r.set_body(|_: &ResponseBody| Ok(ResponseBody(vec![1]))).unwrap();
    assert_eq!(r.1, vec![Header::content_length(7)]);
    assert!(r.2.is_none());

    let mut r = Response::ok("x").unwrap();
    let e = r.set_body(|_: &ResponseBody| Err(Error::Utf8ConversionError));
    assert!(matches!(e, Err(Error::Utf8ConversionError)));
    assert_eq!(r.2.unwrap().0, b"x".to_vec());
}

#[test]
fn header_lookups_take_the_first_match() {
    let hs = Headers(vec![
        Header::host("h"),
        Header::accept_encoding(&[Encoding::Gzip]),
        Header::content_length(1),
        Header::connection(Connection::Close),
        Header::content_length(2),
        Header::user_agent("a"),
        Header::user_agent("b"),
    ]);
    assert_eq!(hs.content_length().unwrap().0, 1);
    assert_eq!(hs.user_agent().unwrap().0, "a");
    assert_eq!(hs.connection(), Some(Connection::Close));
    assert!(hs.accept_encoding().unwrap().has_gzip());
    let empty = Headers(vec![]);
    assert!(empty.content_length().is_none());
    assert!(empty.user_agent().is_none());
    assert!(empty.accept_encoding().is_none());
    assert!(empty.connection().is_none());
}

#[test]
fn accept_encoding_gzip() {
    assert_eq!(AcceptEncoding(vec![Encoding::Gzip]).gzip(), Some(Encoding::Gzip));
    assert_eq!(AcceptEncoding(vec![]).gzip(), None);
    assert!(!AcceptEncoding(vec![]).has_gzip());
}

#[test]
fn names_of_types_and_codings() {
    assert_eq!(ContentType::from2("text/plain").unwrap(), ContentType::TextPlain);
    assert_eq!(ContentType::from2("application/octet-stream").unwrap(), ContentType::OctetStream);
    assert!(matches!(ContentType::from2("text/html"), Err(Error::GeneralError(_))));
    assert_eq!(Encoding::from("gzip").unwrap(), Encoding::Gzip);
    assert!(matches!(Encoding::from("br"), Err(Error::GeneralError(_))));
}

#[test]
fn methods_and_targets() {
    assert!(HttpMethod::Get.is_get());
    assert!(!HttpMethod::Get.is_post());
    assert!(HttpMethod::Post.is_post());
    let t = RequestTarget("/files/x".to_string());
    assert!(t.start_with("/files"));
    assert!(!t.start_with("/filesx/"));
    assert!(t.start_with(""));
}

#[test]
fn context_wraps_io_failures() {
    let failed: std::result::Result<u8, std::io::Error> =
        Err(std::io::Error::new(std::io::ErrorKind::Other, "boom"));
    assert!(matches!(failed.context("reading"), Err(Error::ErrorWrapper(m, _)) if m == "reading"));
    let failed: std::result::Result<u8, std::io::Error> =
        Err(std::io::Error::new(std::io::ErrorKind::Other, "boom"));
    assert!(matches!(failed.with_context(|| "later".to_string()), Err(Error::ErrorWrapper(m, _)) if m == "later"));
    let fine: std::result::Result<u8, std::io::Error> = Ok(3);
    assert_eq!(fine.context("x").unwrap(), 3);
}

#[test]
fn header_end_finds_the_blank_line() {
    assert_eq!(http_endpoint::header_end(b"GET / HTTP/1.1\r\n\r\nbody"), Some(18));
    assert_eq!(http_endpoint::header_end(b"GET / HTTP/1.1\r\nHost: h\r\n"), None);
    assert_eq!(http_endpoint::header_end(b""), None);
}

#[test]
fn bytes_missing_follows_content_length() {
    assert_eq!(bytes_missing(b"POST /f HTTP/1.1\r\nContent-Length: 5\r\n"), None);
    assert_eq!(bytes_missing(b"POST /f HTTP/1.1\r\nContent-Length: 5\r\n\r\nhe"), Some(3));
    assert_eq!(bytes_missing(b"POST /f HTTP/1.1\r\nContent-Length: 5\r\n\r\nhello"), Some(0));
    assert_eq!(bytes_missing(b"GET / HTTP/1.1\r\n\r\n"), Some(0));
    assert_eq!(bytes_missing(b"GET / HTTP/1.1\r\nX: y\r\n\r\n"), Some(0));
}

#[test]
fn reply_writes_complete_states_and_honours_close() {
    let req = parse_request(b"GET / HTTP/1.1\r\n\r\n").unwrap();
    assert_eq!(reply(&State::incomplete(req)), (None, false));
    let req = parse_request(b"GET / HTTP/1.1\r\nConnection: close\r\n\r\n").unwrap();
    let resp = Response(StatusLine::not_found(), vec![], None);
    let (bytes, close) = reply(&State::complete(req, resp));
    assert_eq!(bytes.unwrap(), b"HTTP/1.1 404 Not Found\r\n\r\n".to_vec());
    assert!(close);
}
