use http_endpoint::{
    parse_headers, parse_request, parse_request_line, parse_request_with, HeaderPolicy, Connection, ContentType, Encoding, Error,
    Header, HttpMethod, Request, Result,
};

fn decode_head(req: &[u8]) -> Option<Request> {
    let (line, end) = parse_request_line(req)?;
    if &req[end..end + 2] != b"\r\n" {
        return None;
    }
    let rest = &req[end + 2..];
    let (headers, used) = parse_headers(rest);
    if rest.len() < used + 2 || &rest[used..used + 2] != b"\r\n" {
        return None;
    }
    Some(Request { request_line: line, headers: http_endpoint::Headers(headers), body: None })
}

#[test]
fn test_decode_request_get() -> Result<()> {
    let req = b"GET /index.html HTTP/1.1\r\nHost: localhost:4221\r\nUser-Agent: curl/7.64.1\r\nAccept: */*\r\n\r\n";
    let result = decode_head(req);
    println!("resel {:?}", result);
    Ok(())
}

#[test]
fn test_decod_request_post() -> Result<()> {
    let req = b"POST /files/orange_pear_banana_strawberry HTTP/1.1\r\nHost: localhost:4221\r\nContent-Length: 63\r\nContent-Type: application/octet-stream\r\n\r\n";
    let result = decode_head(req);
    println!("resel {:?}", result);
    Ok(())
}

#[test]
fn test_accept_encoding() -> Result<()> {
    let req = b"GET /echo/pineapple HTTP/1.1\r\nHost: localhost:4221\r\nAccept-Encoding: encoding-1, gzip, encoding-2\r\n\r\n";
    let result = decode_head(req);
    println!("{:?}", result);
    assert!(result.is_some());
    assert_eq!(result.unwrap().get_route(), "/echo".to_string());
    Ok(())
}

#[test]
fn root_target_has_root_route_and_empty_path() {
    let req = parse_request(b"GET / HTTP/1.1\r\nHost: localhost:4221\r\n\r\n").unwrap();
    assert_eq!(req.get_route(), "/");
    assert_eq!(req.get_path(), "");
    assert_eq!(req.http_method(), HttpMethod::Get);
    assert_eq!(req.headers.0, vec![Header::host("localhost:4221")]);
    assert_eq!(req.body.unwrap().0, Vec::<u8>::new());
}

#[test]
fn echo_target_splits_route_and_path() {
    let req = parse_request(b"GET /echo/hello HTTP/1.1\r\nHost: x\r\n\r\n").unwrap();
    assert_eq!(req.get_route(), "/echo");
    assert_eq!(req.get_path(), "hello");
}

#[test]
fn deeper_targets_fall_back_to_root() {
    let req = parse_request(b"GET /a/b/c HTTP/1.1\r\n\r\n").unwrap();
    assert_eq!(req.get_route(), "/");
    assert_eq!(req.get_path(), "");
    let req = parse_request(b"GET /files HTTP/1.1\r\n\r\n").unwrap();
    assert_eq!(req.get_route(), "/files");
    assert_eq!(req.get_path(), "");
    let req = parse_request(b"GET /a/ HTTP/1.1\r\n\r\n").unwrap();
    assert_eq!(req.get_route(), "/");
}

#[test]
fn accept_encoding_keeps_only_gzip() {
    let (headers, used) = parse_headers(b"Accept-Encoding: encoding-1, gzip, encoding-2\r\n\r\n");
    assert_eq!(headers, vec![Header::accept_encoding(&[Encoding::Gzip])]);
    assert_eq!(used, 47);
}

#[test]
fn accept_encoding_without_known_coding_is_omitted() {
    let req = parse_request(b"GET /echo/x HTTP/1.1\r\nAccept-Encoding: br, deflate\r\nHost: h\r\n\r\n").unwrap();
    assert_eq!(req.headers.0, vec![Header::host("h")]);
    assert!(req.headers.accept_encoding().is_none());
}

#[test]
fn accept_encoding_tokens_are_trimmed() {
    let (headers, _) = parse_headers(b"Accept-Encoding:   gzip \t, gzip\r\n");
    assert_eq!(headers, vec![Header::accept_encoding(&[Encoding::Gzip, Encoding::Gzip])]);
}

#[test]
fn post_body_is_kept_verbatim() {
    let req = parse_request(b"POST /files/report HTTP/1.1\r\nContent-Length: 5\r\n\r\nhello").unwrap();
    assert_eq!(req.http_method(), HttpMethod::Post);
    assert_eq!(req.get_route(), "/files");
    assert_eq!(req.get_path(), "report");
    assert_eq!(req.body().unwrap().0, b"hello".to_vec());
    assert_eq!(req.headers.content_length().unwrap().0, 5);
}

#[test]
fn typed_headers_are_read() {
    let req = parse_request(
        b"POST /x HTTP/1.1\r\nContent-Type: application/octet-stream\r\nContent-Encoding: gzip\r\nConnection: close\r\nUser-Agent: ua\r\nAccept: */*\r\n\r\n",
    )
    .unwrap();
    assert_eq!(
        req.headers.0,
        vec![
            Header::content_type(ContentType::OctetStream),
            Header::content_encoding(Encoding::Gzip),
            Header::connection(Connection::Close),
            Header::user_agent("ua"),
            Header::accept("*/*"),
        ]
    );
    assert_eq!(req.connection(), Some(Connection::Close));
    assert_eq!(req.user_agent().unwrap().0, "ua");
}

#[test]
fn first_of_duplicate_headers_wins() {
    let req = parse_request(b"GET / HTTP/1.1\r\nUser-Agent: one\r\nUser-Agent: two\r\nContent-Length: 3\r\nContent-Length: 4\r\n\r\n").unwrap();
    assert_eq!(req.user_agent().unwrap().0, "one");
    assert_eq!(req.headers.content_length().unwrap().0, 3);
}

fn parse_error(input: &[u8]) -> bool {
    matches!(parse_request(input), Err(Error::GeneralError(m)) if m == "Parser error")
}

#[test]
fn unknown_header_aborts_the_parse() {
    assert!(parse_error(b"GET / HTTP/1.1\r\nX-Custom: 1\r\n\r\n"));
}

#[test]
fn bad_header_values_abort_the_parse() {
    assert!(parse_error(b"GET / HTTP/1.1\r\nContent-Type: text/html\r\n\r\n"));
    assert!(parse_error(b"GET / HTTP/1.1\r\nContent-Length: abc\r\n\r\n"));
    assert!(parse_error(b"GET / HTTP/1.1\r\nContent-Length: 4294967296\r\n\r\n"));
    assert!(parse_error(b"GET / HTTP/1.1\r\nContent-Encoding: br\r\n\r\n"));
    assert!(parse_error(b"GET / HTTP/1.1\r\nConnection: keep-alive\r\n\r\n"));
    assert!(parse_error(b"GET / HTTP/1.1\r\nHost: \xff\r\n\r\n"));
}

#[test]
fn content_length_reads_like_str_parse() {
    let req = parse_request(b"GET / HTTP/1.1\r\nContent-Length: +0042\r\n\r\n").unwrap();
    assert_eq!(req.headers.content_length().unwrap().0, 42);
    let req = parse_request(b"GET / HTTP/1.1\r\nContent-Length: 4294967295\r\n\r\n").unwrap();
    assert_eq!(req.headers.content_length().unwrap().0, u32::MAX);
    assert!(parse_error(b"GET / HTTP/1.1\r\nContent-Length: +\r\n\r\n"));
    assert!(parse_error(b"GET / HTTP/1.1\r\nContent-Length: -1\r\n\r\n"));
    assert!(parse_error(b"GET / HTTP/1.1\r\nContent-Length: \r\n\r\n"));
}

#[test]
fn request_line_errors() {
    assert!(parse_error(b"PUT / HTTP/1.1\r\n\r\n"));
    assert!(parse_error(b"GET/ HTTP/1.1\r\n\r\n"));
    assert!(parse_error(b"GET  HTTP/1.1\r\n\r\n"));
    assert!(parse_error(b"GET /x HTTP/1.1"));
    assert!(parse_error(b"GET /x HTTP/1.1\r\n"));
    assert!(parse_error(b""));
    assert!(parse_error(b"GET /\xff HTTP/1.1\r\n\r\n"));
}

#[test]
fn version_text_is_not_checked() {
    let req = parse_request(b"GET \t /v  anything at all\r\n\r\n").unwrap();
    assert_eq!(req.target().0, "/v");
    let (line, end) = parse_request_line(b"POST /p HTTP/9\r\nrest").unwrap();
    assert_eq!(line.0, HttpMethod::Post);
    assert_eq!(end, 14);
}

#[test]
fn skip_policy_passes_over_unknown_lines() {
    let raw = b"GET /a HTTP/1.1\r\nX-Custom: 1\r\nHost: h\r\nContent-Length: nope\r\n\r\nxy";
    let req = parse_request_with(raw, HeaderPolicy::SkipUnknown).unwrap();
    assert_eq!(req.headers.0, vec![Header::host("h")]);
    assert_eq!(req.body.unwrap().0, b"xy".to_vec());
    assert!(matches!(parse_request_with(raw, HeaderPolicy::Strict), Err(Error::GeneralError(_))));
}
