use http_endpoint::{
    close_connection, gzip, gzip_response, http_method, lift, mk_response, modify_response,
    not_found, ok, parse_request, path, read_response, req_body, route, route_for, state,
    user_agent, write_response, Body,
    Connection, ContentType, Encoding, Endpoint, Error, Header, HttpMethod, Request, RequestBody,
    Response, Result, State, StatusCode, UnitT, UserAgent,
};

fn incomplete(raw: &[u8]) -> State {
    State::incomplete(parse_request(raw).unwrap())
}

fn response_of(state: &State) -> &Response {
    match state {
        State::Complete(c) => &c.1,
        State::Incomplete(_) => panic!("no response attached"),
    }
}

#[test]
fn endpoint_test_get() -> Result<()> {
    let req = b"GET /user-agent HTTP/1.1\r\nHost: localhost:4221\r\nConnection: close\r\n\r\n";

    let req = parse_request(req)?;
    let state = State::incomplete(req);
    let g = route::get("/user-agent")
        .set_response(ok("okkkkkk"))
        .or(route::get("/").set_response(ok("ok")))
        .and(close_connection());

    let res = g.handle(state)?;
    println!("{:?}", res.0);
    Ok(())
}

#[test]
fn test_get_user_agent() -> Result<()> {
    let req = b"GET /user-agent HTTP/1.1\r\nHost: localhost:4221\r\nUser-Agent: curl/7.64.1\r\nAccept: */*\r\n\r\n";
    let req = parse_request(req)?;
    let state = State::incomplete(req);
    let response = |v: Option<UserAgent>| ok(v.map(|v| v.0).unwrap_or("".to_string()));
    let (state, _r) = route::get("/user-agent")
        .set_response(user_agent().flat_map(response))
        .handle(state)?;

    println!("{:?}", state);

    Ok(())
}

#[test]
fn test_get_echo() -> Result<()> {
    let req = b"GET /echo/hello HTTP/1.1\r\nHost: localhost:4221\r\nUser-Agent: curl/7.64.1\r\nAccept: */*\r\n\r\n";
    let req = parse_request(req)?;
    let state = State::incomplete(req);

    let (state, _r) = route::get("/echo")
        .set_response(path().flat_map(|v| ok(v)))
        .handle(state)?;

    println!("{:?}", state);

    Ok(())
}

#[test]
fn echo_responds_with_the_path() {
    let state = incomplete(b"GET /echo/hello HTTP/1.1\r\nHost: localhost:4221\r\n\r\n");
    let (state, out) = route::get("/echo")
        .set_response(path().flat_map(|v| ok(v)))
        .handle(state)
        .unwrap();
    assert_eq!(out, UnitT);
    let resp = response_of(&state);
    assert_eq!(resp.2.as_ref().unwrap().0, b"hello".to_vec());
    assert_eq!(
        resp.1,
        vec![Header::content_type(ContentType::TextPlain), Header::content_length(5)]
    );
    assert_eq!(
        resp.to_bytes(),
        b"HTTP/1.1 200 OK\r\nContent-Type: text/plain\r\nContent-Length:5\r\n\r\nhello".to_vec()
    );
}

#[test]
fn user_agent_is_echoed() {
    let state = incomplete(b"GET /user-agent HTTP/1.1\r\nHost: x\r\nUser-Agent: curl/7.64.1\r\n\r\n");
    let response = |v: Option<UserAgent>| ok(v.map(|v| v.0).unwrap_or("".to_string()));
    let (state, _) = route::get("/user-agent")
        .set_response(user_agent().flat_map(response))
        .handle(state)
        .unwrap();
    let resp = response_of(&state);
    assert_eq!(resp.2.as_ref().unwrap().0, b"curl/7.64.1".to_vec());
    assert_eq!(resp.1[1], Header::content_length(11));
}

#[test]
fn post_to_files_answers_created() {
    let state = incomplete(b"POST /files/report HTTP/1.1\r\nContent-Length: 5\r\n\r\nhello");
    let store = |(file, body): (String, Option<RequestBody>)| {
        let data = body.unwrap().0;
        assert_eq!(file, "report");
        assert_eq!(data, b"hello".to_vec());
        lift(write_response(true))
    };
    let (state, _) = route::post("/files")
        .set_response(path().and(req_body()).flat_map(store))
        .handle(state)
        .unwrap();
    let resp = response_of(&state);
    assert_eq!(
        resp.to_bytes(),
        b"HTTP/1.1 201 Created\r\nContent-Type: text/plain\r\nContent-Length:0\r\n\r\n".to_vec()
    );
}

#[test]
fn alternative_sees_the_untouched_state() {
    let st = incomplete(b"GET /b HTTP/1.1\r\n\r\n");
    let seen = |s: State| -> Response {
        assert!(matches!(s, State::Incomplete(_)));
        mk_response("b", StatusCode::SC200)
    };
    let first = route::get("/a").set_response(ok("a"));
    let second = route::get("/b").set_response(state().map(seen));
    let (st, _) = first.or(second).handle(st).unwrap();
    assert_eq!(response_of(&st).2.as_ref().unwrap().0, b"b".to_vec());
}

#[test]
fn failed_first_branch_leaves_no_response_behind() {
    let st = incomplete(b"GET /b HTTP/1.1\r\n\r\n");
    let first = state()
        .set_response(ok("partial"))
        .and(route_for("/a"))
        .unit();
    let second = state()
        .map(|s: State| matches!(s, State::Incomplete(_)))
        .map(|fresh| {
            assert!(fresh);
            UnitT
        });
    let (st, _) = first.or(second).handle(st).unwrap();
    assert!(matches!(st, State::Incomplete(_)));
}

#[test]
fn route_for_declines_other_routes() {
    let state = incomplete(b"GET /x/y HTTP/1.1\r\n\r\n");
    assert!(matches!(route_for("/y").handle(state), Err(Error::CantHandle)));
    let state = incomplete(b"GET /x/y HTTP/1.1\r\n\r\n");
    assert_eq!(route_for("/x").handle(state).unwrap().1, "/x");
}

#[test]
fn method_filters() {
    let s = incomplete(b"POST / HTTP/1.1\r\n\r\n");
    assert!(matches!(http_endpoint::get().handle(s), Err(Error::CantHandle)));
    let s = incomplete(b"POST / HTTP/1.1\r\n\r\n");
    assert_eq!(http_endpoint::post().handle(s).unwrap().1, HttpMethod::Post);
    let s = incomplete(b"POST / HTTP/1.1\r\n\r\n");
    assert!(matches!(route::get("/").handle(s), Err(Error::CantHandle)));
    let s = incomplete(b"GET / HTTP/1.1\r\n\r\n");
    assert_eq!(http_method().handle(s).unwrap().1, HttpMethod::Get);
}

#[test]
fn set_response_completes_and_modify_response_skips_incomplete() {
    let s = incomplete(b"GET / HTTP/1.1\r\n\r\n");
    let add = |mut r: Response| -> Result<Response> {
        r.add_header(Header::connection(Connection::Close));
        Ok(r)
    };
    let (s, _) = modify_response(add).handle(s).unwrap();
    assert!(matches!(s, State::Incomplete(_)));
    let (s, _) = state().set_response(not_found("")).handle(s).unwrap();
    assert_eq!(
        response_of(&s).to_bytes(),
        b"HTTP/1.1 404 Not Found\r\nContent-Type: text/plain\r\nContent-Length:0\r\n\r\n".to_vec()
    );
    let (s, _) = modify_response(add).handle(s).unwrap();
    assert_eq!(response_of(&s).1.len(), 3);
}

#[test]
fn combinators_transform_outputs() {
    let s = incomplete(b"GET /echo/abc HTTP/1.1\r\n\r\n");
    let e = path().map(|p: String| p.len());
    assert_eq!(e.handle(s).unwrap().1, 3);

    let s = incomplete(b"GET /echo/abc HTTP/1.1\r\n\r\n");
    let e = path().map_res(|p: String| -> Result<usize> { Err(Error::GeneralError(p)) });
    assert!(matches!(e.handle(s), Err(Error::GeneralError(m)) if m == "abc"));

    let s = incomplete(b"GET / HTTP/1.1\r\nUser-Agent: ua\r\n\r\n");
    let e = user_agent().map_op(|u: UserAgent| u.0.len());
    assert_eq!(e.handle(s).unwrap().1, Some(2));

    let s = incomplete(b"GET / HTTP/1.1\r\n\r\n");
    let e = user_agent().map_op(|u: UserAgent| u.0.len());
    assert_eq!(e.handle(s).unwrap().1, None);

    let s = incomplete(b"GET / HTTP/1.1\r\n\r\n");
    let e = user_agent().flat_map_op(|u: UserAgent| lift(u.0));
    assert_eq!(e.handle(s).unwrap().1, None);

    let s = incomplete(b"GET / HTTP/1.1\r\n\r\n");
    let e = lift(7u8).map(|v: u8| Ok::<u8, Error>(v)).flat_map_res(|v: u8| lift(v + 1));
    assert_eq!(e.handle(s).unwrap().1, 8);

    let s = incomplete(b"GET / HTTP/1.1\r\n\r\n");
    let e = lift(7u8).map(|_: u8| Err::<u8, Error>(Error::ParseInt)).flat_map_res(|v: u8| lift(v + 1));
    assert!(matches!(e.handle(s), Err(Error::ParseInt)));

    let s = incomplete(b"GET / HTTP/1.1\r\n\r\n");
    let e = http_method().value(9u8);
    assert_eq!(e.handle(s).unwrap().1, 9);

    let s = incomplete(b"GET / HTTP/1.1\r\n\r\n");
    let e = lift(4u8).stop_if(|v: &u8| *v > 3);
    assert!(matches!(e.handle(s), Err(Error::CantHandle)));
}

#[test]
fn gzip_compresses_when_accepted() {
    let s = incomplete(b"GET /echo/abc HTTP/1.1\r\nAccept-Encoding: gzip\r\n\r\n");
    let e = route::get("/echo").set_response(path().flat_map(|v| ok(v))).and(gzip());
    let (s, (_, out)) = e.handle(s).unwrap();
    assert_eq!(out, Some(UnitT));
    let resp = response_of(&s);
    let body = resp.2.as_ref().unwrap().0.clone();
    assert_ne!(body, b"abc".to_vec());
    assert_eq!(&body[..2], &[0x1f, 0x8b]);
    assert_eq!(
        resp.1,
        vec![
            Header::content_type(ContentType::TextPlain),
            Header::content_length(body.len() as u32),
            Header::content_encoding(Encoding::Gzip),
        ]
    );
}

#[test]
fn gzip_is_skipped_without_accept_encoding() {
    let s = incomplete(b"GET /echo/abc HTTP/1.1\r\n\r\n");
    let e = route::get("/echo").set_response(path().flat_map(|v| ok(v))).and(gzip());
    let (s, (_, out)) = e.handle(s).unwrap();
    assert_eq!(out, None);
    assert_eq!(response_of(&s).2.as_ref().unwrap().0, b"abc".to_vec());
}

#[test]
fn gzip_response_without_body_only_gains_the_header() {
    let resp = mk_response("", StatusCode::SC404);
    let out = gzip_response(resp).unwrap();
    assert!(out.2.is_none());
    assert_eq!(out.1[2], Header::content_encoding(Encoding::Gzip));
    assert_eq!(out.1[1], Header::content_length(0));
}

#[test]
fn close_connection_adds_the_header_when_asked() {
    let s = incomplete(b"GET / HTTP/1.1\r\nConnection: close\r\n\r\n");
    let e = state().set_response(ok("x")).and(close_connection());
    let (s, (_, out)) = e.handle(s).unwrap();
    assert_eq!(out, Some(UnitT));
    assert_eq!(response_of(&s).1[2], Header::connection(Connection::Close));

    let s = incomplete(b"GET / HTTP/1.1\r\n\r\n");
    let (s, out) = close_connection().handle(s).unwrap();
    assert_eq!(out, None);
    assert!(matches!(s, State::Incomplete(_)));
}

#[test]
fn request_readers() {
    let s = incomplete(b"POST /a/b HTTP/1.1\r\nHost: h\r\n\r\nxyz");
    let (s, req) = http_endpoint::request().handle(s).unwrap();
    assert_eq!(req.target().0, "/a/b");
    let (s, b) = req_body().handle(s).unwrap();
    assert_eq!(b.unwrap().0, b"xyz".to_vec());
    let (s, hs) = http_endpoint::req_headers().handle(s).unwrap();
    assert_eq!(hs.0, vec![Header::host("h")]);
    let (s, r) = http_endpoint::route().handle(s).unwrap();
    assert_eq!(r, "/a");
    let (_, st) = state().handle(s).unwrap();
    let st: Request = match st {
        State::Incomplete(i) => i.0,
        State::Complete(c) => c.0,
    };
    assert_eq!(st.get_path(), "b");
}

#[test]
fn bodies_from_caller_content() {
    let r = mk_response(vec![1u8, 2, 3], StatusCode::SC200);
    assert_eq!(
        r.1,
        vec![Header::content_type(ContentType::OctetStream), Header::content_length(3)]
    );
    let r = mk_response(String::new(), StatusCode::SC200);
    assert!(r.2.is_none());
    assert_eq!(Body::Text("héllo").len(), 6);
    assert_eq!(Body::Bin(&[9, 9]).to_bin(), vec![9, 9]);
    assert_eq!(Body::Empty.len(), 0);
}

#[test]
fn file_route_answers() {
    assert_eq!(
        read_response(Some(b"hi".to_vec())).to_bytes(),
        b"HTTP/1.1 200 OK\r\nContent-Type: application/octet-stream\r\nContent-Length:2\r\n\r\nhi".to_vec()
    );
    assert_eq!(
        read_response(None).to_bytes(),
        b"HTTP/1.1 404 Not Found\r\nContent-Type: text/plain\r\nContent-Length:0\r\n\r\n".to_vec()
    );
    assert_eq!(
        write_response(false).to_bytes(),
        b"HTTP/1.1 404 Not Found\r\nContent-Type: text/plain\r\nContent-Length:0\r\n\r\n".to_vec()
    );
}
