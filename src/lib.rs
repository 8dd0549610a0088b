//! Composable HTTP/1.1 request handling: a closed header model, a strict
//! message parser, a byte-exact response encoder and an algebra of
//! endpoints threading an immutable request/response state.
pub mod connection;
pub mod endpoint;
pub mod error;
pub mod parsers;
pub mod request;
pub mod route;
pub mod types;

pub use connection::{bytes_missing, header_end, reply};
pub use endpoint::{
    close_connection, get, gzip, gzip_response, http_method, lift, mk_response, modify_response,
    not_found, ok, path, post, read_response, write_response, req_body, req_headers, request, route, route_for, state,
    user_agent, And, AsBody, Body, CloseConnection, Complete, Endpoint, FlatMap, FlatMapOp,
    FlatMapRes, Gzip, HeadersOf, Incomplete, Lift, MapOp, MapRes, Mapped, MethodIs, MethodOf,
    ModifyResponse, New, Or, PathOf, RequestBodyOf, RequestOf, RouteFor, RouteOf, SetResponse,
    State, StateView, StopIf, Unit, UnitT, UserAgentOf, Value, S,
};
pub use error::{Context, Error, Result};
pub use parsers::{parse_headers, parse_request, parse_request_line, parse_request_with, HeaderPolicy};
pub use request::{Request, RequestBody, RequestLine, RequestTarget, RequestView};
pub use types::{
    Accept, AcceptEncoding, Connection, ContentEncoding, ContentLength, ContentType, Encoding,
    Header, HeaderView, Headers, Host, HttpMethod, HttpVersion, Reason, Response, ResponseBody,
    ResponseView, StatusCode, StatusLine, UserAgent,
};
