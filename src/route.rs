use vstd::prelude::*;
use crate::endpoint::{route_for, And, Endpoint, MethodIs, RouteFor, Unit};
use crate::types::HttpMethod;

verus! {

/// Succeeds exactly on GET requests whose route is `path`.
pub fn get(path: &str) -> (r: Unit<And<MethodIs, RouteFor>>)
    ensures
        r.h.h.method == HttpMethod::Get,
        r.h.g.path@ == path@,
{
    crate::endpoint::get().and(route_for(path)).unit()
}

/// Succeeds exactly on POST requests whose route is `path`.
pub fn post(path: &str) -> (r: Unit<And<MethodIs, RouteFor>>)
    ensures
        r.h.h.method == HttpMethod::Post,
        r.h.g.path@ == path@,
{
    crate::endpoint::post().and(route_for(path)).unit()
}

} // verus!
