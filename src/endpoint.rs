use vstd::prelude::*;
use vstd::string::StringSliceAdditionalSpecFns;
use vstd::utf8::encode_utf8;
use crate::error::{Context, Error, Result};
use crate::request::{split_target, Request, RequestBody, RequestView};
use crate::types::{
    first_accept_encoding, first_connection, first_user_agent, status_created, status_not_found,
    status_ok, with_content_length, Connection, ContentType, Encoding, Header,
    HeaderView, Headers, HttpMethod, Response, ResponseBody, ResponseView, StatusCode, StatusLine,
    UserAgent,
};

verus! {

// ---------------------------------------------------------------------------
// Bodies given by callers.
// ---------------------------------------------------------------------------

/// Content a response is made from: text, raw bytes, or nothing.
#[derive(Debug, Clone, Copy)]
pub enum Body<'a> {
    Text(&'a str),
    Bin(&'a [u8]),
    Empty,
}

/// The mathematical value of a `Body`: its kind and its bytes.
pub ghost enum BodyView {
    Text(Seq<u8>),
    Bin(Seq<u8>),
    Empty,
}

impl BodyView {
    pub open spec fn bytes(self) -> Seq<u8> {
        match self {
            BodyView::Text(b) => b,
            BodyView::Bin(b) => b,
            BodyView::Empty => Seq::empty(),
        }
    }
}

impl<'a> View for Body<'a> {
    type V = BodyView;

    open spec fn view(&self) -> BodyView {
        match self {
            Body::Text(s) => BodyView::Text(s.spec_bytes()),
            Body::Bin(b) => BodyView::Bin(b@),
            Body::Empty => BodyView::Empty,
        }
    }
}

impl<'a> Body<'a> {
    /// The number of bytes.
    pub fn len(&self) -> (r: usize)
        ensures
            r == self@.bytes().len(),
    {
        match self {
            Body::Text(v) => v.as_bytes().len(),
            Body::Bin(v) => v.len(),
            Body::Empty => 0,
        }
    }

    /// The bytes.
    pub fn to_bin(self) -> (r: Vec<u8>)
        ensures
            r@ == self@.bytes(),
    {
        match self {
            Body::Text(s) => vstd::slice::slice_to_vec(s.as_bytes()),
            Body::Bin(b) => vstd::slice::slice_to_vec(b),
            Body::Empty => Vec::new(),
        }
    }
}

/// Values a response body can be made from. Empty content becomes
/// `Body::Empty`.
pub trait AsBody {
    spec fn body_view(&self) -> BodyView;

    fn body(&self) -> (b: Body<'_>)
        ensures
            b@ == self.body_view(),
    ;
}

impl<'s> AsBody for &'s str {
    open spec fn body_view(&self) -> BodyView {
        if (*self)@.len() == 0 {
            BodyView::Empty
        } else {
            BodyView::Text(encode_utf8((*self)@))
        }
    }

    fn body(&self) -> (b: Body<'_>) {
        if (*self).is_empty() {
            Body::Empty
        } else {
            Body::Text(*self)
        }
    }
}

impl AsBody for String {
    open spec fn body_view(&self) -> BodyView {
        if self@.len() == 0 {
            BodyView::Empty
        } else {
            BodyView::Text(encode_utf8(self@))
        }
    }

    fn body(&self) -> (b: Body<'_>) {
        let s = self.as_str();
        if s.is_empty() {
            Body::Empty
        } else {
            Body::Text(s)
        }
    }
}

impl AsBody for Vec<u8> {
    open spec fn body_view(&self) -> BodyView {
        if self@.len() == 0 {
            BodyView::Empty
        } else {
            BodyView::Bin(self@)
        }
    }

    fn body(&self) -> (b: Body<'_>) {
        if self.len() == 0 {
            Body::Empty
        } else {
            Body::Bin(self.as_slice())
        }
    }
}

/// The empty output marker.
#[derive(Debug, Clone, Copy, PartialEq, Eq, Structural)]
pub struct UnitT;

// ---------------------------------------------------------------------------
// State.
// ---------------------------------------------------------------------------

/// A state before any request was read.
#[derive(Debug, Clone, Copy)]
pub struct New();

/// A request with no response attached yet.
#[derive(Debug)]
pub struct Incomplete(pub Request);

/// A request with its response.
#[derive(Debug)]
pub struct Complete(pub Request, pub Response);

/// The value threaded through endpoints: a request, and once one was set,
/// its response.
#[derive(Debug)]
pub enum State {
    Incomplete(Incomplete),
    Complete(Complete),
}

/// The mathematical value of a state.
pub ghost enum StateView {
    Incomplete(RequestView),
    Complete(RequestView, ResponseView),
}

impl StateView {
    pub open spec fn request(self) -> RequestView {
        match self {
            StateView::Incomplete(r) => r,
            StateView::Complete(r, _) => r,
        }
    }
}

impl View for State {
    type V = StateView;

    open spec fn view(&self) -> StateView {
        match self {
            State::Incomplete(Incomplete(r)) => StateView::Incomplete(r@),
            State::Complete(Complete(r, p)) => StateView::Complete(r@, p@),
        }
    }
}

impl Clone for State {
    fn clone(&self) -> (r: Self)
        ensures
            r@ == self@,
    {
        match self {
            State::Incomplete(Incomplete(r)) => State::Incomplete(Incomplete(r.clone())),
            State::Complete(Complete(r, p)) => State::Complete(Complete(r.clone(), p.clone())),
        }
    }
}

impl State {
    pub fn incomplete(r: Request) -> (s: State)
        ensures
            s@ == StateView::Incomplete(r@),
    {
        Self::Incomplete(Incomplete(r))
    }

    pub fn complete(req: Request, resp: Response) -> (s: State)
        ensures
            s@ == StateView::Complete(req@, resp@),
    {
        Self::Complete(Complete(req, resp))
    }

    /// The request, whichever phase the state is in.
    pub fn request(&self) -> (r: &Request)
        ensures
            r@ == self@.request(),
    {
        match self {
            State::Incomplete(Incomplete(r)) => r,
            State::Complete(Complete(r, _)) => r,
        }
    }

    /// The same request, now completed by `resp`.
    pub fn set_response(&self, resp: &Response) -> (s: State)
        ensures
            s@ == StateView::Complete(self@.request(), resp@),
    {
        State::complete(self.request().clone(), resp.clone())
    }
}

/// The outcome of handling, with the state replaced by its value.
pub open spec fn outcome<O>(r: Result<(State, O)>) -> Result<(StateView, O)> {
    match r {
        Ok((s, o)) => Ok((s@, o)),
        Err(e) => Err(e),
    }
}

// ---------------------------------------------------------------------------
// The algebra.
// ---------------------------------------------------------------------------

/// A unit of request handling. `handle` takes a state and gives the next
/// state with an output, or fails. `CantHandle` means "try elsewhere";
/// every other error is a hard failure.
///
/// `handles(s, out)` states which outcomes handling a state of value `s`
/// may have; `ready` states that every function held inside accepts all of
/// its inputs.
pub trait Endpoint: Sized {
    type Output;

    spec fn ready(&self) -> bool;

    spec fn handles(&self, s: StateView, out: Result<(StateView, Self::Output)>) -> bool;

    fn handle(&self, r: State) -> (out: Result<(State, Self::Output)>)
        requires
            self.ready(),
        ensures
            self.handles(r@, outcome(out)),
    ;

    /// Transforms the output; the state passes through.
    fn map<F: Fn(Self::Output) -> O2, O2>(self, f: F) -> (r: Mapped<Self, F>)
        ensures
            r.g == self,
            r.f == f,
    {
        Mapped { g: self, f }
    }

    /// Transforms the output with a function that may fail.
    fn map_res<F: Fn(Self::Output) -> Result<O2>, O2>(self, f: F) -> (r: MapRes<Self, F>)
        ensures
            r.g == self,
            r.f == f,
    {
        MapRes { g: self, f }
    }

    /// Transforms an optional output inside `Some`.
    fn map_op<F: Fn(O1) -> O2, O1, O2>(self, f: F) -> (r: MapOp<Self, F>)
        ensures
            r.g == self,
            r.f == f,
    {
        MapOp { g: self, f }
    }

    /// Builds a second endpoint from the output and runs it on the state
    /// this one produced.
    fn flat_map<F>(self, f: F) -> (r: FlatMap<Self, F>)
        ensures
            r.h == self,
            r.f == f,
    {
        FlatMap { h: self, f }
    }

    /// As `flat_map`, for an output that is itself a result.
    fn flat_map_res<F>(self, f: F) -> (r: FlatMapRes<Self, F>)
        ensures
            r.h == self,
            r.f == f,
    {
        FlatMapRes { h: self, f }
    }

    /// As `flat_map`, for an optional output; `None` passes through.
    fn flat_map_op<F>(self, f: F) -> (r: FlatMapOp<Self, F>)
        ensures
            r.h == self,
            r.f == f,
    {
        FlatMapOp { h: self, f }
    }

    /// Declines with `CantHandle` when the predicate holds of the output.
    fn stop_if<P: Fn(&Self::Output) -> bool>(self, p: P) -> (r: StopIf<Self, P>)
        ensures
            r.h == self,
            r.p == p,
    {
        StopIf { h: self, p }
    }

    /// Runs `g` on the state this one produced; both outputs are kept.
    fn and<G>(self, g: G) -> (r: And<Self, G>)
        ensures
            r.h == self,
            r.g == g,
    {
        And { h: self, g }
    }

    /// Runs this endpoint and, if it fails, `g` on the state it was given.
    fn or<G>(self, g: G) -> (r: Or<Self, G>)
        ensures
            r.h == self,
            r.g == g,
    {
        Or { h: self, g }
    }

    /// Replaces the output with a constant.
    fn value<O: Clone>(self, o: O) -> (r: Value<Self, O>)
        ensures
            r.h == self,
            r.o == o,
    {
        Value { h: self, o }
    }

    /// Replaces the output with the empty marker.
    fn unit(self) -> (r: Unit<Self>)
        ensures
            r.h == self,
    {
        Unit { h: self }
    }

    /// Runs this endpoint, then `g`, and completes the state with the
    /// response `g` produced.
    fn set_response<G>(self, g: G) -> (r: SetResponse<Self, G>)
        ensures
            r.h == self,
            r.g == g,
    {
        SetResponse { h: self, g }
    }

    /// Applies `f` to the response of a completed state; an incomplete state
    /// passes through.
    fn modify_response<F: Fn(Response) -> Result<Response>>(self, f: F) -> (r: ModifyResponse<Self, F>)
        ensures
            r.h == self,
            r.f == f,
    {
        ModifyResponse { h: self, f }
    }
}

pub struct Mapped<G, F> {
    pub g: G,
    pub f: F,
}

impl<G: Endpoint, F: Fn(G::Output) -> O2, O2> Endpoint for Mapped<G, F> {
    type Output = O2;

    open spec fn ready(&self) -> bool {
        self.g.ready() && forall|o: G::Output| self.f.requires((o,))
    }

    open spec fn handles(&self, s: StateView, out: Result<(StateView, O2)>) -> bool {
        match out {
            Ok((s2, o2)) => exists|o: G::Output| #[trigger]
                self.g.handles(s, Ok((s2, o))) && self.f.ensures((o,), o2),
            Err(e) => self.g.handles(s, Err(e)),
        }
    }

    fn handle(&self, r: State) -> (out: Result<(State, O2)>) {
        match self.g.handle(r) {
            Ok((s, o)) => {
                let o2 = (self.f)(o);
                Ok((s, o2))
            },
            Err(e) => Err(e),
        }
    }
}

pub struct MapRes<G, F> {
    pub g: G,
    pub f: F,
}

impl<G: Endpoint, F: Fn(G::Output) -> Result<O2>, O2> Endpoint for MapRes<G, F> {
    type Output = O2;

    open spec fn ready(&self) -> bool {
        self.g.ready() && forall|o: G::Output| self.f.requires((o,))
    }

    open spec fn handles(&self, s: StateView, out: Result<(StateView, O2)>) -> bool {
        match out {
            Ok((s2, o2)) => exists|o: G::Output| #[trigger]
                self.g.handles(s, Ok((s2, o))) && self.f.ensures((o,), Ok(o2)),
            Err(e) => self.g.handles(s, Err(e)) || exists|s2: StateView, o: G::Output| #[trigger]
                self.g.handles(s, Ok((s2, o))) && self.f.ensures((o,), Err(e)),
        }
    }

    fn handle(&self, r: State) -> (out: Result<(State, O2)>) {
        match self.g.handle(r) {
            Ok((s, o)) => match (self.f)(o) {
                Ok(o2) => Ok((s, o2)),
                Err(e) => Err(e),
            },
            Err(e) => Err(e),
        }
    }
}

pub struct MapOp<G, F> {
    pub g: G,
    pub f: F,
}

impl<G: Endpoint<Output = Option<O1>>, F: Fn(O1) -> O2, O1, O2> Endpoint for MapOp<G, F> {
    type Output = Option<O2>;

    open spec fn ready(&self) -> bool {
        self.g.ready() && forall|o: O1| self.f.requires((o,))
    }

    open spec fn handles(&self, s: StateView, out: Result<(StateView, Option<O2>)>) -> bool {
        match out {
            Ok((s2, None)) => self.g.handles(s, Ok((s2, None))),
            Ok((s2, Some(o2))) => exists|o: O1| #[trigger]
                self.g.handles(s, Ok((s2, Some(o)))) && self.f.ensures((o,), o2),
            Err(e) => self.g.handles(s, Err(e)),
        }
    }

    fn handle(&self, r: State) -> (out: Result<(State, Option<O2>)>) {
        match self.g.handle(r) {
            Ok((s, None)) => Ok((s, None)),
            Ok((s, Some(v))) => {
                let o2 = (self.f)(v);
                Ok((s, Some(o2)))
            },
            Err(e) => Err(e),
        }
    }
}

pub struct FlatMap<H, F> {
    pub h: H,
    pub f: F,
}

impl<H: Endpoint, F: Fn(H::Output) -> HH, HH: Endpoint> Endpoint for FlatMap<H, F> {
    type Output = HH::Output;

    open spec fn ready(&self) -> bool {
        &&& self.h.ready()
        &&& forall|o: H::Output| self.f.requires((o,))
        &&& forall|o: H::Output, hh: HH| self.f.ensures((o,), hh) ==> hh.ready()
    }

    open spec fn handles(&self, s: StateView, out: Result<(StateView, HH::Output)>) -> bool {
        ||| (out matches Err(e) && self.h.handles(s, Err(e)))
        ||| exists|s1: StateView, o: H::Output, hh: HH| #[trigger]
            self.h.handles(s, Ok((s1, o))) && #[trigger] self.f.ensures((o,), hh) && hh.handles(
                s1,
                out,
            )
    }

    fn handle(&self, r: State) -> (out: Result<(State, HH::Output)>) {
        match self.h.handle(r) {
            Ok((s, o)) => {
                let hh = (self.f)(o);
                hh.handle(s)
            },
            Err(e) => Err(e),
        }
    }
}

pub struct FlatMapRes<H, F> {
    pub h: H,
    pub f: F,
}

impl<H: Endpoint<Output = Result<O1>>, F: Fn(O1) -> HH, HH: Endpoint, O1> Endpoint for FlatMapRes<
    H,
    F,
> {
    type Output = HH::Output;

    open spec fn ready(&self) -> bool {
        &&& self.h.ready()
        &&& forall|o: O1| self.f.requires((o,))
        &&& forall|o: O1, hh: HH| self.f.ensures((o,), hh) ==> hh.ready()
    }

    open spec fn handles(&self, s: StateView, out: Result<(StateView, HH::Output)>) -> bool {
        ||| (out matches Err(e) && self.h.handles(s, Err(e)))
        ||| (out matches Err(e) && exists|s1: StateView| #[trigger]
            self.h.handles(s, Ok((s1, Err(e)))))
        ||| exists|s1: StateView, o: O1, hh: HH| #[trigger]
            self.h.handles(s, Ok((s1, Ok(o)))) && #[trigger] self.f.ensures((o,), hh)
                && hh.handles(s1, out)
    }

    fn handle(&self, r: State) -> (out: Result<(State, HH::Output)>) {
        match self.h.handle(r) {
            Ok((s, Ok(o))) => {
                let hh = (self.f)(o);
                hh.handle(s)
            },
            Ok((_, Err(e))) => Err(e),
            Err(e) => Err(e),
        }
    }
}

pub struct FlatMapOp<H, F> {
    pub h: H,
    pub f: F,
}

impl<H: Endpoint<Output = Option<O1>>, F: Fn(O1) -> HH, HH: Endpoint, O1> Endpoint for FlatMapOp<
    H,
    F,
> {
    type Output = Option<HH::Output>;

    open spec fn ready(&self) -> bool {
        &&& self.h.ready()
        &&& forall|o: O1| self.f.requires((o,))
        &&& forall|o: O1, hh: HH| self.f.ensures((o,), hh) ==> hh.ready()
    }

    open spec fn handles(&self, s: StateView, out: Result<(StateView, Option<HH::Output>)>) -> bool {
        match out {
            Ok((s2, None)) => self.h.handles(s, Ok((s2, None))),
            Ok((s2, Some(o2))) => exists|s1: StateView, o: O1, hh: HH| #[trigger]
                self.h.handles(s, Ok((s1, Some(o)))) && #[trigger] self.f.ensures((o,), hh)
                    && hh.handles(s1, Ok((s2, o2))),
            Err(e) => self.h.handles(s, Err(e)) || exists|s1: StateView, o: O1, hh: HH| #[trigger]
                self.h.handles(s, Ok((s1, Some(o)))) && #[trigger] self.f.ensures((o,), hh)
                    && hh.handles(s1, Err(e)),
        }
    }

    fn handle(&self, r: State) -> (out: Result<(State, Option<HH::Output>)>) {
        match self.h.handle(r) {
            Ok((s, None)) => Ok((s, None)),
            Ok((s, Some(v))) => {
                let hh = (self.f)(v);
                match hh.handle(s) {
                    Ok((ss, o2)) => Ok((ss, Some(o2))),
                    Err(e) => Err(e),
                }
            },
            Err(e) => Err(e),
        }
    }
}

pub struct And<H, G> {
    pub h: H,
    pub g: G,
}

impl<H: Endpoint, G: Endpoint> Endpoint for And<H, G> {
    type Output = (H::Output, G::Output);

    open spec fn ready(&self) -> bool {
        self.h.ready() && self.g.ready()
    }

    open spec fn handles(&self, s: StateView, out: Result<(StateView, (H::Output, G::Output))>) -> bool {
        match out {
            Ok((s2, pair)) => self.both(s, s2, pair.0, pair.1),
            Err(e) => self.h.handles(s, Err(e)) || exists|s1: StateView, o1: H::Output| #[trigger]
                self.h.handles(s, Ok((s1, o1))) && self.g.handles(s1, Err(e)),
        }
    }

    fn handle(&self, r: State) -> (out: Result<(State, (H::Output, G::Output))>) {
        let ghost s0 = r@;
        match self.h.handle(r) {
            Ok((s, o1)) => {
                let ghost s1 = s@;
                match self.g.handle(s) {
                    Ok((ss, o2)) => {
                        assert(self.both(s0, ss@, o1, o2));
                        Ok((ss, (o1, o2)))
                    },
                    Err(e) => {
                        assert(self.h.handles(s0, Ok((s1, o1))));
                        Err(e)
                    },
                }
            },
            Err(e) => Err(e),
        }
    }
}

impl<H: Endpoint, G: Endpoint> And<H, G> {
    /// `h` turns `s` into some state with output `o1`, from which `g` reaches
    /// `s2` with output `o2`.
    pub open spec fn both(&self, s: StateView, s2: StateView, o1: H::Output, o2: G::Output) -> bool {
        exists|s1: StateView| #[trigger]
            self.h.handles(s, Ok((s1, o1))) && self.g.handles(s1, Ok((s2, o2)))
    }
}

pub struct Or<H, G> {
    pub h: H,
    pub g: G,
}

impl<O, H: Endpoint<Output = O>, G: Endpoint<Output = O>> Endpoint for Or<H, G> {
    type Output = O;

    open spec fn ready(&self) -> bool {
        self.h.ready() && self.g.ready()
    }

    open spec fn handles(&self, s: StateView, out: Result<(StateView, O)>) -> bool {
        ||| (out is Ok && self.h.handles(s, out))
        ||| (exists|e: Error| #[trigger] self.h.handles(s, Err(e))) && self.g.handles(s, out)
    }

    fn handle(&self, r: State) -> (out: Result<(State, O)>) {
        let snapshot = r.clone();
        match self.h.handle(r) {
            Ok(v) => Ok(v),
            Err(_) => self.g.handle(snapshot),
        }
    }
}

pub struct StopIf<H, P> {
    pub h: H,
    pub p: P,
}

impl<H: Endpoint, P: Fn(&H::Output) -> bool> Endpoint for StopIf<H, P> {
    type Output = H::Output;

    open spec fn ready(&self) -> bool {
        self.h.ready() && forall|o: &H::Output| self.p.requires((o,))
    }

    open spec fn handles(&self, s: StateView, out: Result<(StateView, H::Output)>) -> bool {
        match out {
            Ok((s1, o)) => self.h.handles(s, Ok((s1, o))) && self.p.ensures((&o,), false),
            Err(e) => self.h.handles(s, Err(e)) || (e == Error::CantHandle && exists|
                s1: StateView,
                o: H::Output,
            | #[trigger] self.h.handles(s, Ok((s1, o))) && self.p.ensures((&o,), true)),
        }
    }

    fn handle(&self, r: State) -> (out: Result<(State, H::Output)>) {
        match self.h.handle(r) {
            Ok((s, o)) => {
                if (self.p)(&o) {
                    Err(Error::CantHandle)
                } else {
                    Ok((s, o))
                }
            },
            Err(e) => Err(e),
        }
    }
}

pub struct Value<H, O> {
    pub h: H,
    pub o: O,
}

impl<H: Endpoint, O: Clone> Endpoint for Value<H, O> {
    type Output = O;

    open spec fn ready(&self) -> bool {
        self.h.ready()
    }

    open spec fn handles(&self, s: StateView, out: Result<(StateView, O)>) -> bool {
        match out {
            Ok((s1, o)) => cloned(self.o, o) && exists|o1: H::Output| #[trigger]
                self.h.handles(s, Ok((s1, o1))),
            Err(e) => self.h.handles(s, Err(e)),
        }
    }

    fn handle(&self, r: State) -> (out: Result<(State, O)>) {
        match self.h.handle(r) {
            Ok((s, _)) => Ok((s, self.o.clone())),
            Err(e) => Err(e),
        }
    }
}

pub struct Unit<H> {
    pub h: H,
}

impl<H: Endpoint> Endpoint for Unit<H> {
    type Output = UnitT;

    open spec fn ready(&self) -> bool {
        self.h.ready()
    }

    open spec fn handles(&self, s: StateView, out: Result<(StateView, UnitT)>) -> bool {
        match out {
            Ok((s1, _)) => exists|o1: H::Output| #[trigger] self.h.handles(s, Ok((s1, o1))),
            Err(e) => self.h.handles(s, Err(e)),
        }
    }

    fn handle(&self, r: State) -> (out: Result<(State, UnitT)>) {
        match self.h.handle(r) {
            Ok((s, _)) => Ok((s, UnitT)),
            Err(e) => Err(e),
        }
    }
}

pub struct SetResponse<H, G> {
    pub h: H,
    pub g: G,
}

impl<H: Endpoint, G: Endpoint<Output = Response>> Endpoint for SetResponse<H, G> {
    type Output = UnitT;

    open spec fn ready(&self) -> bool {
        self.h.ready() && self.g.ready()
    }

    open spec fn handles(&self, s: StateView, out: Result<(StateView, UnitT)>) -> bool {
        match out {
            Ok((s3, _)) => exists|s1: StateView, o1: H::Output, s2: StateView, resp: Response|
                #[trigger] self.h.handles(s, Ok((s1, o1))) && #[trigger] self.g.handles(
                    s1,
                    Ok((s2, resp)),
                ) && s3 == StateView::Complete(s2.request(), resp@),
            Err(e) => self.h.handles(s, Err(e)) || exists|s1: StateView, o1: H::Output| #[trigger]
                self.h.handles(s, Ok((s1, o1))) && self.g.handles(s1, Err(e)),
        }
    }

    fn handle(&self, r: State) -> (out: Result<(State, UnitT)>) {
        match self.h.handle(r) {
            Ok((s, _)) => match self.g.handle(s) {
                Ok((ss, resp)) => Ok((ss.set_response(&resp), UnitT)),
                Err(e) => Err(e),
            },
            Err(e) => Err(e),
        }
    }
}

pub struct ModifyResponse<H, F> {
    pub h: H,
    pub f: F,
}

impl<H: Endpoint, F: Fn(Response) -> Result<Response>> Endpoint for ModifyResponse<H, F> {
    type Output = H::Output;

    open spec fn ready(&self) -> bool {
        self.h.ready() && forall|r: Response| self.f.requires((r,))
    }

    open spec fn handles(&self, s: StateView, out: Result<(StateView, H::Output)>) -> bool {
        match out {
            Ok((s2, o)) => {
                ||| (s2 is Incomplete && self.h.handles(s, Ok((s2, o))))
                ||| exists|req: RequestView, resp: Response, resp2: Response| #[trigger]
                    self.h.handles(s, Ok((StateView::Complete(req, resp@), o)))
                        && #[trigger] self.f.ensures((resp,), Ok(resp2))
                        && s2 == StateView::Complete(req, resp2@)
            },
            Err(e) => self.h.handles(s, Err(e)) || exists|
                req: RequestView,
                resp: Response,
                o: H::Output,
            | #[trigger] self.h.handles(s, Ok((StateView::Complete(req, resp@), o)))
                && #[trigger] self.f.ensures((resp,), Err(e)),
        }
    }

    fn handle(&self, r: State) -> (out: Result<(State, H::Output)>) {
        match self.h.handle(r) {
            Ok((State::Incomplete(i), o)) => Ok((State::Incomplete(i), o)),
            Ok((State::Complete(Complete(req, res)), o)) => match (self.f)(res) {
                Ok(res2) => Ok((State::complete(req, res2), o)),
                Err(e) => Err(e),
            },
            Err(e) => Err(e),
        }
    }
}

// ---------------------------------------------------------------------------
// Endpoints reading the state.
// ---------------------------------------------------------------------------

/// Outputs the state itself.
pub struct S {}

impl Endpoint for S {
    type Output = State;

    open spec fn ready(&self) -> bool {
        true
    }

    open spec fn handles(&self, s: StateView, out: Result<(StateView, State)>) -> bool {
        out matches Ok((s2, o)) && s2 == s && o@ == s
    }

    fn handle(&self, r: State) -> (out: Result<(State, State)>) {
        let copy = r.clone();
        Ok((copy, r))
    }
}

pub fn state() -> (r: S) {
    S {}
}

/// Outputs a value computed from the request alone; the state is kept.
pub open spec fn reads<O>(s: StateView, out: Result<(StateView, O)>, p: spec_fn(O) -> bool) -> bool {
    out matches Ok((s2, o)) && s2 == s && p(o)
}

/// Outputs the request.
pub struct RequestOf {}

impl Endpoint for RequestOf {
    type Output = Request;

    open spec fn ready(&self) -> bool {
        true
    }

    open spec fn handles(&self, s: StateView, out: Result<(StateView, Request)>) -> bool {
        reads(s, out, |o: Request| o@ == s.request())
    }

    fn handle(&self, r: State) -> (out: Result<(State, Request)>) {
        let req = r.request().clone();
        Ok((r, req))
    }
}

pub fn request() -> (r: RequestOf) {
    RequestOf {}
}

/// The value of an optional request body.
pub open spec fn body_view(b: Option<RequestBody>) -> Option<Seq<u8>> {
    match b {
        Some(v) => Some(v@),
        None => None,
    }
}

/// Outputs the request body.
pub struct RequestBodyOf {}

impl Endpoint for RequestBodyOf {
    type Output = Option<RequestBody>;

    open spec fn ready(&self) -> bool {
        true
    }

    open spec fn handles(&self, s: StateView, out: Result<(StateView, Option<RequestBody>)>) -> bool {
        reads(s, out, |o: Option<RequestBody>| body_view(o) == s.request().body)
    }

    fn handle(&self, r: State) -> (out: Result<(State, Option<RequestBody>)>) {
        let b = r.request().body();
        Ok((r, b))
    }
}

pub fn req_body() -> (r: RequestBodyOf) {
    RequestBodyOf {}
}

/// The value of an optional user agent.
pub open spec fn user_agent_view(u: Option<UserAgent>) -> Option<Seq<char>> {
    match u {
        Some(v) => Some(v.0@),
        None => None,
    }
}

/// Outputs the first `User-Agent` of the request.
pub struct UserAgentOf {}

impl Endpoint for UserAgentOf {
    type Output = Option<UserAgent>;

    open spec fn ready(&self) -> bool {
        true
    }

    open spec fn handles(&self, s: StateView, out: Result<(StateView, Option<UserAgent>)>) -> bool {
        reads(
            s,
            out,
            |o: Option<UserAgent>| user_agent_view(o) == first_user_agent(s.request().headers),
        )
    }

    fn handle(&self, r: State) -> (out: Result<(State, Option<UserAgent>)>) {
        let u = r.request().user_agent();
        Ok((r, u))
    }
}

pub fn user_agent() -> (r: UserAgentOf) {
    UserAgentOf {}
}

/// Outputs the path of the request target.
pub struct PathOf {}

impl Endpoint for PathOf {
    type Output = String;

    open spec fn ready(&self) -> bool {
        true
    }

    open spec fn handles(&self, s: StateView, out: Result<(StateView, String)>) -> bool {
        reads(s, out, |o: String| o@ == split_target(s.request().target).1)
    }

    fn handle(&self, r: State) -> (out: Result<(State, String)>) {
        let p = r.request().get_path();
        Ok((r, p))
    }
}

pub fn path() -> (r: PathOf) {
    PathOf {}
}

/// Outputs the route of the request target.
pub struct RouteOf {}

impl Endpoint for RouteOf {
    type Output = String;

    open spec fn ready(&self) -> bool {
        true
    }

    open spec fn handles(&self, s: StateView, out: Result<(StateView, String)>) -> bool {
        reads(s, out, |o: String| o@ == split_target(s.request().target).0)
    }

    fn handle(&self, r: State) -> (out: Result<(State, String)>) {
        let p = r.request().get_route();
        Ok((r, p))
    }
}

pub fn route() -> (r: RouteOf) {
    RouteOf {}
}

/// Outputs the request method.
pub struct MethodOf {}

impl Endpoint for MethodOf {
    type Output = HttpMethod;

    open spec fn ready(&self) -> bool {
        true
    }

    open spec fn handles(&self, s: StateView, out: Result<(StateView, HttpMethod)>) -> bool {
        reads(s, out, |o: HttpMethod| o == s.request().method)
    }

    fn handle(&self, r: State) -> (out: Result<(State, HttpMethod)>) {
        let m = r.request().http_method();
        Ok((r, m))
    }
}

pub fn http_method() -> (r: MethodOf) {
    MethodOf {}
}

/// Outputs the request headers.
pub struct HeadersOf {}

impl Endpoint for HeadersOf {
    type Output = Headers;

    open spec fn ready(&self) -> bool {
        true
    }

    open spec fn handles(&self, s: StateView, out: Result<(StateView, Headers)>) -> bool {
        reads(s, out, |o: Headers| o@ == s.request().headers)
    }

    fn handle(&self, r: State) -> (out: Result<(State, Headers)>) {
        let h = r.request().headers().clone();
        Ok((r, h))
    }
}

pub fn req_headers() -> (r: HeadersOf) {
    HeadersOf {}
}

/// Outputs the route when it equals `path`, and declines otherwise.
pub struct RouteFor {
    pub path: String,
}

impl Endpoint for RouteFor {
    type Output = String;

    open spec fn ready(&self) -> bool {
        true
    }

    open spec fn handles(&self, s: StateView, out: Result<(StateView, String)>) -> bool {
        let route = split_target(s.request().target).0;
        if route == self.path@ {
            reads(s, out, |o: String| o@ == route)
        } else {
            out == Err::<(StateView, String), Error>(Error::CantHandle)
        }
    }

    fn handle(&self, r: State) -> (out: Result<(State, String)>) {
        let route = r.request().get_route();
        if route == self.path {
            Ok((r, route))
        } else {
            Err(Error::CantHandle)
        }
    }
}

/// Succeeds exactly on requests whose route is `path`.
pub fn route_for(path: &str) -> (r: RouteFor)
    ensures
        r.path@ == path@,
{
    RouteFor { path: path.to_string() }
}

/// Outputs the method when it is `method`, and declines otherwise.
pub struct MethodIs {
    pub method: HttpMethod,
}

impl Endpoint for MethodIs {
    type Output = HttpMethod;

    open spec fn ready(&self) -> bool {
        true
    }

    open spec fn handles(&self, s: StateView, out: Result<(StateView, HttpMethod)>) -> bool {
        if s.request().method == self.method {
            out == Ok::<(StateView, HttpMethod), Error>((s, self.method))
        } else {
            out == Err::<(StateView, HttpMethod), Error>(Error::CantHandle)
        }
    }

    fn handle(&self, r: State) -> (out: Result<(State, HttpMethod)>) {
        let m = r.request().http_method();
        if m == self.method {
            Ok((r, m))
        } else {
            Err(Error::CantHandle)
        }
    }
}

/// Succeeds exactly on GET requests.
pub fn get() -> (r: MethodIs)
    ensures
        r.method == HttpMethod::Get,
{
    MethodIs { method: HttpMethod::Get }
}

/// Succeeds exactly on POST requests.
pub fn post() -> (r: MethodIs)
    ensures
        r.method == HttpMethod::Post,
{
    MethodIs { method: HttpMethod::Post }
}

/// Applies `f` to the response of a completed state; leaves an incomplete
/// state as it is.
pub fn modify_response<F: Fn(Response) -> Result<Response>>(f: F) -> (r: Unit<ModifyResponse<S, F>>)
    ensures
        r.h.f == f,
{
    state().modify_response(f).unit()
}

// ---------------------------------------------------------------------------
// Endpoints producing responses.
// ---------------------------------------------------------------------------

/// Outputs a copy of a constant; the state is kept.
pub struct Lift<T> {
    pub t: T,
}

impl<T: Clone> Endpoint for Lift<T> {
    type Output = T;

    open spec fn ready(&self) -> bool {
        true
    }

    open spec fn handles(&self, s: StateView, out: Result<(StateView, T)>) -> bool {
        out matches Ok((s2, o)) && s2 == s && cloned(self.t, o)
    }

    fn handle(&self, r: State) -> (out: Result<(State, T)>) {
        Ok((r, self.t.clone()))
    }
}

pub fn lift<T: Clone>(t: T) -> (r: Lift<T>)
    ensures
        r.t == t,
{
    Lift { t }
}

pub open spec fn status_of(code: StatusCode) -> StatusLine {
    match code {
        StatusCode::SC200 => status_ok(),
        StatusCode::SC201 => status_created(),
        StatusCode::SC404 => status_not_found(),
    }
}

/// The response made from a body and a status code: `Content-Type` (plain
/// text unless the body is binary) and `Content-Length`, and the body
/// unless it is empty.
pub open spec fn response_of(b: BodyView, code: StatusCode) -> ResponseView {
    ResponseView {
        status: status_of(code),
        headers: seq![
            HeaderView::ContentType(
                match b {
                    BodyView::Bin(_) => ContentType::OctetStream,
                    _ => ContentType::TextPlain,
                },
            ),
            HeaderView::ContentLength(b.bytes().len() as u32),
        ],
        body: match b {
            BodyView::Empty => None,
            _ => Some(b.bytes()),
        },
    }
}

/// Builds a response from caller-supplied content.
pub fn mk_response<H: AsBody>(body: H, code: StatusCode) -> (r: Response)
    requires
        body.body_view().bytes().len() <= u32::MAX,
    ensures
        r@ == response_of(body.body_view(), code),
{
    let body = body.body();
    let ct = match body {
        Body::Text(_) | Body::Empty => ContentType::TextPlain,
        Body::Bin(_) => ContentType::OctetStream,
    };
    let sl = match code {
        StatusCode::SC200 => StatusLine::ok(),
        StatusCode::SC201 => StatusLine::created(),
        StatusCode::SC404 => StatusLine::not_found(),
    };
    let len = body.len() as u32;
    let is_empty = match body {
        Body::Empty => true,
        _ => false,
    };
    let content = if is_empty {
        None
    } else {
        Some(ResponseBody(body.to_bin()))
    };
    let mut headers: Vec<Header> = Vec::new();
    headers.push(Header::content_type(ct));
    headers.push(Header::content_length(len));
    let r = Response(sl, headers, content);
    assert(r@.headers =~= response_of(body@, code).headers);
    r
}

/// Responds 200 with `body`.
pub fn ok<T: AsBody>(body: T) -> (r: Lift<Response>)
    requires
        body.body_view().bytes().len() <= u32::MAX,
    ensures
        r.t@ == response_of(body.body_view(), StatusCode::SC200),
{
    lift(mk_response(body, StatusCode::SC200))
}

/// Responds 404 with `body`.
pub fn not_found<T: AsBody>(body: T) -> (r: Lift<Response>)
    requires
        body.body_view().bytes().len() <= u32::MAX,
    ensures
        r.t@ == response_of(body.body_view(), StatusCode::SC404),
{
    lift(mk_response(body, StatusCode::SC404))
}

/// The answer to a file read: 200 with the bytes when the file was read,
/// 404 with no body when it was not.
pub fn read_response(data: Option<Vec<u8>>) -> (r: Response)
    requires
        data matches Some(d) ==> d@.len() <= u32::MAX,
    ensures
        r@ == match data {
            Some(d) => response_of(d.body_view(), StatusCode::SC200),
            None => response_of(BodyView::Empty, StatusCode::SC404),
        },
{
    proof {
        reveal_strlit("");
    }
    match data {
        Some(d) => mk_response(d, StatusCode::SC200),
        None => mk_response("", StatusCode::SC404),
    }
}

/// The answer to a file write: 201 when the bytes were stored, 404 when
/// they were not; neither has a body.
pub fn write_response(written: bool) -> (r: Response)
    ensures
        r@ == response_of(
            BodyView::Empty,
            if written {
                StatusCode::SC201
            } else {
                StatusCode::SC404
            },
        ),
{
    proof {
        reveal_strlit("");
    }
    if written {
        mk_response("", StatusCode::SC201)
    } else {
        mk_response("", StatusCode::SC404)
    }
}

// ---------------------------------------------------------------------------
// Response modifications driven by request headers.
// ---------------------------------------------------------------------------

/// The gzip member of some bytes, as flate2 writes it at the default level.
pub uninterp spec fn gzip_of(b: Seq<u8>) -> Seq<u8>;

/// Relies on flate2's `GzEncoder` with `Compression::default()`: the output
/// is a gzip member of the input whose header has no name, time stamp 0 and
/// system byte 255, so it depends on the input bytes alone. Writing into a
/// `Vec` never fails, and the compressor fails only on bad parameters or a
/// failing output callback, neither of which occurs here, so the result is
/// always `Ok`.
#[verifier::external_body]
fn gzip_encode(b: &[u8]) -> (r: std::result::Result<Vec<u8>, std::io::Error>)
    ensures
        r is Ok,
        r matches Ok(v) ==> v@ == gzip_of(b@),
{
    let mut enc = flate2::write::GzEncoder::new(Vec::new(), flate2::Compression::default());
    std::io::Write::write_all(&mut enc, b)?;
    enc.finish()
}

/// The client accepts gzip.
pub open spec fn accepts_gzip(req: RequestView) -> bool {
    first_accept_encoding(req.headers) matches Some(es) && es.contains(Encoding::Gzip)
}

/// A response after its body was gzip-compressed into `z`: a
/// `Content-Encoding: gzip` header is added and the body replaced.
pub open spec fn gzipped(resp: ResponseView, z: Seq<u8>) -> ResponseView {
    ResponseView {
        status: resp.status,
        headers: with_content_length(
            resp.headers.push(HeaderView::ContentEncoding(Encoding::Gzip)),
            z.len() as u32,
        ),
        body: Some(z),
    }
}

/// Compresses the body of `resp` with gzip, adding `Content-Encoding: gzip`
/// and recomputing `Content-Length`. The `Content-Type` is left as it was.
/// A response without a body only gains the header.
pub fn gzip_response(resp: Response) -> (r: Result<Response>)
    ensures
        match resp@.body {
            None => r matches Ok(v) && v@ == (ResponseView {
                headers: resp@.headers.push(HeaderView::ContentEncoding(Encoding::Gzip)),
                ..resp@
            }),
            Some(b) => if gzip_of(b).len() <= u32::MAX {
                r matches Ok(v) && v@ == gzipped(resp@, gzip_of(b))
            } else {
                r matches Err(Error::GeneralError(_))
            },
        },
{
    let mut resp = resp;
    resp.add_header(Header::content_encoding(Encoding::Gzip));
    let z = match &resp.2 {
        None => return Ok(resp),
        Some(b) => gzip_encode(b.0.as_slice()).context("gzip"),
    };
    match z {
        Ok(z) => match resp.replace_body(ResponseBody(z)) {
            Ok(()) => Ok(resp),
            Err(e) => Err(e),
        },
        Err(e) => Err(e),
    }
}

/// Compresses the response when the request accepts gzip; outputs `Some`
/// exactly then.
pub struct Gzip {}

impl Endpoint for Gzip {
    type Output = Option<UnitT>;

    open spec fn ready(&self) -> bool {
        true
    }

    open spec fn handles(&self, s: StateView, out: Result<(StateView, Option<UnitT>)>) -> bool {
        if !accepts_gzip(s.request()) {
            out == Ok::<(StateView, Option<UnitT>), Error>((s, None))
        } else {
            match s {
                StateView::Incomplete(_) => out == Ok::<(StateView, Option<UnitT>), Error>(
                    (s, Some(UnitT)),
                ),
                StateView::Complete(req, resp) => match resp.body {
                    None => out == Ok::<(StateView, Option<UnitT>), Error>(
                        (
                            StateView::Complete(
                                req,
                                ResponseView {
                                    headers: resp.headers.push(
                                        HeaderView::ContentEncoding(Encoding::Gzip),
                                    ),
                                    ..resp
                                },
                            ),
                            Some(UnitT),
                        ),
                    ),
                    Some(b) => if gzip_of(b).len() <= u32::MAX {
                        out == Ok::<(StateView, Option<UnitT>), Error>(
                            (StateView::Complete(req, gzipped(resp, gzip_of(b))), Some(UnitT)),
                        )
                    } else {
                        out matches Err(Error::GeneralError(_))
                    },
                },
            }
        }
    }

    fn handle(&self, r: State) -> (out: Result<(State, Option<UnitT>)>) {
        let accepted = match r.request().headers().accept_encoding() {
            Some(ae) => ae.has_gzip(),
            None => false,
        };
        if !accepted {
            return Ok((r, None));
        }
        match r {
            State::Incomplete(i) => Ok((State::Incomplete(i), Some(UnitT))),
            State::Complete(Complete(req, resp)) => match gzip_response(resp) {
                Ok(resp2) => Ok((State::complete(req, resp2), Some(UnitT))),
                Err(e) => Err(e),
            },
        }
    }
}

pub fn gzip() -> (r: Gzip) {
    Gzip {}
}

/// Adds `Connection: close` to the response when the request asked for it;
/// outputs `Some` exactly then.
pub struct CloseConnection {}

impl Endpoint for CloseConnection {
    type Output = Option<UnitT>;

    open spec fn ready(&self) -> bool {
        true
    }

    open spec fn handles(&self, s: StateView, out: Result<(StateView, Option<UnitT>)>) -> bool {
        if first_connection(s.request().headers) is None {
            out == Ok::<(StateView, Option<UnitT>), Error>((s, None))
        } else {
            match s {
                StateView::Incomplete(_) => out == Ok::<(StateView, Option<UnitT>), Error>(
                    (s, Some(UnitT)),
                ),
                StateView::Complete(req, resp) => out == Ok::<
                    (StateView, Option<UnitT>),
                    Error,
                >(
                    (
                        StateView::Complete(
                            req,
                            ResponseView {
                                headers: resp.headers.push(
                                    HeaderView::Connection(Connection::Close),
                                ),
                                ..resp
                            },
                        ),
                        Some(UnitT),
                    ),
                ),
            }
        }
    }

    fn handle(&self, r: State) -> (out: Result<(State, Option<UnitT>)>) {
        if r.request().connection().is_none() {
            return Ok((r, None));
        }
        match r {
            State::Incomplete(i) => Ok((State::Incomplete(i), Some(UnitT))),
            State::Complete(Complete(req, resp)) => {
                let mut resp = resp;
                resp.add_header(Header::connection(Connection::Close));
                Ok((State::complete(req, resp), Some(UnitT)))
            },
        }
    }
}

pub fn close_connection() -> (r: CloseConnection) {
    CloseConnection {}
}

// ---------------------------------------------------------------------------
// Laws of the algebra.
// ---------------------------------------------------------------------------

/// The alternative tries its second endpoint on the very state it was
/// given. When `a` fails on `s` with any error, every outcome of `b` on `s`
/// is an outcome of `a.or(b)`; and every outcome of `a.or(b)` on `s` that is
/// not a success of `a` is an outcome of `b` on `s` itself, never on a
/// state `a` produced.
pub proof fn lemma_or_retries_on_same_state<O, H: Endpoint<Output = O>, G: Endpoint<Output = O>>(
    a: H,
    b: G,
    s: StateView,
    e: Error,
    out: Result<(StateView, O)>,
)
    ensures
        a.handles(s, Err(e)) && b.handles(s, out) ==> (Or { h: a, g: b }).handles(s, out),
        (Or { h: a, g: b }).handles(s, out) && !(out is Ok && a.handles(s, out)) ==> b.handles(
            s,
            out,
        ),
{
    let alt = Or { h: a, g: b };
    if a.handles(s, Err(e)) && b.handles(s, out) {
        assert(alt.h.handles(s, Err(e)));
        assert(alt.handles(s, out));
    }
}

/// `set_response` always ends in a completed state, carrying the request of
/// the state `g` ended in and the response `g` produced.
pub proof fn lemma_set_response_completes<H: Endpoint, G: Endpoint<Output = Response>>(
    h: H,
    g: G,
    s: StateView,
    s3: StateView,
    u: UnitT,
)
    requires
        (SetResponse { h, g }).handles(s, Ok((s3, u))),
    ensures
        s3 is Complete,
        exists|s1: StateView, o1: H::Output, s2: StateView, resp: Response|
            h.handles(s, Ok((s1, o1))) && g.handles(s1, Ok((s2, resp))) && s3
                == StateView::Complete(s2.request(), resp@),
{
}

/// `modify_response` never completes a state: a completed outcome comes
/// from a completed outcome of the endpoint it wraps.
pub proof fn lemma_modify_response_never_completes<H: Endpoint, F: Fn(Response) -> Result<Response>>(
    h: H,
    f: F,
    s: StateView,
    s2: StateView,
    o: H::Output,
)
    requires
        (ModifyResponse { h, f }).handles(s, Ok((s2, o))),
    ensures
        s2 is Incomplete ==> h.handles(s, Ok((s2, o))),
        s2 is Complete ==> exists|req: RequestView, resp: Response|
            h.handles(s, Ok((StateView::Complete(req, resp@), o))),
{
}

/// On an incomplete state `modify_response(f)` is a no-op: its only outcome
/// is the same state.
pub proof fn lemma_modify_response_incomplete<F: Fn(Response) -> Result<Response>>(
    m: Unit<ModifyResponse<S, F>>,
    s: StateView,
    out: Result<(StateView, UnitT)>,
)
    requires
        s is Incomplete,
        m.handles(s, out),
    ensures
        out == Ok::<(StateView, UnitT), Error>((s, UnitT)),
{
    match out {
        Ok((s1, u)) => {
            let o1 = choose|o1: State| #[trigger] m.h.handles(s, Ok((s1, o1)));
            assert(m.h.h.handles(s, Ok((s1, o1))));
            assert(u == UnitT);
        },
        Err(e) => {
            assert(!m.h.h.handles(s, Err(e)));
        },
    }
}

/// No outcome of `e` turns an incomplete state into a completed one.
pub open spec fn keeps_incomplete<E: Endpoint>(e: E) -> bool {
    forall|s: StateView, s2: StateView, o: E::Output|
        s is Incomplete && #[trigger] e.handles(s, Ok((s2, o))) ==> s2 is Incomplete
}

/// Every endpoint of this library that reads or decorates the state keeps
/// an incomplete state incomplete; among the operations, only
/// `set_response` completes one (`lemma_set_response_completes`).
pub proof fn lemma_builtins_keep_incomplete<T: Clone>(path: String, m: HttpMethod, t: T)
    ensures
        keeps_incomplete(S {}),
        keeps_incomplete(RequestOf {}),
        keeps_incomplete(RequestBodyOf {}),
        keeps_incomplete(UserAgentOf {}),
        keeps_incomplete(PathOf {}),
        keeps_incomplete(RouteOf {}),
        keeps_incomplete(MethodOf {}),
        keeps_incomplete(HeadersOf {}),
        keeps_incomplete(RouteFor { path }),
        keeps_incomplete(MethodIs { method: m }),
        keeps_incomplete(Lift { t }),
        keeps_incomplete(Gzip {}),
        keeps_incomplete(CloseConnection {}),
{
}

pub proof fn lemma_mapped_keeps_incomplete<G: Endpoint, F: Fn(G::Output) -> O2, O2>(e: Mapped<G, F>)
    requires
        keeps_incomplete(e.g),
    ensures
        keeps_incomplete(e),
{
    assert forall|s: StateView, s2: StateView, o: O2|
        s is Incomplete && #[trigger] e.handles(s, Ok((s2, o))) implies s2 is Incomplete by {
        let o1 = choose|o1: G::Output| #[trigger] e.g.handles(s, Ok((s2, o1))) && e.f.ensures((o1,), o);
        assert(e.g.handles(s, Ok((s2, o1))));
    }
}

pub proof fn lemma_map_res_keeps_incomplete<G: Endpoint, F: Fn(G::Output) -> Result<O2>, O2>(
    e: MapRes<G, F>,
)
    requires
        keeps_incomplete(e.g),
    ensures
        keeps_incomplete(e),
{
    assert forall|s: StateView, s2: StateView, o: O2|
        s is Incomplete && #[trigger] e.handles(s, Ok((s2, o))) implies s2 is Incomplete by {
        let o1 = choose|o1: G::Output| #[trigger] e.g.handles(s, Ok((s2, o1))) && e.f.ensures((o1,), Ok(o));
        assert(e.g.handles(s, Ok((s2, o1))));
    }
}

pub proof fn lemma_map_op_keeps_incomplete<G: Endpoint<Output = Option<O1>>, F: Fn(O1) -> O2, O1, O2>(
    e: MapOp<G, F>,
)
    requires
        keeps_incomplete(e.g),
    ensures
        keeps_incomplete(e),
{
    assert forall|s: StateView, s2: StateView, o: Option<O2>|
        s is Incomplete && #[trigger] e.handles(s, Ok((s2, o))) implies s2 is Incomplete by {
        match o {
            None => assert(e.g.handles(s, Ok((s2, None)))),
            Some(o2) => {
                let o1 = choose|o1: O1| #[trigger] e.g.handles(s, Ok((s2, Some(o1)))) && e.f.ensures((o1,), o2);
                assert(e.g.handles(s, Ok((s2, Some(o1)))));
            },
        }
    }
}

pub proof fn lemma_flat_map_keeps_incomplete<H: Endpoint, F: Fn(H::Output) -> HH, HH: Endpoint>(
    e: FlatMap<H, F>,
)
    requires
        keeps_incomplete(e.h),
        forall|o: H::Output, hh: HH| #[trigger] e.f.ensures((o,), hh) ==> keeps_incomplete(hh),
    ensures
        keeps_incomplete(e),
{
    assert forall|s: StateView, s2: StateView, o: HH::Output|
        s is Incomplete && #[trigger] e.handles(s, Ok((s2, o))) implies s2 is Incomplete by {
        let (s1, o1, hh) = choose|s1: StateView, o1: H::Output, hh: HH| #[trigger]
            e.h.handles(s, Ok((s1, o1))) && #[trigger] e.f.ensures((o1,), hh) && hh.handles(s1, Ok((s2, o)));
        assert(e.h.handles(s, Ok((s1, o1))));
        assert(keeps_incomplete(hh));
        assert(hh.handles(s1, Ok((s2, o))));
    }
}

pub proof fn lemma_flat_map_res_keeps_incomplete<
    H: Endpoint<Output = Result<O1>>,
    F: Fn(O1) -> HH,
    HH: Endpoint,
    O1,
>(e: FlatMapRes<H, F>)
    requires
        keeps_incomplete(e.h),
        forall|o: O1, hh: HH| #[trigger] e.f.ensures((o,), hh) ==> keeps_incomplete(hh),
    ensures
        keeps_incomplete(e),
{
    assert forall|s: StateView, s2: StateView, o: HH::Output|
        s is Incomplete && #[trigger] e.handles(s, Ok((s2, o))) implies s2 is Incomplete by {
        let (s1, o1, hh) = choose|s1: StateView, o1: O1, hh: HH| #[trigger]
            e.h.handles(s, Ok((s1, Ok(o1)))) && #[trigger] e.f.ensures((o1,), hh) && hh.handles(s1, Ok((s2, o)));
        assert(e.h.handles(s, Ok((s1, Ok(o1)))));
        assert(keeps_incomplete(hh));
        assert(hh.handles(s1, Ok((s2, o))));
    }
}

pub proof fn lemma_flat_map_op_keeps_incomplete<
    H: Endpoint<Output = Option<O1>>,
    F: Fn(O1) -> HH,
    HH: Endpoint,
    O1,
>(e: FlatMapOp<H, F>)
    requires
        keeps_incomplete(e.h),
        forall|o: O1, hh: HH| #[trigger] e.f.ensures((o,), hh) ==> keeps_incomplete(hh),
    ensures
        keeps_incomplete(e),
{
    assert forall|s: StateView, s2: StateView, o: Option<HH::Output>|
        s is Incomplete && #[trigger] e.handles(s, Ok((s2, o))) implies s2 is Incomplete by {
        match o {
            None => assert(e.h.handles(s, Ok((s2, None)))),
            Some(o2) => {
                let (s1, o1, hh) = choose|s1: StateView, o1: O1, hh: HH| #[trigger]
                    e.h.handles(s, Ok((s1, Some(o1)))) && #[trigger] e.f.ensures((o1,), hh)
                        && hh.handles(s1, Ok((s2, o2)));
                assert(e.h.handles(s, Ok((s1, Some(o1)))));
                assert(keeps_incomplete(hh));
                assert(hh.handles(s1, Ok((s2, o2))));
            },
        }
    }
}

pub proof fn lemma_and_keeps_incomplete<H: Endpoint, G: Endpoint>(e: And<H, G>)
    requires
        keeps_incomplete(e.h),
        keeps_incomplete(e.g),
    ensures
        keeps_incomplete(e),
{
    assert forall|s: StateView, s2: StateView, o: (H::Output, G::Output)|
        s is Incomplete && #[trigger] e.handles(s, Ok((s2, o))) implies s2 is Incomplete by {
        assert(e.both(s, s2, o.0, o.1));
        let s1 = choose|s1: StateView| #[trigger]
            e.h.handles(s, Ok((s1, o.0))) && e.g.handles(s1, Ok((s2, o.1)));
        assert(e.h.handles(s, Ok((s1, o.0))));
        assert(e.g.handles(s1, Ok((s2, o.1))));
    }
}

pub proof fn lemma_or_keeps_incomplete<O, H: Endpoint<Output = O>, G: Endpoint<Output = O>>(
    e: Or<H, G>,
)
    requires
        keeps_incomplete(e.h),
        keeps_incomplete(e.g),
    ensures
        keeps_incomplete(e),
{
    assert forall|s: StateView, s2: StateView, o: O|
        s is Incomplete && #[trigger] e.handles(s, Ok((s2, o))) implies s2 is Incomplete by {
        if e.h.handles(s, Ok((s2, o))) {
        } else {
            assert(e.g.handles(s, Ok((s2, o))));
        }
    }
}

pub proof fn lemma_stop_if_keeps_incomplete<H: Endpoint, P: Fn(&H::Output) -> bool>(e: StopIf<H, P>)
    requires
        keeps_incomplete(e.h),
    ensures
        keeps_incomplete(e),
{
    assert forall|s: StateView, s2: StateView, o: H::Output|
        s is Incomplete && #[trigger] e.handles(s, Ok((s2, o))) implies s2 is Incomplete by {
        assert(e.h.handles(s, Ok((s2, o))));
    }
}

pub proof fn lemma_value_keeps_incomplete<H: Endpoint, O: Clone>(e: Value<H, O>)
    requires
        keeps_incomplete(e.h),
    ensures
        keeps_incomplete(e),
{
    assert forall|s: StateView, s2: StateView, o: O|
        s is Incomplete && #[trigger] e.handles(s, Ok((s2, o))) implies s2 is Incomplete by {
        let o1 = choose|o1: H::Output| #[trigger] e.h.handles(s, Ok((s2, o1)));
        assert(e.h.handles(s, Ok((s2, o1))));
    }
}

pub proof fn lemma_unit_keeps_incomplete<H: Endpoint>(e: Unit<H>)
    requires
        keeps_incomplete(e.h),
    ensures
        keeps_incomplete(e),
{
    assert forall|s: StateView, s2: StateView, o: UnitT|
        s is Incomplete && #[trigger] e.handles(s, Ok((s2, o))) implies s2 is Incomplete by {
        let o1 = choose|o1: H::Output| #[trigger] e.h.handles(s, Ok((s2, o1)));
        assert(e.h.handles(s, Ok((s2, o1))));
    }
}

pub proof fn lemma_modify_response_keeps_incomplete<H: Endpoint, F: Fn(Response) -> Result<Response>>(
    e: ModifyResponse<H, F>,
)
    requires
        keeps_incomplete(e.h),
    ensures
        keeps_incomplete(e),
{
    assert forall|s: StateView, s2: StateView, o: H::Output|
        s is Incomplete && #[trigger] e.handles(s, Ok((s2, o))) implies s2 is Incomplete by {
        lemma_modify_response_never_completes(e.h, e.f, s, s2, o);
        if s2 is Complete {
            let (req, resp) = choose|req: RequestView, resp: Response|
                #[trigger] e.h.handles(s, Ok((StateView::Complete(req, resp@), o)));
            assert(e.h.handles(s, Ok((StateView::Complete(req, resp@), o))));
        }
    }
}

} // verus!
