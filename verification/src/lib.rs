//! A tiny middleware that stamps each incoming request with a fresh, sortable
//! unique identifier and makes it available to the downstream handler chain
//! and to a span-building adapter for structured logging.

use vstd::prelude::*;

pub mod encode;
pub mod trace;

verus! {

/// A 128-bit, time-prefixed, lexicographically sortable unique identifier:
/// the most significant 48 bits hold a millisecond timestamp, the remaining
/// 80 bits are random.
#[derive(Debug, Clone, Copy, PartialEq, Eq, Structural)]
pub struct RequestId(pub u128);

/// Relies on `ulid::Ulid::generate`: a fresh 128-bit value whose upper 48
/// bits come from the clock and whose lower 80 bits come from a random
/// source.  The result depends on the time and on chance, so nothing is
/// stated of it.
#[verifier::external_body]
fn fresh_id_bits() -> u128 {
    ulid::Ulid::generate().0
}

impl RequestId {
    /// Draws a fresh identifier from the clock and the process's random
    /// source.
    pub fn new() -> RequestId {
        RequestId(fresh_id_bits())
    }

    /// Renders this identifier as its canonical text form: always exactly
    /// 26 characters, each drawn from the base-32 alphabet.
    pub fn render_as_text(&self) -> (r: String)
        ensures
            r@ == crate::encode::encoding(self.0),
            r@.len() == 26,
            forall|i: int|
                0 <= i < 26 ==> crate::encode::alphabet().contains(#[trigger] r@[i]),
    {
        proof {
            crate::encode::lemma_encoding_shape(self.0);
        }
        crate::encode::encode_value(self.0)
    }
}

/// The 128-bit value of an identifier whose millisecond timestamp is `t`
/// (the most significant 48 bits) and whose random tail is `tail` (the
/// remaining 80 bits).
pub open spec fn id_value(t: u64, tail: u128) -> int {
    t * 0x100000000000000000000 + tail
}

/// Identifiers drawn at ordered moments render in order: one from a
/// strictly earlier millisecond sorts strictly before, whatever the two
/// random tails hold, and within one millisecond the tails decide.  (Two
/// identifiers of the same millisecond whose tails happen to come out
/// unordered are the one case the rendering cannot order by time.)
pub proof fn lemma_ids_sort_by_time(t1: u64, tail1: u128, t2: u64, tail2: u128)
    requires
        t1 < 0x1000000000000,
        t2 < 0x1000000000000,
        tail1 < 0x100000000000000000000,
        tail2 < 0x100000000000000000000,
        t1 < t2 || (t1 == t2 && tail1 <= tail2),
    ensures
        id_value(t1, tail1) <= id_value(t2, tail2),
        crate::encode::lex_leq(
            crate::encode::encoding(id_value(t1, tail1) as u128),
            crate::encode::encoding(id_value(t2, tail2) as u128),
        ),
{
    crate::encode::lemma_encoding_monotonic(
        id_value(t1, tail1) as u128,
        id_value(t2, tail2) as u128,
    );
}

/// The answer a handler gives when asked whether it can accept a request.
pub enum Readiness<E> {
    /// The handler can accept a request now.
    Ready,
    /// The handler cannot accept a request yet.
    Pending,
    /// The handler has failed, with its error.
    Failed(E),
}

/// A request as this middleware sees it: the method and target the
/// surrounding framework parsed, the per-request identifier slot, and the
/// body, which this crate never reads.
pub struct Request<B> {
    /// The request method.
    pub method: String,
    /// The request target (path and query).
    pub uri: String,
    /// The per-request identifier slot; the middleware fills it.
    pub id: Option<RequestId>,
    /// The request body.
    pub body: B,
}

impl<B> Request<B> {
    /// The same request with its identifier slot overwritten by `id`.
    pub open spec fn stamped(self, id: RequestId) -> Request<B> {
        Request { id: Some(id), ..self }
    }
}

/// After stamping, the request carries exactly the one identifier just
/// drawn — an earlier value in the slot is overwritten — and nothing else
/// about the request has changed.
pub proof fn lemma_stamp_overwrites<B>(req: Request<B>, id: RequestId)
    ensures
        req.stamped(id).id == Some(id),
        req.stamped(id).method == req.method,
        req.stamped(id).uri == req.uri,
        req.stamped(id).body == req.body,
{
}

/// One stage of the handler chain: what the middleware wraps and forwards
/// to.  Each implementor describes its own behaviour through the two spec
/// functions, and its exec methods promise exactly that behaviour.
pub trait Handler<B>: Sized {
    /// The response this handler produces.
    type Response;

    /// The error this handler fails with.
    type Error;

    /// How, after a readiness query, the handler's state and the reported
    /// readiness relate to the state before.
    spec fn ready_post(pre: Self, post: Self, r: Readiness<Self::Error>) -> bool;

    /// How, after a call, the handler's state and the returned result
    /// relate to the state before and the request handed in.
    spec fn call_post(
        pre: Self,
        post: Self,
        req: Request<B>,
        r: Result<Self::Response, Self::Error>,
    ) -> bool;

    /// Reports whether this handler can accept a request.
    fn poll_ready(&mut self) -> (r: Readiness<Self::Error>)
        ensures
            Self::ready_post(*old(self), *final(self), r),
    ;

    /// Handles one request.
    fn call(&mut self, req: Request<B>) -> (r: Result<Self::Response, Self::Error>)
        ensures
            Self::call_post(*old(self), *final(self), req, r),
    ;
}

/// Middleware that owns one inner handler and stamps a fresh identifier
/// into each request before delegating; it holds no other state.
#[derive(Clone, Debug)]
pub struct RequestIdService<S> {
    /// The wrapped handler.
    pub inner: S,
}

impl<S> RequestIdService<S> {
    /// Takes ownership of exactly one inner handler.
    pub fn new(inner: S) -> (r: RequestIdService<S>)
        ensures
            r.inner == inner,
    {
        RequestIdService { inner }
    }
}

impl<B, S: Handler<B>> Handler<B> for RequestIdService<S> {
    type Response = S::Response;

    type Error = S::Error;

    /// The readiness query is handed through unchanged: exactly what an
    /// inner readiness query may do, and nothing else, may happen here.
    open spec fn ready_post(pre: Self, post: Self, r: Readiness<S::Error>) -> bool {
        S::ready_post(pre.inner, post.inner, r)
    }

    /// A call stamps some identifier into the request's slot and then
    /// behaves exactly as an inner call on the stamped request: the result,
    /// response or error, is the inner handler's own, unwrapped.
    open spec fn call_post(
        pre: Self,
        post: Self,
        req: Request<B>,
        r: Result<S::Response, S::Error>,
    ) -> bool {
        exists|id: RequestId| #[trigger] S::call_post(pre.inner, post.inner, req.stamped(id), r)
    }

    /// Forwards the inner handler's readiness signal unchanged.
    fn poll_ready(&mut self) -> (r: Readiness<S::Error>) {
        self.inner.poll_ready()
    }

    /// Draws a fresh identifier, stamps it into the request, and forwards
    /// the annotated request to the inner handler.
    fn call(&mut self, req: Request<B>) -> (r: Result<S::Response, S::Error>) {
        let id = RequestId::new();
        let ghost orig = req;
        let annotated = Request { id: Some(id), ..req };
        let r = self.inner.call(annotated);
        proof {
            assert(S::call_post(old(self).inner, self.inner, orig.stamped(id), r));
        }
        r
    }
}

/// A terminal handler for exercising the middleware end to end: it echoes a
/// fixed outcome — success or failure — byte for byte, records the
/// identifier slot of the last request it saw, and reports a configurable
/// readiness.
pub struct EchoHandler {
    /// Whether the handler reports itself ready.
    pub ready: bool,
    /// The outcome the handler returns from every call.
    pub outcome: Result<String, String>,
    /// The identifier slot of the last request handled, if any.
    pub last_id: Option<RequestId>,
}

impl<B> Handler<B> for EchoHandler {
    type Response = String;

    type Error = String;

    /// The handler's state is untouched; it answers ready or pending as
    /// configured and never fails the readiness query.
    open spec fn ready_post(pre: Self, post: Self, r: Readiness<String>) -> bool {
        &&& post == pre
        &&& match r {
            Readiness::Ready => pre.ready,
            Readiness::Pending => !pre.ready,
            Readiness::Failed(_) => false,
        }
    }

    /// The configured outcome comes back unchanged, and the identifier slot
    /// of the request is recorded.
    open spec fn call_post(
        pre: Self,
        post: Self,
        req: Request<B>,
        r: Result<String, String>,
    ) -> bool {
        &&& post.ready == pre.ready
        &&& post.outcome == pre.outcome
        &&& post.last_id == req.id
        &&& r == pre.outcome
    }

    fn poll_ready(&mut self) -> (r: Readiness<String>) {
        if self.ready {
            Readiness::Ready
        } else {
            Readiness::Pending
        }
    }

    fn call(&mut self, req: Request<B>) -> (r: Result<String, String>) {
        self.last_id = req.id;
        match &self.outcome {
            Ok(s) => Ok(s.clone()),
            Err(e) => Err(e.clone()),
        }
    }
}

/// Applies the identifier-stamping middleware to a handler, so that the
/// middleware composes as one layer among others.
#[derive(Clone, Debug)]
pub struct RequestIdLayer;

impl RequestIdLayer {
    /// Wraps `inner` in a [`RequestIdService`].
    pub fn layer<S>(&self, inner: S) -> (r: RequestIdService<S>)
        ensures
            r.inner == inner,
    {
        RequestIdService { inner }
    }
}

} // verus!
