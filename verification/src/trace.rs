//! The span-building adapter: turns a request already annotated by the
//! middleware into the three string fields of a structured logging span.

use crate::encode;
use crate::Request;
use vstd::prelude::*;

verus! {

/// The structured data of one request's logging span: the three
/// string-valued fields the logging subsystem expects.
pub struct SpanDescriptor {
    /// The identifier's text, or the literal `unknown` if the request
    /// carried no identifier.
    pub id: String,
    /// The request method.
    pub method: String,
    /// The request target (path and query).
    pub uri: String,
}

/// Builds span descriptors from requests.  A pure reader: it never mutates
/// the request and holds no state of its own.
#[derive(Clone, Debug)]
pub struct RequestSpan;

impl RequestSpan {
    /// Reads the identifier stamped into `request` — substituting the
    /// literal `unknown` when there is none, rather than failing — and
    /// pairs its text with the request's method and target.
    pub fn make_span<B>(&self, request: &Request<B>) -> (s: SpanDescriptor)
        ensures
            match request.id {
                Some(id) => s.id@ == encode::encoding(id.0),
                None => s.id@ == "unknown"@,
            },
            s.method@ == request.method@,
            s.uri@ == request.uri@,
    {
        let id_text = match request.id {
            Some(id) => id.render_as_text(),
            None => "unknown".to_owned(),
        };
        SpanDescriptor { id: id_text, method: request.method.clone(), uri: request.uri.clone() }
    }
}

} // verus!
