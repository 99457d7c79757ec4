use tower_request_id::trace::RequestSpan;
use tower_request_id::{EchoHandler, Handler, Request, RequestId, RequestIdService};

fn request(method: &str, uri: &str) -> Request<()> {
    Request { method: method.to_string(), uri: uri.to_string(), id: None, body: () }
}

#[test]
fn span_without_id_falls_back_to_unknown() {
    let span = RequestSpan.make_span(&request("GET", "/status"));
    assert_eq!(span.id, "unknown");
    assert_eq!(span.method, "GET");
    assert_eq!(span.uri, "/status");
}

#[test]
fn span_with_id_carries_its_text() {
    let mut req = request("POST", "/orders?draft=true");
    req.id = Some(RequestId(1974051973948898290604795105153824161));
    let span = RequestSpan.make_span(&req);
    assert_eq!(span.id, "01FGR4DNBYJ0M7ZV6XS3JHXDD1");
    assert_eq!(span.method, "POST");
    assert_eq!(span.uri, "/orders?draft=true");
}

#[test]
fn span_after_the_middleware_carries_the_stamped_id() {
    // The stamping middleware runs first; the adapter then reads the very
    // identifier the inner handler saw.
    let mut svc = RequestIdService::new(EchoHandler {
        ready: true,
        outcome: Ok(String::new()),
        last_id: None,
    });
    let _ = svc.call(request("GET", "/"));
    let stamped = svc.inner.last_id.unwrap();
    let mut req = request("GET", "/");
    req.id = Some(stamped);
    let span = RequestSpan.make_span(&req);
    assert_eq!(span.id, stamped.render_as_text());
    assert_eq!(span.id.len(), 26);
}
