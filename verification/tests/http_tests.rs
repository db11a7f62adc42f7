use rust_wal_cake_writer::http::{http_response, request_path, respond, route, Route};
use rust_wal_cake_writer::metrics::Metrics;

#[test]
fn request_paths() {
    assert_eq!(request_path(b"GET /metrics HTTP/1.1\r\nHost: x\r\n\r\n"), "/metrics");
    assert_eq!(request_path(b"GET\t /health  HTTP/1.1\r\n"), "/health");
    assert_eq!(request_path(b"GET\r\n/metrics"), "/");
    assert_eq!(request_path(b""), "/");
    assert_eq!(request_path(b"GET /caf\xc3\xa9 HTTP/1.1"), "/caf\u{e9}");
    assert_eq!(request_path(b"GET /a\xff HTTP/1.1"), "/a\u{fffd}");
    assert_eq!(request_path("GET\u{00a0}/x".as_bytes()), "/x");
}

#[test]
fn routes() {
    assert!(matches!(route("/metrics"), Route::Metrics));
    assert!(matches!(route("/health"), Route::Health));
    assert!(matches!(route("/"), Route::NotFound));
}

#[test]
fn responses() {
    assert_eq!(http_response("200 OK", "ok"), "HTTP/1.1 200 OK\r\ncontent-type: text/plain; charset=utf-8\r\ncontent-length: 2\r\n\r\nok");
    assert_eq!(http_response("200 OK", "\u{e9}"), "HTTP/1.1 200 OK\r\ncontent-type: text/plain; charset=utf-8\r\ncontent-length: 2\r\n\r\n\u{e9}");
    let m = Metrics::new();
    assert_eq!(respond(b"GET /health HTTP/1.1\r\n", &m, "0"), http_response("200 OK", "ok"));
    assert_eq!(respond(b"GET /nope HTTP/1.1\r\n", &m, "0"), http_response("404 Not Found", "not found"));
    let full = respond(b"GET /metrics HTTP/1.1\r\n", &m, "0");
    assert_eq!(full, http_response("200 OK", &m.gather_prometheus("0")));
}
