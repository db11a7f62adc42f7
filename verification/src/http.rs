//! The answers of the metrics endpoint: which path a request asks for, and the
//! HTTP response it gets.
use vstd::prelude::*;
use crate::metrics::{prometheus_text, Metrics};
use crate::text::{decimal, push_decimal};

verus! {

/// Unicode white space, as `char::is_whitespace` takes it.
pub open spec fn is_space(c: char) -> bool {
    let u = c as u32;
    (9 <= u && u <= 13) || u == 32 || u == 0x85 || u == 0xA0 || u == 0x1680 || (0x2000 <= u && u <= 0x200A)
        || u == 0x2028 || u == 0x2029 || u == 0x202F || u == 0x205F || u == 0x3000
}

fn space_char(c: char) -> (r: bool)
    ensures
        r == is_space(c),
{
    let u = c as u32;
    (9 <= u && u <= 13) || u == 32 || u == 0x85 || u == 0xA0 || u == 0x1680 || (0x2000 <= u && u <= 0x200A)
        || u == 0x2028 || u == 0x2029 || u == 0x202F || u == 0x205F || u == 0x3000
}

/// The words of a text: its maximal runs of characters that are not white
/// space, in order.
pub open spec fn words(s: Seq<char>) -> Seq<Seq<char>>
    decreases s.len(),
{
    if s.len() == 0 {
        Seq::empty()
    } else {
        let w = words(s.drop_last());
        let c = s.last();
        if is_space(c) {
            w
        } else if s.len() > 1 && !is_space(s[s.len() - 2]) {
            w.update(w.len() - 1, w.last().push(c))
        } else {
            w.push(seq![c])
        }
    }
}

/// The text before the first line feed (all of it when there is none).
pub open spec fn first_line(s: Seq<char>) -> Seq<char>
    decreases s.len(),
{
    if s.len() == 0 || s[0] == '\n' {
        Seq::empty()
    } else {
        seq![s[0]] + first_line(s.drop_first())
    }
}

/// The path a request asks for: the second word of its first line, `/` when
/// there is none.
pub open spec fn request_path_of(s: Seq<char>) -> Seq<char> {
    let w = words(first_line(s));
    if w.len() >= 2 {
        w[1]
    } else {
        "/"@
    }
}

/// The text of a byte string decoded as UTF-8, each invalid sequence replaced
/// by U+FFFD.
pub uninterp spec fn lossy_utf8(bytes: Seq<u8>) -> Seq<char>;

/// `String::from_utf8_lossy`, as an owned string.
#[verifier::external_body]
fn utf8_lossy(bytes: &[u8]) -> (r: String)
    ensures
        r@ == lossy_utf8(bytes@),
{
    String::from_utf8_lossy(bytes).into_owned()
}

proof fn lemma_words_nonempty(s: Seq<char>)
    requires
        s.len() > 0,
        !is_space(s.last()),
    ensures
        words(s).len() > 0,
    decreases s.len(),
{
    if s.len() > 1 && !is_space(s[s.len() - 2]) {
        assert(s.drop_last().last() == s[s.len() - 2]);
        lemma_words_nonempty(s.drop_last());
    }
}

proof fn lemma_first_line_split(s: Seq<char>, i: int)
    requires
        0 <= i <= s.len(),
        forall|j: int| 0 <= j < i ==> s[j] != '\n',
    ensures
        first_line(s) == s.take(i) + first_line(s.skip(i)),
    decreases i,
{
    if i > 0 {
        lemma_first_line_split(s.drop_first(), i - 1);
        assert(s.drop_first().skip(i - 1) =~= s.skip(i));
        assert(seq![s[0]] + s.drop_first().take(i - 1) =~= s.take(i));
        assert(first_line(s) == seq![s[0]] + first_line(s.drop_first()));
        assert(seq![s[0]] + (s.drop_first().take(i - 1) + first_line(s.skip(i))) =~= s.take(i) + first_line(s.skip(i)));
    } else {
        assert(s.skip(0) =~= s);
        assert(s.take(0) + first_line(s) =~= first_line(s));
    }
}

/// The path an HTTP request asks for.
pub fn request_path(request: &[u8]) -> (r: String)
    ensures
        r@ == request_path_of(lossy_utf8(request@)),
{
    let text = utf8_lossy(request);
    let chars = crate::text::chars_of(text.as_str());
    let ghost s = chars@;
    let mut count: usize = 0;
    let mut in_word = false;
    let mut second = String::new();
    let mut i: usize = 0;
    while i < chars.len() && chars[i] != '\n'
        invariant
            s == chars@,
            i <= s.len(),
            forall|j: int| 0 <= j < i ==> s[j] != '\n',
            count == words(s.take(i as int)).len(),
            count <= i,
            in_word == (i > 0 && !is_space(s[i - 1])),
            count >= 2 ==> second@ == words(s.take(i as int))[1],
            count < 2 ==> second@ == Seq::<char>::empty(),
        decreases s.len() - i,
    {
        let c = chars[i];
        let ghost p = s.take(i as int);
        let ghost q = s.take(i + 1);
        assert(q.drop_last() =~= p);
        assert(q.last() == c);
        proof {
            if i > 0 {
                assert(q[q.len() - 2] == s[i - 1]);
            }
            if in_word {
                assert(p.last() == s[i - 1]);
                lemma_words_nonempty(p);
            }
        }
        if space_char(c) {
            in_word = false;
        } else if in_word {
            if count == 2 {
                crate::text::string_push(&mut second, c);
            }
        } else {
            count = count + 1;
            if count == 2 {
                crate::text::string_push(&mut second, c);
                assert(second@ =~= seq![c]);
            }
            in_word = true;
        }
        i = i + 1;
    }
    proof {
        lemma_first_line_split(s, i as int);
        if i < s.len() {
            assert(first_line(s.skip(i as int)) == Seq::<char>::empty());
        } else {
            assert(s.skip(i as int) =~= Seq::<char>::empty());
        }
        assert(first_line(s) =~= s.take(i as int));
    }
    if count >= 2 {
        second
    } else {
        String::from_str("/")
    }
}

/// What the endpoint serves.
pub enum Route {
    /// `/metrics`: the Prometheus exposition.
    Metrics,
    /// `/health`: `ok`.
    Health,
    /// Anything else.
    NotFound,
}

/// The route of a path.
pub open spec fn route_of(path: Seq<char>) -> Route {
    if path == "/metrics"@ {
        Route::Metrics
    } else if path == "/health"@ {
        Route::Health
    } else {
        Route::NotFound
    }
}

/// What a path is served.
pub fn route(path: &str) -> (r: Route)
    ensures
        r == route_of(path@),
{
    if crate::text::str_equal(path, "/metrics") {
        Route::Metrics
    } else if crate::text::str_equal(path, "/health") {
        Route::Health
    } else {
        Route::NotFound
    }
}

/// An HTTP/1.1 response with this status and a plain-text body, its length
/// given in bytes.
pub open spec fn response_text(status: Seq<char>, body: Seq<char>) -> Seq<char> {
    "HTTP/1.1 "@ + status + "\r\ncontent-type: text/plain; charset=utf-8\r\ncontent-length: "@ + decimal(
        vstd::utf8::encode_utf8(body).len(),
    ) + "\r\n\r\n"@ + body
}

/// Builds an HTTP/1.1 response with this status and a plain-text body.
pub fn http_response(status: &str, body: &str) -> (r: String)
    ensures
        r@ == response_text(status@, body@),
{
    let mut out = String::from_str("HTTP/1.1 ");
    out.append(status);
    out.append("\r\ncontent-type: text/plain; charset=utf-8\r\ncontent-length: ");
    let n = body.as_bytes().len();
    push_decimal(&mut out, n as u64);
    out.append("\r\n\r\n");
    out.append(body);
    out
}

/// The response of the endpoint to a request: the metrics exposition for
/// `/metrics`, `ok` for `/health`, `404 Not Found` otherwise.
/// `sum_seconds` is the rendered sum of the observed publish durations.
pub fn respond(request: &[u8], metrics: &Metrics, sum_seconds: &str) -> (r: String)
    requires
        metrics.has_histogram(),
    ensures
        r@ == match route_of(request_path_of(lossy_utf8(request@))) {
            Route::Metrics => response_text("200 OK"@, prometheus_text(*metrics, sum_seconds@)),
            Route::Health => response_text("200 OK"@, "ok"@),
            Route::NotFound => response_text("404 Not Found"@, "not found"@),
        },
{
    let path = request_path(request);
    match route(path.as_str()) {
        Route::Metrics => {
            let body = metrics.gather_prometheus(sum_seconds);
            http_response("200 OK", body.as_str())
        },
        Route::Health => http_response("200 OK", "ok"),
        Route::NotFound => http_response("404 Not Found", "not found"),
    }
}

/// Law: `/metrics` is served the exposition, `/health` the health answer,
/// and every other path is not found.
pub proof fn lemma_routes(path: Seq<char>)
    ensures
        (route_of(path) == Route::Metrics) == (path == "/metrics"@),
        (route_of(path) == Route::Health) == (path == "/health"@),
        (route_of(path) == Route::NotFound) == (path != "/metrics"@ && path != "/health"@),
{
    reveal_strlit("/metrics");
    reveal_strlit("/health");
    assert("/metrics"@ != "/health"@) by {
        assert("/metrics"@[1] != "/health"@[1]);
    }
}

} // verus!
