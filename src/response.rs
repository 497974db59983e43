use crate::data_lake::{extend_bytes, fixed_decimal, fixed_digits};
use crate::http::{entry_in_bounds, parse_http_methods_paths, requests, RequestRawEntry};
use vstd::prelude::*;

verus! {

/// Longest JSON body that the composer is given: fifty responses carrying it
/// still fit one connection's staging lake.
pub const MAX_JSON_BODY: usize = 80;

/// Longest response that the composer writes for one request.
pub const MAX_RESPONSE: usize = 280;

/// What a request is answered with.
#[derive(Debug, Clone, Copy, PartialEq, Eq, Structural)]
pub enum Route {
    Plaintext,
    Json,
    NotFound,
}

/// The status line of a successful response. `HTTP/1.1 200 OK\r\n`
pub open spec fn status_success() -> Seq<u8> {
    seq![72u8, 84u8, 84u8, 80u8, 47u8, 49u8, 46u8, 49u8, 32u8, 50u8, 48u8, 48u8, 32u8, 79u8, 75u8, 13u8, 10u8]
}

/// The status line of a successful response.
pub fn status_success_bytes() -> (r: Vec<u8>)
    ensures
        r@ == status_success(),
{
    let r = vec![72u8, 84u8, 84u8, 80u8, 47u8, 49u8, 46u8, 49u8, 32u8, 50u8, 48u8, 48u8, 32u8, 79u8, 75u8, 13u8, 10u8];
    assert(r@ =~= status_success());
    r
}

/// The status line of a response to an unknown route. `HTTP/1.1 404 Not Found\r\n`
pub open spec fn status_not_found() -> Seq<u8> {
    seq![72u8, 84u8, 84u8, 80u8, 47u8, 49u8, 46u8, 49u8, 32u8, 52u8, 48u8, 52u8, 32u8, 78u8, 111u8, 116u8, 32u8, 70u8, 111u8, 117u8, 110u8, 100u8, 13u8, 10u8]
}

/// The status line of a response to an unknown route.
pub fn status_not_found_bytes() -> (r: Vec<u8>)
    ensures
        r@ == status_not_found(),
{
    let r = vec![72u8, 84u8, 84u8, 80u8, 47u8, 49u8, 46u8, 49u8, 32u8, 52u8, 48u8, 52u8, 32u8, 78u8, 111u8, 116u8, 32u8, 70u8, 111u8, 117u8, 110u8, 100u8, 13u8, 10u8];
    assert(r@ =~= status_not_found());
    r
}

/// The content type of a plain-text body. `Content-Type: text/plain; charset=utf-8\r\n`
pub open spec fn content_type_text() -> Seq<u8> {
    seq![67u8, 111u8, 110u8, 116u8, 101u8, 110u8, 116u8, 45u8, 84u8, 121u8, 112u8, 101u8, 58u8, 32u8, 116u8, 101u8, 120u8, 116u8, 47u8, 112u8, 108u8, 97u8, 105u8, 110u8, 59u8, 32u8, 99u8, 104u8, 97u8, 114u8, 115u8, 101u8, 116u8, 61u8, 117u8, 116u8, 102u8, 45u8, 56u8, 13u8, 10u8]
}

/// The content type of a plain-text body.
pub fn content_type_text_bytes() -> (r: Vec<u8>)
    ensures
        r@ == content_type_text(),
{
    let r = vec![67u8, 111u8, 110u8, 116u8, 101u8, 110u8, 116u8, 45u8, 84u8, 121u8, 112u8, 101u8, 58u8, 32u8, 116u8, 101u8, 120u8, 116u8, 47u8, 112u8, 108u8, 97u8, 105u8, 110u8, 59u8, 32u8, 99u8, 104u8, 97u8, 114u8, 115u8, 101u8, 116u8, 61u8, 117u8, 116u8, 102u8, 45u8, 56u8, 13u8, 10u8];
    assert(r@ =~= content_type_text());
    r
}

/// The content type of a JSON body. `Content-Type: application/json; charset=utf-8\r\n`
pub open spec fn content_type_json() -> Seq<u8> {
    seq![67u8, 111u8, 110u8, 116u8, 101u8, 110u8, 116u8, 45u8, 84u8, 121u8, 112u8, 101u8, 58u8, 32u8, 97u8, 112u8, 112u8, 108u8, 105u8, 99u8, 97u8, 116u8, 105u8, 111u8, 110u8, 47u8, 106u8, 115u8, 111u8, 110u8, 59u8, 32u8, 99u8, 104u8, 97u8, 114u8, 115u8, 101u8, 116u8, 61u8, 117u8, 116u8, 102u8, 45u8, 56u8, 13u8, 10u8]
}

/// The content type of a JSON body.
pub fn content_type_json_bytes() -> (r: Vec<u8>)
    ensures
        r@ == content_type_json(),
{
    let r = vec![67u8, 111u8, 110u8, 116u8, 101u8, 110u8, 116u8, 45u8, 84u8, 121u8, 112u8, 101u8, 58u8, 32u8, 97u8, 112u8, 112u8, 108u8, 105u8, 99u8, 97u8, 116u8, 105u8, 111u8, 110u8, 47u8, 106u8, 115u8, 111u8, 110u8, 59u8, 32u8, 99u8, 104u8, 97u8, 114u8, 115u8, 101u8, 116u8, 61u8, 117u8, 116u8, 102u8, 45u8, 56u8, 13u8, 10u8];
    assert(r@ =~= content_type_json());
    r
}

/// A line break. `\r\n`
pub open spec fn crlf() -> Seq<u8> {
    seq![13u8, 10u8]
}

/// A line break.
pub fn crlf_bytes() -> (r: Vec<u8>)
    ensures
        r@ == crlf(),
{
    let r = vec![13u8, 10u8];
    assert(r@ =~= crlf());
    r
}

/// The name of the content length header. `Content-Length: `
pub open spec fn content_length() -> Seq<u8> {
    seq![67u8, 111u8, 110u8, 116u8, 101u8, 110u8, 116u8, 45u8, 76u8, 101u8, 110u8, 103u8, 116u8, 104u8, 58u8, 32u8]
}

/// The name of the content length header.
pub fn content_length_bytes() -> (r: Vec<u8>)
    ensures
        r@ == content_length(),
{
    let r = vec![67u8, 111u8, 110u8, 116u8, 101u8, 110u8, 116u8, 45u8, 76u8, 101u8, 110u8, 103u8, 116u8, 104u8, 58u8, 32u8];
    assert(r@ =~= content_length());
    r
}

/// The headers that close every response, with the blank line. `Server: Tachyon\r\nConnection: keep-alive\r\nKeep-Alive: timeout=5, max=1000\r\n\r\n`
pub open spec fn base_headers() -> Seq<u8> {
    seq![83u8, 101u8, 114u8, 118u8, 101u8, 114u8, 58u8, 32u8, 84u8, 97u8, 99u8, 104u8, 121u8, 111u8, 110u8, 13u8, 10u8, 67u8, 111u8, 110u8, 110u8, 101u8, 99u8, 116u8, 105u8, 111u8, 110u8, 58u8, 32u8, 107u8, 101u8, 101u8, 112u8, 45u8, 97u8, 108u8, 105u8, 118u8, 101u8, 13u8, 10u8, 75u8, 101u8, 101u8, 112u8, 45u8, 65u8, 108u8, 105u8, 118u8, 101u8, 58u8, 32u8, 116u8, 105u8, 109u8, 101u8, 111u8, 117u8, 116u8, 61u8, 53u8, 44u8, 32u8, 109u8, 97u8, 120u8, 61u8, 49u8, 48u8, 48u8, 48u8, 13u8, 10u8, 13u8, 10u8]
}

/// The headers that close every response, with the blank line.
pub fn base_headers_bytes() -> (r: Vec<u8>)
    ensures
        r@ == base_headers(),
{
    let r = vec![83u8, 101u8, 114u8, 118u8, 101u8, 114u8, 58u8, 32u8, 84u8, 97u8, 99u8, 104u8, 121u8, 111u8, 110u8, 13u8, 10u8, 67u8, 111u8, 110u8, 110u8, 101u8, 99u8, 116u8, 105u8, 111u8, 110u8, 58u8, 32u8, 107u8, 101u8, 101u8, 112u8, 45u8, 97u8, 108u8, 105u8, 118u8, 101u8, 13u8, 10u8, 75u8, 101u8, 101u8, 112u8, 45u8, 65u8, 108u8, 105u8, 118u8, 101u8, 58u8, 32u8, 116u8, 105u8, 109u8, 101u8, 111u8, 117u8, 116u8, 61u8, 53u8, 44u8, 32u8, 109u8, 97u8, 120u8, 61u8, 49u8, 48u8, 48u8, 48u8, 13u8, 10u8, 13u8, 10u8];
    assert(r@ =~= base_headers());
    r
}

/// The body of the plain-text route. `Hello, World!`
pub open spec fn plaintext_body() -> Seq<u8> {
    seq![72u8, 101u8, 108u8, 108u8, 111u8, 44u8, 32u8, 87u8, 111u8, 114u8, 108u8, 100u8, 33u8]
}

/// The body of the plain-text route.
pub fn plaintext_body_bytes() -> (r: Vec<u8>)
    ensures
        r@ == plaintext_body(),
{
    let r = vec![72u8, 101u8, 108u8, 108u8, 111u8, 44u8, 32u8, 87u8, 111u8, 114u8, 108u8, 100u8, 33u8];
    assert(r@ =~= plaintext_body());
    r
}

/// The body of a response to an unknown route. `Not, found!`
pub open spec fn not_found_body() -> Seq<u8> {
    seq![78u8, 111u8, 116u8, 44u8, 32u8, 102u8, 111u8, 117u8, 110u8, 100u8, 33u8]
}

/// The body of a response to an unknown route.
pub fn not_found_body_bytes() -> (r: Vec<u8>)
    ensures
        r@ == not_found_body(),
{
    let r = vec![78u8, 111u8, 116u8, 44u8, 32u8, 102u8, 111u8, 117u8, 110u8, 100u8, 33u8];
    assert(r@ =~= not_found_body());
    r
}

/// The method the routes answer. `GET`
pub open spec fn method_get() -> Seq<u8> {
    seq![71u8, 69u8, 84u8]
}

/// The method the routes answer.
pub fn method_get_bytes() -> (r: Vec<u8>)
    ensures
        r@ == method_get(),
{
    let r = vec![71u8, 69u8, 84u8];
    assert(r@ =~= method_get());
    r
}

/// The path of the plain-text route. `/plaintext`
pub open spec fn path_plaintext() -> Seq<u8> {
    seq![47u8, 112u8, 108u8, 97u8, 105u8, 110u8, 116u8, 101u8, 120u8, 116u8]
}

/// The path of the plain-text route.
pub fn path_plaintext_bytes() -> (r: Vec<u8>)
    ensures
        r@ == path_plaintext(),
{
    let r = vec![47u8, 112u8, 108u8, 97u8, 105u8, 110u8, 116u8, 101u8, 120u8, 116u8];
    assert(r@ =~= path_plaintext());
    r
}

/// The path of the JSON route. `/json`
pub open spec fn path_json() -> Seq<u8> {
    seq![47u8, 106u8, 115u8, 111u8, 110u8]
}

/// The path of the JSON route.
pub fn path_json_bytes() -> (r: Vec<u8>)
    ensures
        r@ == path_json(),
{
    let r = vec![47u8, 106u8, 115u8, 111u8, 110u8];
    assert(r@ =~= path_json());
    r
}

/// The route that answers `method` and `path`.
pub open spec fn route_of(method: Seq<u8>, path: Seq<u8>) -> Route {
    if method == method_get() && path == path_plaintext() {
        Route::Plaintext
    } else if method == method_get() && path == path_json() {
        Route::Json
    } else {
        Route::NotFound
    }
}

/// The body that `route` answers with, given the encoded JSON message.
pub open spec fn body_of(route: Route, json: Seq<u8>) -> Seq<u8> {
    match route {
        Route::Plaintext => plaintext_body(),
        Route::Json => json,
        Route::NotFound => not_found_body(),
    }
}

/// The full response to `method` and `path`: status line, content type, the
/// date line, a two-digit content length, the closing headers and the body.
pub open spec fn response(method: Seq<u8>, path: Seq<u8>, date: Seq<u8>, json: Seq<u8>) -> Seq<u8> {
    let route = route_of(method, path);
    let body = body_of(route, json);
    (if route == Route::NotFound { status_not_found() } else { status_success() }) + (if route
        == Route::Json { content_type_json() } else { content_type_text() }) + date + crlf()
        + content_length() + fixed_digits(body.len(), 2) + crlf() + base_headers() + body
}

/// The responses to the requests `entries` of `buf`, one after the other.
pub open spec fn responses(
    buf: Seq<u8>,
    entries: Seq<RequestRawEntry>,
    date: Seq<u8>,
    json: Seq<u8>,
) -> Seq<u8>
    decreases entries.len(),
{
    if entries.len() == 0 {
        Seq::empty()
    } else {
        let e = entries.last();
        responses(buf, entries.drop_last(), date, json) + response(
            buf.subrange(e.method_start as int, e.method_start + e.method_len),
            buf.subrange(e.path_start as int, e.path_start + e.path_len),
            date,
            json,
        )
    }
}

/// `a` and `b` hold the same bytes.
pub fn bytes_eq(a: &[u8], b: &[u8]) -> (r: bool)
    ensures
        r == (a@ == b@),
{
    if a.len() != b.len() {
        return false;
    }
    let mut i: usize = 0;
    while i < a.len()
        invariant
            i <= a@.len(),
            a@.len() == b@.len(),
            forall|k: int| 0 <= k < i ==> a@[k] == b@[k],
        decreases a@.len() - i,
    {
        if a[i] != b[i] {
            return false;
        }
        i += 1;
    }
    assert(a@ =~= b@);
    true
}

/// The route that answers `method` and `path`.
pub fn route(method: &[u8], path: &[u8]) -> (r: Route)
    ensures
        r == route_of(method@, path@),
{
    let get = method_get_bytes();
    if bytes_eq(method, get.as_slice()) {
        let plain = path_plaintext_bytes();
        if bytes_eq(path, plain.as_slice()) {
            return Route::Plaintext;
        }
        let json = path_json_bytes();
        if bytes_eq(path, json.as_slice()) {
            return Route::Json;
        }
    }
    Route::NotFound
}

/// Appends the response to `method` and `path` to `hot_cache` and returns its length.
pub fn handler(method: &[u8], path: &[u8], date: &[u8], json_body: &[u8], hot_cache: &mut Vec<u8>) -> (r:
    usize)
    requires
        date@.len() == 35,
        json_body@.len() <= MAX_JSON_BODY,
    ensures
        final(hot_cache)@ == old(hot_cache)@ + response(method@, path@, date@, json_body@),
        r == response(method@, path@, date@, json_body@).len(),
        r <= MAX_RESPONSE,
{
    let rt = route(method, path);
    let status = match rt {
        Route::NotFound => status_not_found_bytes(),
        _ => status_success_bytes(),
    };
    let ct = match rt {
        Route::Json => content_type_json_bytes(),
        _ => content_type_text_bytes(),
    };
    let plain = plaintext_body_bytes();
    let missing = not_found_body_bytes();
    let body: &[u8] = match rt {
        Route::Plaintext => plain.as_slice(),
        Route::Json => json_body,
        Route::NotFound => missing.as_slice(),
    };
    let len_digits = fixed_decimal(body.len(), 2);
    let nl = crlf_bytes();
    let cl = content_length_bytes();
    let base = base_headers_bytes();
    let start = hot_cache.len();
    extend_bytes(hot_cache, status.as_slice());
    extend_bytes(hot_cache, ct.as_slice());
    extend_bytes(hot_cache, date);
    extend_bytes(hot_cache, nl.as_slice());
    extend_bytes(hot_cache, cl.as_slice());
    extend_bytes(hot_cache, len_digits.as_slice());
    extend_bytes(hot_cache, nl.as_slice());
    extend_bytes(hot_cache, base.as_slice());
    extend_bytes(hot_cache, body);
    let ghost resp = response(method@, path@, date@, json_body@);
    assert(hot_cache@ =~= old(hot_cache)@ + resp);
    status.len() + ct.len() + date.len() + nl.len() + cl.len() + len_digits.len() + nl.len()
        + base.len() + body.len()
}

/// Appends to `out` the responses to the requests `entries` of `buf`, and
/// returns how many there were.
pub fn respond_to_entries(
    buf: &[u8],
    entries: &Vec<RequestRawEntry>,
    date: &[u8],
    json_body: &[u8],
    out: &mut Vec<u8>,
)
    requires
        date@.len() == 35,
        json_body@.len() <= MAX_JSON_BODY,
        forall|k: int| 0 <= k < entries@.len() ==> entry_in_bounds(#[trigger] entries@[k], buf@.len()),
        old(out)@.len() + entries@.len() * MAX_RESPONSE <= usize::MAX,
    ensures
        final(out)@ == old(out)@ + responses(buf@, entries@, date@, json_body@),
        final(out)@.len() <= old(out)@.len() + entries@.len() * MAX_RESPONSE,
{
    let ghost base = old(out)@.len();
    let mut k: usize = 0;
    while k < entries.len()
        invariant
            k <= entries@.len(),
            base == old(out)@.len(),
            base + entries@.len() * MAX_RESPONSE <= usize::MAX,
            date@.len() == 35,
            json_body@.len() <= MAX_JSON_BODY,
            forall|j: int| 0 <= j < entries@.len() ==> entry_in_bounds(#[trigger] entries@[j], buf@.len()),
            out@ == old(out)@ + responses(buf@, entries@.subrange(0, k as int), date@, json_body@),
            out@.len() <= old(out)@.len() + k * MAX_RESPONSE,
        decreases entries@.len() - k,
    {
        let e = entries[k];
        assert(entry_in_bounds(entries@[k as int], buf@.len()));
        let m = e.method(buf);
        let p = e.path(buf);
        handler(m, p, date, json_body, out);
        k += 1;
        assert(entries@.subrange(0, k as int).drop_last() =~= entries@.subrange(0, k - 1));
        assert(out@ =~= old(out)@ + responses(buf@, entries@.subrange(0, k as int), date@, json_body@));
        assert(out@.len() <= base + k * MAX_RESPONSE) by (nonlinear_arith)
            requires
                out@.len() <= base + (k - 1) * MAX_RESPONSE + MAX_RESPONSE,
        ;
    }
    assert(entries@.subrange(0, k as int) =~= entries@);
}

/// The responses to every request line found in `buf` with at most `max`
/// candidate starts, one after the other.
pub fn respond_to_requests(buf: &[u8], max: usize, date: &[u8], json_body: &[u8]) -> (r: Vec<u8>)
    requires
        date@.len() == 35,
        json_body@.len() <= MAX_JSON_BODY,
        max * MAX_RESPONSE <= usize::MAX,
    ensures
        r@ == responses(buf@, requests(buf@, max as nat), date@, json_body@),
        r@.len() <= max * MAX_RESPONSE,
{
    let entries = parse_http_methods_paths(buf, max);
    let mut out: Vec<u8> = Vec::new();
    assert(entries@.len() * MAX_RESPONSE <= max * MAX_RESPONSE) by (nonlinear_arith)
        requires
            entries@.len() <= max,
    ;
    respond_to_entries(buf, &entries, date, json_body, &mut out);
    assert(out@ =~= responses(buf@, entries@, date@, json_body@));
    out
}

} // verus!
