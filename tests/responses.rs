use tachyon::nano_clock::{howard_hinnant, nano_clock};
use tachyon::response::{handler, respond_to_requests, route, Route};

const JSON: &[u8] = b"{\"message\":\"Hello, World!\"}";

fn date() -> Vec<u8> {
    nano_clock(784_111_777)
}

fn split_responses(bytes: &[u8]) -> Vec<(String, String)> {
    let text = String::from_utf8(bytes.to_vec()).unwrap();
    let mut out = Vec::new();
    let mut rest = text.as_str();
    while let Some(end) = rest.find("\r\n\r\n") {
        let head = &rest[..end];
        let len: usize = head
            .lines()
            .find_map(|l| l.strip_prefix("Content-Length: "))
            .unwrap()
            .trim()
            .parse()
            .unwrap();
        let body = &rest[end + 4..end + 4 + len];
        out.push((head.to_string(), body.to_string()));
        rest = &rest[end + 4 + len..];
    }
    assert!(rest.is_empty());
    out
}

#[test]
fn date_line_of_known_instant() {
    assert_eq!(date(), b"Date: Sun, 06 Nov 1994 08:49:37 GMT".to_vec());
    assert_eq!(nano_clock(0), b"Date: Thu, 01 Jan 1970 00:00:00 GMT".to_vec());
}

#[test]
fn civil_dates() {
    assert_eq!(howard_hinnant(0), (1970, 1, 1, 0, 0, 0, 4));
    assert_eq!(howard_hinnant(784_111_777), (1994, 11, 6, 8, 49, 37, 0));
    assert_eq!(howard_hinnant(951_782_400), (2000, 2, 29, 0, 0, 0, 2));
    assert_eq!(howard_hinnant(1_760_000_000), (2025, 10, 9, 8, 53, 20, 4));
}

#[test]
fn routes() {
    assert_eq!(route(b"GET", b"/plaintext"), Route::Plaintext);
    assert_eq!(route(b"GET", b"/json"), Route::Json);
    assert_eq!(route(b"POST", b"/json"), Route::NotFound);
    assert_eq!(route(b"GET", b"/nope"), Route::NotFound);
}

#[test]
fn handler_writes_whole_response() {
    let mut cache = b"prefix".to_vec();
    let n = handler(b"GET", b"/plaintext", &date(), JSON, &mut cache);
    let expected = b"HTTP/1.1 200 OK\r\nContent-Type: text/plain; charset=utf-8\r\nDate: Sun, 06 Nov 1994 08:49:37 GMT\r\nContent-Length: 13\r\nServer: Tachyon\r\nConnection: keep-alive\r\nKeep-Alive: timeout=5, max=1000\r\n\r\nHello, World!";
    assert_eq!(n, expected.len());
    assert_eq!(&cache[..6], b"prefix");
    assert_eq!(&cache[6..], &expected[..]);
}

#[test]
fn single_plaintext_request() {
    let out = respond_to_requests(b"GET /plaintext HTTP/1.1\r\nHost: x\r\n\r\n", 50, &date(), JSON);
    let resp = split_responses(&out);
    assert_eq!(resp.len(), 1);
    assert!(resp[0].0.starts_with("HTTP/1.1 200 OK\r\n"));
    assert!(resp[0].0.contains("Content-Length: 13"));
    assert_eq!(resp[0].1, "Hello, World!");
}

#[test]
fn pipelined_plaintext_batch() {
    let one = b"GET /plaintext HTTP/1.1\r\nHost: x\r\n\r\n";
    let mut buf = Vec::new();
    for _ in 0..40 {
        buf.extend_from_slice(one);
    }
    let out = respond_to_requests(&buf, 50, &date(), JSON);
    let resp = split_responses(&out);
    assert_eq!(resp.len(), 40);
    let mut bodies = String::new();
    for (head, body) in &resp {
        assert!(head.starts_with("HTTP/1.1 200 OK\r\n"));
        bodies.push_str(body);
    }
    assert_eq!(bodies, "Hello, World!".repeat(40));
}

#[test]
fn unknown_path_is_not_found() {
    let out = respond_to_requests(b"GET /nope HTTP/1.1\r\n\r\n", 50, &date(), JSON);
    let resp = split_responses(&out);
    assert_eq!(resp.len(), 1);
    assert!(resp[0].0.starts_with("HTTP/1.1 404 Not Found\r\n"));
    assert!(resp[0].0.contains("Content-Type: text/plain; charset=utf-8"));
    assert!(resp[0].0.contains("Connection: keep-alive"));
    assert_eq!(resp[0].1, "Not, found!");
}

#[test]
fn json_route() {
    let out = respond_to_requests(b"GET /json HTTP/1.1\r\n\r\n", 50, &date(), JSON);
    let resp = split_responses(&out);
    assert_eq!(resp.len(), 1);
    assert!(resp[0].0.starts_with("HTTP/1.1 200 OK\r\n"));
    assert!(resp[0].0.contains("Content-Type: application/json; charset=utf-8"));
    assert_eq!(resp[0].1.as_bytes(), JSON);
}
