use tachyon::http::{
    find_request_starts_avx2, parse_http_methods_paths, parse_one_manual,
    unreliable_parse_http_methods_paths,
};
use tachyon::shift::{shift_safe, shift_ub};
use tachyon::trim::{l_trim256, r_trim256};

fn parts(buf: &[u8], max: usize) -> Vec<(Vec<u8>, Vec<u8>)> {
    parse_http_methods_paths(buf, max)
        .iter()
        .map(|e| (e.method(buf).to_vec(), e.path(buf).to_vec()))
        .collect()
}

#[test]
fn extract_single_request() {
    let buf = b"GET /plaintext HTTP/1.1\r\nHost: x\r\n\r\n";
    assert_eq!(parts(buf, 50), vec![(b"GET".to_vec(), b"/plaintext".to_vec())]);
}

#[test]
fn extract_short_request_at_end() {
    let buf = b"GET /nope HTTP/1.1\r\n\r\n";
    assert_eq!(parts(buf, 50), vec![(b"GET".to_vec(), b"/nope".to_vec())]);
}

#[test]
fn extract_post_and_pipelined() {
    let buf = b"POST /a HTTP/1.1\r\n\r\nGET /json HTTP/1.1\r\n\r\n";
    assert_eq!(
        parts(buf, 50),
        vec![(b"POST".to_vec(), b"/a".to_vec()), (b"GET".to_vec(), b"/json".to_vec())]
    );
    assert_eq!(parts(buf, 1), vec![(b"POST".to_vec(), b"/a".to_vec())]);
}

#[test]
fn extract_skips_truncated_request() {
    let buf = b"GET /plaintext HTTP/1.1\r\n\r\nGET /plai";
    assert_eq!(parts(buf, 50), vec![(b"GET".to_vec(), b"/plaintext".to_vec())]);
    assert_eq!(parts(b"", 50), vec![]);
    assert_eq!(parts(b"GET  /x HTTP/1.1\r\n\r\n", 50), vec![]);
}

#[test]
fn extract_candidate_starts() {
    let buf = b"xxGETyyPOSzzGE";
    assert_eq!(find_request_starts_avx2(buf, 10), vec![2, 7]);
    assert_eq!(find_request_starts_avx2(buf, 1), vec![2]);
    assert_eq!(find_request_starts_avx2(buf, 0), Vec::<usize>::new());
}

#[test]
fn extract_one_line() {
    let buf = b"GET /p HTTP/1.1\r\n";
    let e = parse_one_manual(buf, 0).unwrap();
    assert_eq!((e.method_start, e.method_len, e.path_start, e.path_len), (0, 3, 4, 2));
    assert!(parse_one_manual(b"GET", 0).is_none());
}

#[test]
fn extract_never_leaves_the_buffer() {
    let mut seed: u64 = 0x9E37_79B9_7F4A_7C15;
    let alphabet = b"GETPOS /\r\nHTxy1";
    for round in 0..300 {
        let len = (round * 7) % 200;
        let mut buf = Vec::with_capacity(len);
        for _ in 0..len {
            seed ^= seed << 13;
            seed ^= seed >> 7;
            seed ^= seed << 17;
            buf.push(alphabet[(seed % alphabet.len() as u64) as usize]);
        }
        for e in parse_http_methods_paths(&buf, 50) {
            assert!(e.method_len > 0 && e.path_len > 0);
            assert!(e.method_start == 0 || &buf[e.method_start - 4..e.method_start] == b"\r\n\r\n");
            assert!(e.method_start + e.method_len as usize <= buf.len());
            assert!(e.path_start + e.path_len as usize <= buf.len());
        }
        for e in unreliable_parse_http_methods_paths(&buf, 50) {
            assert!(e.method_len > 0 && e.path_len > 0);
            assert!(e.method_start + e.method_len as usize <= buf.len());
            assert!(e.path_start + e.path_len as usize <= buf.len());
        }
    }
}

#[test]
fn trims() {
    assert_eq!(l_trim256(b"\0\0ab\0"), b"ab\0");
    assert_eq!(r_trim256(b"\0ab\0\0"), b"\0ab");
    assert_eq!(l_trim256(&[0u8; 70]), &[] as &[u8]);
    assert_eq!(r_trim256(&[0u8; 70]), &[] as &[u8]);
}

#[test]
fn shifts() {
    let mut buf = *b"abcXXXXX";
    shift_safe(&mut buf, 3);
    assert_eq!(&buf, b"\0\0\0XXabc");
    let mut whole = *b"abcd";
    shift_safe(&mut whole, 4);
    assert_eq!(&whole, b"abcd");
    assert_eq!(shift_ub(b"abcdef", 2, 5), b"\0\0\0ab".to_vec());
}

#[test]
fn extract_ignores_trailing_line_without_crlf() {
    assert_eq!(parts(b"GET /a ", 50), vec![]);
    assert_eq!(parts(b"GET /a HTTP/1.1", 50), vec![]);
    assert_eq!(parts(b"GET /a HTTP/1.1\r\n", 50), vec![]);
    let buf = b"GET /plaintext HTTP/1.1\r\n\r\nGET /a ";
    assert_eq!(parts(buf, 50), vec![(b"GET".to_vec(), b"/plaintext".to_vec())]);
}

#[test]
fn extract_ignores_header_without_blank_line() {
    assert_eq!(parts(b"GET /plaintext HTTP/1.1\r\nHost: x\r\n", 50), vec![]);
}

#[test]
fn extract_reads_only_request_lines() {
    let buf = b"GET /aGETx HTTP/1.1\r\nHost: x\r\n\r\n";
    assert_eq!(parts(buf, 50), vec![(b"GET".to_vec(), b"/aGETx".to_vec())]);
}

#[test]
fn extract_long_path_and_other_method() {
    let buf = b"DELETE /item/7 HTTP/1.1\r\nHost: x\r\n\r\nGET /json HTTP/1.1\r\n\r\n";
    assert_eq!(
        parts(buf, 50),
        vec![(b"DELETE".to_vec(), b"/item/7".to_vec()), (b"GET".to_vec(), b"/json".to_vec())]
    );
}

#[test]
fn fast_extractor_reads_candidates() {
    let buf = b"\0\0GET /a HTTP/1.1\r\n";
    let found: Vec<(Vec<u8>, Vec<u8>)> = unreliable_parse_http_methods_paths(buf, 50)
        .iter()
        .map(|e| (e.method(buf).to_vec(), e.path(buf).to_vec()))
        .collect();
    assert_eq!(found, vec![(b"GET".to_vec(), b"/a".to_vec())]);
    assert!(unreliable_parse_http_methods_paths(b"GET /a ", 50).is_empty());
}
