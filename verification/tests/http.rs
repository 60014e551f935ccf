use purple_capture::http::{
    find_header_end, parse_head, parse_usize_text, trimmed_text, HttpError, Method, ReadProgress,
    RequestReader, MAX_REQUEST_BYTES,
};

fn chars(s: &str) -> Vec<char> {
    s.chars().collect()
}

#[test]
fn header_end_is_the_first_blank_line() {
    assert_eq!(find_header_end(b"GET / HTTP/1.1\r\nHost: x\r\n\r\nbody\r\n\r\n"), Some(23));
    assert_eq!(find_header_end(b"GET / HTTP/1.1\r\n"), None);
    assert_eq!(find_header_end(b""), None);
    assert_eq!(find_header_end(b"\r\n\r\n"), Some(0));
}

#[test]
fn head_gives_method_path_without_query_and_length() {
    let head = parse_head(b"POST /api/offer/abc?x=1 HTTP/1.1\r\nContent-Length: 12\r\nHost: a").unwrap();
    assert_eq!(head.method, Method::Post);
    assert_eq!(head.path, "/api/offer/abc");
    assert_eq!(head.content_length, 12);
}

#[test]
fn content_length_name_is_case_insensitive_and_value_trimmed() {
    let head = parse_head(b"POST /x HTTP/1.1\r\ncontent-LENGTH:   7  ").unwrap();
    assert_eq!(head.content_length, 7);
    let head = parse_head(b"GET /x HTTP/1.1\r\nContent-Length: seven").unwrap();
    assert_eq!(head.content_length, 0);
}

#[test]
fn bad_heads_are_refused() {
    assert!(matches!(parse_head(b""), Err(HttpError::NoRequestLine)));
    assert!(matches!(parse_head(b"   \r\nHost: a"), Err(HttpError::NoMethod)));
    assert!(matches!(parse_head(b"GET"), Err(HttpError::NoPath)));
    assert!(matches!(parse_head(b"DELETE /x HTTP/1.1"), Err(HttpError::Malformed)));
    assert!(matches!(parse_head(b"GET x HTTP/1.1"), Err(HttpError::Malformed)));
    assert!(matches!(parse_head(&[0xff, 0xfe]), Err(HttpError::NotUtf8)));
    let big = format!("POST /x HTTP/1.1\r\nContent-Length: {}", MAX_REQUEST_BYTES + 1);
    assert!(matches!(parse_head(big.as_bytes()), Err(HttpError::BodyTooLarge)));
}

#[test]
fn reader_waits_for_the_whole_body() {
    let mut reader = RequestReader::new();
    assert!(matches!(reader.feed(b"POST /api/answer/t HTTP/1.1\r\nContent-"), ReadProgress::NeedMore));
    assert!(matches!(reader.feed(b"Length: 5\r\n\r\nab"), ReadProgress::NeedMore));
    assert_eq!(reader.end_of_stream(), HttpError::BodyTruncated);
    match reader.feed(b"cdeEXTRA") {
        ReadProgress::Done(request) => {
            assert_eq!(request.method, Method::Post);
            assert_eq!(request.path, "/api/answer/t");
            assert_eq!(request.body, b"abcde".to_vec());
        }
        _ => panic!("request not complete"),
    }
}

#[test]
fn reader_finds_a_blank_line_split_across_reads() {
    let mut reader = RequestReader::new();
    assert!(matches!(reader.feed(b"GET /sender.js HTTP/1.1\r\n\r"), ReadProgress::NeedMore));
    assert_eq!(reader.end_of_stream(), HttpError::Truncated);
    match reader.feed(b"\n") {
        ReadProgress::Done(request) => {
            assert_eq!(request.method, Method::Get);
            assert_eq!(request.path, "/sender.js");
            assert!(request.body.is_empty());
        }
        _ => panic!("request not complete"),
    }
}

#[test]
fn reader_reports_an_empty_connection_and_oversized_requests() {
    let reader = RequestReader::new();
    assert_eq!(reader.end_of_stream(), HttpError::EmptyConnection);
    let mut reader = RequestReader::new();
    let chunk = vec![b'a'; MAX_REQUEST_BYTES + 1];
    assert!(matches!(reader.feed(&chunk), ReadProgress::Failed(HttpError::TooLarge)));
    let mut reader = RequestReader::new();
    assert!(matches!(reader.feed(b"PUT / HTTP/1.1\r\n\r\n"), ReadProgress::Failed(HttpError::Malformed)));
}

#[test]
fn numbers_read_as_usize_from_str() {
    assert_eq!(parse_usize_text(&chars("42")), Some(42));
    assert_eq!(parse_usize_text(&chars("+7")), Some(7));
    assert_eq!(parse_usize_text(&chars("")), None);
    assert_eq!(parse_usize_text(&chars("+")), None);
    assert_eq!(parse_usize_text(&chars("-1")), None);
    assert_eq!(parse_usize_text(&chars("1 2")), None);
    assert_eq!(parse_usize_text(&chars("99999999999999999999999")), None);
}

#[test]
fn trimming_removes_outer_white_space_only() {
    assert_eq!(trimmed_text(&chars("  a b \t\r\n")), chars("a b"));
    assert_eq!(trimmed_text(&chars("   ")), chars(""));
}

#[test]
fn every_http_error_has_a_message() {
    assert_eq!(HttpError::EmptyConnection.message(), "共有用ローカル通信がリクエストなしで終了しました。");
    assert_eq!(HttpError::BodyTruncated.message(), "HTTP本文が途中で終了しました。");
}
