use webserver::http::{
    encode_response, parse_request, split_keyval, DecodeError, Method, Response,
};

fn header(key: &str, value: &str) -> (String, String) {
    (key.to_string(), value.to_string())
}

#[test]
fn decodes_a_well_formed_request() {
    let raw = "POST /submit HTTP/1.1\nHost: localhost\nAccept: */*\n\nname=value";
    let request = parse_request(raw).unwrap();
    assert_eq!(request.method, Method::Post);
    assert_eq!(request.path, "/submit");
    assert_eq!(request.headers, vec![header("Host", "localhost"), header("Accept", "*/*")]);
    assert_eq!(request.body, b"\nname=value".to_vec());
}

#[test]
fn decodes_a_request_without_headers_or_body() {
    let request = parse_request("GET / HTTP/1.1").unwrap();
    assert_eq!(request.method, Method::Get);
    assert_eq!(request.path, "/");
    assert!(request.headers.is_empty());
    assert!(request.body.is_empty());
}

#[test]
fn the_protocol_version_may_be_left_out() {
    let request = parse_request("HEAD /page").unwrap();
    assert_eq!(request.method, Method::Head);
    assert_eq!(request.path, "/page");
}

#[test]
fn an_empty_text_is_an_empty_request() {
    assert_eq!(parse_request("").unwrap_err(), DecodeError::EmptyRequest);
}

#[test]
fn a_single_line_feed_is_one_empty_line() {
    assert_eq!(parse_request("\n").unwrap_err(), DecodeError::MalformedStartLine);
}

#[test]
fn a_start_line_of_one_token_is_malformed() {
    assert_eq!(parse_request("GET").unwrap_err(), DecodeError::MalformedStartLine);
    assert_eq!(parse_request("GET\nHost: x").unwrap_err(), DecodeError::MalformedStartLine);
}

#[test]
fn an_unknown_method_is_malformed() {
    assert_eq!(parse_request("FETCH / HTTP/1.1").unwrap_err(), DecodeError::MalformedStartLine);
    assert_eq!(parse_request("get / HTTP/1.1").unwrap_err(), DecodeError::MalformedStartLine);
    assert_eq!(parse_request(" / HTTP/1.1").unwrap_err(), DecodeError::MalformedStartLine);
}

#[test]
fn a_path_without_a_leading_slash_is_malformed() {
    assert_eq!(parse_request("GET index HTTP/1.1").unwrap_err(), DecodeError::MalformedStartLine);
    assert_eq!(parse_request("GET  HTTP/1.1").unwrap_err(), DecodeError::MalformedStartLine);
}

#[test]
fn every_method_is_decoded() {
    let all = [
        ("GET", Method::Get),
        ("POST", Method::Post),
        ("PUT", Method::Put),
        ("DELETE", Method::Delete),
        ("HEAD", Method::Head),
        ("OPTIONS", Method::Options),
        ("CONNECT", Method::Connect),
        ("PATCH", Method::Patch),
        ("TRACE", Method::Trace),
    ];
    for (name, method) in all {
        let request = parse_request(&format!("{} /x HTTP/1.1", name)).unwrap();
        assert_eq!(request.method, method);
        assert_eq!(method.as_str(), name);
    }
}

#[test]
fn a_header_is_split_at_its_first_colon_and_space() {
    let request = parse_request("GET / HTTP/1.1\nX-Custom: a: b").unwrap();
    assert_eq!(request.headers, vec![header("X-Custom", "a: b")]);
    assert_eq!(split_keyval("X-Custom: a: b"), Ok(header("X-Custom", "a: b")));
}

#[test]
fn a_line_without_colon_and_space_is_no_header() {
    assert_eq!(split_keyval("no header here"), Err(()));
    assert_eq!(split_keyval("key:value"), Err(()));
    assert_eq!(split_keyval(""), Err(()));
    assert_eq!(split_keyval("key: "), Ok(header("key", "")));
    assert_eq!(split_keyval(": value"), Ok(header("", "value")));
}

#[test]
fn the_first_line_that_is_no_header_starts_the_body() {
    let raw = "GET / HTTP/1.1\nA: 1\nnot a header\nB: 2\nlast";
    let request = parse_request(raw).unwrap();
    assert_eq!(request.headers, vec![header("A", "1")]);
    assert_eq!(request.body, b"not a header\nB: 2\nlast".to_vec());
}

#[test]
fn carriage_returns_before_line_feeds_are_dropped() {
    let raw = "GET /a HTTP/1.1\r\nHost: example.org\r\n\r\nfirst\r\nsecond";
    let request = parse_request(raw).unwrap();
    assert_eq!(request.path, "/a");
    assert_eq!(request.headers, vec![header("Host", "example.org")]);
    assert_eq!(request.body, b"\nfirst\nsecond".to_vec());
}

#[test]
fn a_final_line_ending_adds_no_line() {
    let with = parse_request("GET / HTTP/1.1\nA: 1\nbody\n").unwrap();
    let without = parse_request("GET / HTTP/1.1\nA: 1\nbody").unwrap();
    assert_eq!(with.body, without.body);
    assert_eq!(with.body, b"body".to_vec());
}

#[test]
fn a_body_of_several_bytes_per_character_is_kept() {
    let request = parse_request("PUT /n HTTP/1.1\n\nh\u{e9}llo \u{4e16}\u{754c}").unwrap();
    assert_eq!(request.body, "\nh\u{e9}llo \u{4e16}\u{754c}".as_bytes().to_vec());
}

#[test]
fn encodes_status_line_headers_and_body() {
    let response = Response {
        status: 200,
        headers: vec![header("Content-Type", "text/html")],
        body: b"<p>hi</p>".to_vec(),
    };
    assert_eq!(
        encode_response(&response),
        b"HTTP/1.1 200\nContent-Type: text/html\nContent-Length: 9\n\n<p>hi</p>".to_vec()
    );
}

#[test]
fn the_content_length_is_that_of_the_body() {
    let response = Response {
        status: 404,
        headers: vec![
            header("Content-Length", "9999"),
            header("Content-Type", "text/plain"),
            header("content-length", "1"),
            header("CONTENT-LENGTH", "2"),
            header("Content-length", "3"),
            header("Content-Lengths", "kept"),
        ],
        body: b"0123456789ab".to_vec(),
    };
    assert_eq!(
        encode_response(&response),
        b"HTTP/1.1 404\nContent-Type: text/plain\nContent-Lengths: kept\nContent-Length: 12\n\n0123456789ab"
            .to_vec()
    );
}

#[test]
fn an_empty_response_has_a_content_length_of_zero() {
    let response = Response { status: 204, headers: vec![], body: vec![] };
    assert_eq!(encode_response(&response), b"HTTP/1.1 204\nContent-Length: 0\n\n".to_vec());
}

#[test]
fn the_body_goes_out_as_it_is() {
    let body = vec![0u8, 255, 10, 13, 10, 128];
    let response = Response { status: 200, headers: vec![], body: body.clone() };
    let mut expected = b"HTTP/1.1 200\nContent-Length: 6\n\n".to_vec();
    expected.extend_from_slice(&body);
    assert_eq!(encode_response(&response), expected);
}

#[test]
fn header_text_goes_out_in_utf8() {
    let response = Response {
        status: 200,
        headers: vec![header("X-Name", "caf\u{e9}")],
        body: vec![],
    };
    assert_eq!(
        encode_response(&response),
        "HTTP/1.1 200\nX-Name: caf\u{e9}\nContent-Length: 0\n\n".as_bytes().to_vec()
    );
}

#[test]
fn a_long_body_has_its_length_in_decimal() {
    let response = Response { status: 200, headers: vec![], body: vec![b'x'; 12345] };
    let out = encode_response(&response);
    assert!(out.starts_with(b"HTTP/1.1 200\nContent-Length: 12345\n\n"));
    assert_eq!(out.len(), 36 + 12345);
}
