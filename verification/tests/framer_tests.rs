use dota::framer::parse_header_fields;
use dota::framer::get_content_length_from_headers;
use dota::framer::try_frame;
use dota::framer::assemble_request;
use dota::framer::FrameError;
use dota::framer::FrameProgress;
use dota::framer::FrameStatus;
use dota::framer::RequestFramer;
use dota::lifecycle::ack_response;

const SAMPLE_HEADERS: &[u8] = b"POST / HTTP/1.1\r\nuser-agent: Valve/Steam HTTP Client 1.0 (570)\r\nContent-Type: application/json\r\nHost: 127.0.0.1:3000\r\nAccept: text/html,*/*;q=0.9\r\naccept-encoding: gzip,identity,*;q=0\r\naccept-charset: ISO-8859-1,utf-8,*;q=0.7\r\nContent-Length: 54943\r\n\r\n";

fn header_region(request: &[u8]) -> Vec<u8> {
    // The region is everything before the terminating blank line.
    let pos = request
        .windows(4)
        .position(|w| w == b"\r\n\r\n")
        .expect("request has no header terminator");
    request[..pos].to_vec()
}

#[test]
fn test_get_content_length_from_headers() {
    let region = header_region(SAMPLE_HEADERS);
    let headers = parse_header_fields(&region).expect("parsing the request should never fail");

    let expected = 54943 as usize;
    let content_length =
        get_content_length_from_headers(&headers).expect("failed to get Content-Length");

    assert_eq!(content_length, expected);
}

#[test]
fn test_get_content_length_from_headers_not_found() {
    let request = b"POST / HTTP/1.1\r\nuser-agent: Valve/Steam HTTP Client 1.0 (570)\r\nContent-Type: application/json\r\nHost: 127.0.0.1:3000\r\nAccept: text/html,*/*;q=0.9\r\naccept-encoding: gzip,identity,*;q=0\r\naccept-charset: ISO-8859-1,utf-8,*;q=0.7\r\n\r\n";
    let region = header_region(request);
    let headers = parse_header_fields(&region).expect("parsing the request should never fail");

    let content_length = get_content_length_from_headers(&headers);

    assert!(matches!(content_length, Err(FrameError::MissingContentLength)));
}

#[test]
fn test_get_content_length_from_headers_not_a_number() {
    let request = b"POST / HTTP/1.1\r\nuser-agent: Valve/Steam HTTP Client 1.0 (570)\r\nContent-Type: application/json\r\nHost: 127.0.0.1:3000\r\nAccept: text/html,*/*;q=0.9\r\naccept-encoding: gzip,identity,*;q=0\r\naccept-charset: ISO-8859-1,utf-8,*;q=0.7\r\nContent-Length: asdasd\r\n\r\n";
    let region = header_region(request);
    let headers = parse_header_fields(&region).expect("parsing the request should never fail");

    let content_length = get_content_length_from_headers(&headers);

    assert!(matches!(content_length, Err(FrameError::InvalidContentLength)));
}

fn sample_request() -> (Vec<u8>, Vec<u8>) {
    let body: &[u8] = b"{\n\t\"provider\": {\n\t\t\"name\": \"Dota 2\",\n\t\t\"appid\": 570,\n\t\t\"version\": 47,\n\t\t\"timestamp\": 1688514013\n\t},\n\t\"player\": {\n\n\t},\n\t\"draft\": {\n\n\t},\n\t\"auth\": {\n\t\t\"token\": \"hello1234\"\n\t}\n}";
    let mut request = format!(
        "POST / HTTP/1.1\r\nuser-agent: Valve/Steam HTTP Client 1.0 (570)\r\nContent-Type: application/json\r\nHost: 127.0.0.1:3000\r\nAccept: text/html,*/*;q=0.9\r\naccept-encoding: gzip,identity,*;q=0\r\naccept-charset: ISO-8859-1,utf-8,*;q=0.7\r\nContent-Length: {}\r\n\r\n",
        body.len()
    )
    .into_bytes();
    request.extend_from_slice(body);
    (request, body.to_vec())
}

#[test]
fn test_frame_whole_request() {
    let (request, body) = sample_request();
    assert_eq!(body.len(), 173);

    let status = try_frame(&request).expect("framing failed");
    match status {
        FrameStatus::BodyComplete { header_len, content_length } => {
            assert_eq!(content_length, 173);
            assert_eq!(header_len + content_length, request.len());
        }
        other => panic!("expected a complete body, got {:?}", other),
    }

    let mut framer = RequestFramer::new();
    match framer.feed(request.clone()).expect("framing failed") {
        FrameProgress::Done(payload) => {
            assert_eq!(payload.len(), body.len());
            assert_eq!(payload, body);
        }
        FrameProgress::NeedMore => panic!("expected the request to be complete"),
    }
}

#[test]
fn test_streaming_equivalence_across_splits() {
    // The same request split across 1, 2 and many reads yields the same
    // payload.
    let (request, body) = sample_request();

    let whole: Vec<Vec<u8>> = vec![request.clone()];
    let halves: Vec<Vec<u8>> = vec![
        request[..97].to_vec(),
        request[97..].to_vec(),
    ];
    let mut tiny: Vec<Vec<u8>> = Vec::new();
    for chunk in request.chunks(7) {
        tiny.push(chunk.to_vec());
    }

    let p1 = assemble_request(&whole).expect("framing failed").expect("incomplete");
    let p2 = assemble_request(&halves).expect("framing failed").expect("incomplete");
    let p3 = assemble_request(&tiny).expect("framing failed").expect("incomplete");

    assert_eq!(p1, body);
    assert_eq!(p2, body);
    assert_eq!(p3, body);
}

#[test]
fn test_incremental_feed() {
    let (request, body) = sample_request();
    let mut framer = RequestFramer::new();

    // Header block alone: parsed, but the body is still missing.
    let split = request.len() - body.len();
    match framer.feed(request[..split + 10].to_vec()).expect("framing failed") {
        FrameProgress::NeedMore => {}
        FrameProgress::Done(_) => panic!("the body is not complete yet"),
    }
    match framer.feed(request[split + 10..].to_vec()).expect("framing failed") {
        FrameProgress::Done(payload) => assert_eq!(payload, body),
        FrameProgress::NeedMore => panic!("the request is complete"),
    }
}

#[test]
fn test_await_headers_on_partial_block() {
    let status = try_frame(&b"POST / HTTP/1.1\r\nContent-Length: 5\r\n".to_vec());
    assert_eq!(status, Ok(FrameStatus::AwaitHeaders));
}

#[test]
fn test_headers_complete_before_body() {
    let status = try_frame(&b"POST / HTTP/1.1\r\nContent-Length: 5\r\n\r\nab".to_vec());
    assert_eq!(
        status,
        Ok(FrameStatus::HeadersComplete { header_len: 38, content_length: 5 })
    );
}

#[test]
fn test_malformed_header_line() {
    let status = try_frame(&b"POST / HTTP/1.1\r\nno colon here\r\nContent-Length: 5\r\n\r\n".to_vec());
    assert_eq!(status, Err(FrameError::MalformedHeaders));
}

#[test]
fn test_missing_content_length_is_fatal() {
    let status = try_frame(&b"POST / HTTP/1.1\r\nHost: 127.0.0.1:3000\r\n\r\n".to_vec());
    assert_eq!(status, Err(FrameError::MissingContentLength));
}

#[test]
fn test_non_numeric_content_length_is_fatal() {
    let status = try_frame(&b"POST / HTTP/1.1\r\nContent-Length: abc\r\n\r\n".to_vec());
    assert_eq!(status, Err(FrameError::InvalidContentLength));

    let empty = try_frame(&b"POST / HTTP/1.1\r\nContent-Length: \r\n\r\n".to_vec());
    assert_eq!(empty, Err(FrameError::InvalidContentLength));
}

#[test]
fn test_oversized_content_length_is_fatal() {
    let status = try_frame(
        &b"POST / HTTP/1.1\r\nContent-Length: 99999999999999999999999999\r\n\r\n".to_vec(),
    );
    assert_eq!(status, Err(FrameError::InvalidContentLength));
}

#[test]
fn test_first_content_length_header_wins() {
    let request = b"POST / HTTP/1.1\r\nContent-Length: 2\r\nContent-Length: 9\r\n\r\nhi".to_vec();
    match try_frame(&request) {
        Ok(FrameStatus::BodyComplete { content_length, .. }) => assert_eq!(content_length, 2),
        other => panic!("expected a complete body, got {:?}", other),
    }
}

#[test]
fn test_header_value_leading_spaces_stripped() {
    let request = b"POST / HTTP/1.1\r\nContent-Length:    3\r\n\r\nabc".to_vec();
    match try_frame(&request) {
        Ok(FrameStatus::BodyComplete { content_length, .. }) => assert_eq!(content_length, 3),
        other => panic!("expected a complete body, got {:?}", other),
    }
}

#[test]
fn test_ack_response_bytes() {
    assert_eq!(ack_response(), "HTTP/1.1 200 OK\ncontent-type: text/html\n");
}
