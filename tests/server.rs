use may_http::{
    encode, http_date, internal_error_rsp, reply_bytes, response_for, service_error_rsp, Decoded, HttpDate, RequestReader, Response,
    ResponseSequencer,
};

const R1: &str = "GET /one HTTP/1.1\r\nHost: a\r\n\r\n";
const R2: &str = "GET /two HTTP/1.1\r\nHost: a\r\n\r\n";

fn expect_request(d: Decoded) -> Vec<u8> {
    match d {
        Decoded::Request(req) => req.frame().to_vec(),
        Decoded::Incomplete => panic!("incomplete"),
        Decoded::Invalid => panic!("invalid"),
    }
}

#[test]
fn pipelined_responses_leave_in_arrival_order() {
    let mut seq = ResponseSequencer::new();
    let t1 = seq.next_ticket().unwrap();
    let t2 = seq.next_ticket().unwrap();
    let t3 = seq.next_ticket().unwrap();
    assert_eq!((t1, t2, t3), (0, 1, 2));
    let mut wire: Vec<u8> = Vec::new();
    // handler(R2) finishes first, then R3, then R1
    let out = seq.complete(t2, b"response-2".to_vec()).unwrap();
    assert!(out.is_empty());
    let out = seq.complete(t3, b"response-3".to_vec()).unwrap();
    assert!(out.is_empty());
    let out = seq.complete(t1, b"response-1".to_vec()).unwrap();
    assert_eq!(out.len(), 3);
    for r in out {
        wire.extend_from_slice(&r);
    }
    assert_eq!(wire, b"response-1response-2response-3".to_vec());
}

#[test]
fn in_order_completion_is_released_at_once() {
    let mut seq = ResponseSequencer::new();
    let t1 = seq.next_ticket().unwrap();
    let t2 = seq.next_ticket().unwrap();
    assert_eq!(seq.complete(t1, b"a".to_vec()).unwrap(), vec![b"a".to_vec()]);
    assert_eq!(seq.complete(t2, b"bc".to_vec()).unwrap(), vec![b"bc".to_vec()]);
}

#[test]
fn responses_are_released_whole() {
    let mut seq = ResponseSequencer::new();
    let t1 = seq.next_ticket().unwrap();
    let t2 = seq.next_ticket().unwrap();
    let long = vec![7u8; 10000];
    assert!(seq.complete(t2, long.clone()).unwrap().is_empty());
    let out = seq.complete(t1, vec![1u8, 2, 3]).unwrap();
    assert_eq!(out, vec![vec![1u8, 2, 3], long]);
}

#[test]
fn unknown_or_repeated_ticket_is_refused() {
    let mut seq = ResponseSequencer::new();
    assert!(seq.complete(0, b"x".to_vec()).is_none());
    let t1 = seq.next_ticket().unwrap();
    let t2 = seq.next_ticket().unwrap();
    assert!(seq.is_awaiting(t2));
    assert!(seq.complete(t2, b"y".to_vec()).unwrap().is_empty());
    assert!(!seq.is_awaiting(t2));
    assert!(seq.complete(t2, b"z".to_vec()).is_none());
    assert_eq!(seq.complete(t1, b"x".to_vec()).unwrap(), vec![b"x".to_vec(), b"y".to_vec()]);
    assert!(seq.complete(t1, b"x".to_vec()).is_none());
    assert!(!seq.is_awaiting(5));
}

#[test]
fn sequential_two_requests_in_one_read() {
    let mut reader = RequestReader::sequential();
    let mut data = R1.as_bytes().to_vec();
    data.extend_from_slice(R2.as_bytes());
    assert!(reader.feed(&data));
    assert_eq!(expect_request(reader.decode()), R1.as_bytes().to_vec());
    assert_eq!(reader.pending_len(), R2.len());
    assert_eq!(expect_request(reader.decode()), R2.as_bytes().to_vec());
    assert_eq!(reader.pending_len(), 0);
    assert!(matches!(reader.decode(), Decoded::Incomplete));
}

#[test]
fn request_split_into_single_bytes_is_decoded() {
    let mut reader = RequestReader::pipelined();
    let bytes = R1.as_bytes();
    for (i, b) in bytes.iter().enumerate() {
        assert!(matches!(reader.decode(), Decoded::Incomplete), "byte {}", i);
        assert!(reader.feed(&[*b]));
    }
    assert_eq!(expect_request(reader.decode()), bytes.to_vec());
    assert_eq!(reader.pending_len(), 0);
}

#[test]
fn buffer_grows_when_room_runs_low() {
    let mut reader = RequestReader::new(8, 4, 64);
    assert!(reader.feed(b"GET /x"));
    assert!(matches!(reader.decode(), Decoded::Incomplete));
    assert!(reader.spare_capacity() >= 64);
    assert_eq!(reader.pending_len(), 6);
}

#[test]
fn empty_read_closes_without_change() {
    let mut reader = RequestReader::sequential();
    assert!(reader.feed(b"GET /"));
    assert!(!reader.feed(&[]));
    assert_eq!(reader.pending_len(), 5);
}

#[test]
fn malformed_request_is_invalid() {
    let mut reader = RequestReader::sequential();
    assert!(reader.feed(b"\x01\x02 nonsense\r\n\r\n"));
    assert!(matches!(reader.decode(), Decoded::Invalid));
    assert_eq!(reader.pending_len(), 15);
}

#[test]
fn handler_failure_becomes_internal_error_and_connection_goes_on() {
    let mut reader = RequestReader::sequential();
    let mut data = R1.as_bytes().to_vec();
    data.extend_from_slice(R2.as_bytes());
    assert!(reader.feed(&data));
    let _first = expect_request(reader.decode());
    let failed: std::io::Result<Response> =
        Err(std::io::Error::new(std::io::ErrorKind::Other, "handler broke"));
    let rsp = response_for(failed);
    assert_eq!(rsp.code, 500);
    assert_eq!(rsp.reason, "Internal Server Error");
    assert_eq!(rsp.body, "handler broke");
    assert_eq!(expect_request(reader.decode()), R2.as_bytes().to_vec());
}

#[test]
fn handler_success_is_passed_through() {
    let mut ok = Response::new();
    ok.status_code(201, "Created");
    ok.body("made");
    let rsp = response_for(Ok(ok));
    assert_eq!(rsp.code, 201);
    assert_eq!(rsp.reason, "Created");
    assert_eq!(rsp.body, "made");
}

#[test]
fn internal_error_carries_description() {
    let rsp = internal_error_rsp(std::io::Error::new(std::io::ErrorKind::Other, "disk full"));
    assert_eq!(rsp.code, 500);
    assert_eq!(rsp.reason, "Internal Server Error");
    assert_eq!(rsp.body, "disk full");
    let rsp = service_error_rsp("x");
    assert_eq!((rsp.code, rsp.body.as_str()), (500, "x"));
}

#[test]
fn new_response_is_empty_ok() {
    let rsp = Response::new();
    assert_eq!(rsp.code, 200);
    assert_eq!(rsp.reason, "OK");
    assert_eq!(rsp.body, "");
}

#[test]
fn encode_lays_out_status_headers_and_body() {
    let mut rsp = Response::new();
    rsp.status_code(404, "Not Found");
    rsp.header("Content-Type", "text/plain");
    rsp.body("nothing here");
    let mut out: Vec<u8> = b"prefix|".to_vec();
    encode(&rsp, b"Sun, 18 Oct 2026 10:00:00 GMT", &mut out);
    let expected = "prefix|HTTP/1.1 404 Not Found\r\nServer: may_http\r\nContent-Length: 12\r\nDate: Sun, 18 Oct 2026 10:00:00 GMT\r\nContent-Type: text/plain\r\n\r\nnothing here";
    assert_eq!(String::from_utf8(out).unwrap(), expected);
}

#[test]
fn encode_counts_body_bytes_not_chars() {
    let mut rsp = Response::new();
    rsp.body("h\u{e9}");
    let mut out: Vec<u8> = Vec::new();
    encode(&rsp, b"d", &mut out);
    let expected = "HTTP/1.1 200 OK\r\nServer: may_http\r\nContent-Length: 3\r\nDate: d\r\n\r\nh\u{e9}";
    assert_eq!(String::from_utf8(out).unwrap(), expected);
}

#[test]
fn internal_error_response_encodes_as_500() {
    let rsp = service_error_rsp("boom");
    let mut out: Vec<u8> = Vec::new();
    encode(&rsp, b"d", &mut out);
    let expected = "HTTP/1.1 500 Internal Server Error\r\nServer: may_http\r\nContent-Length: 4\r\nDate: d\r\n\r\nboom";
    assert_eq!(String::from_utf8(out).unwrap(), expected);
}

#[test]
fn http_date_is_fixed_width() {
    let d = HttpDate { weekday: 6, day: 6, month: 11, year: 1994, hour: 8, minute: 49, second: 37 };
    assert_eq!(String::from_utf8(http_date(&d)).unwrap(), "Sun, 06 Nov 1994 08:49:37 GMT");
    let d = HttpDate { weekday: 0, day: 31, month: 1, year: 7, hour: 23, minute: 0, second: 5 };
    assert_eq!(String::from_utf8(http_date(&d)).unwrap(), "Mon, 31 Jan 0007 23:00:05 GMT");
}

#[test]
fn http_date_names_every_month_and_day() {
    let months = ["Jan", "Feb", "Mar", "Apr", "May", "Jun", "Jul", "Aug", "Sep", "Oct", "Nov", "Dec"];
    let days = ["Mon", "Tue", "Wed", "Thu", "Fri", "Sat", "Sun"];
    for (i, m) in months.iter().enumerate() {
        let d = HttpDate {
            weekday: (i % 7) as u8,
            day: 1,
            month: (i + 1) as u8,
            year: 2026,
            hour: 0,
            minute: 0,
            second: 0,
        };
        let text = String::from_utf8(http_date(&d)).unwrap();
        assert_eq!(text, format!("{}, 01 {} 2026 00:00:00 GMT", days[i % 7], m));
    }
}

fn permutations(items: Vec<u64>) -> Vec<Vec<u64>> {
    if items.len() <= 1 {
        return vec![items];
    }
    let mut all = Vec::new();
    for i in 0..items.len() {
        let mut rest = items.clone();
        let first = rest.remove(i);
        for mut p in permutations(rest) {
            p.insert(0, first);
            all.push(p);
        }
    }
    all
}

#[test]
fn every_completion_order_gives_arrival_order() {
    for order in permutations(vec![0, 1, 2, 3]) {
        let mut seq = ResponseSequencer::new();
        for expected in 0..4u64 {
            assert_eq!(seq.next_ticket(), Some(expected));
        }
        let mut wire: Vec<u8> = Vec::new();
        for t in order.iter() {
            let body = format!("<{}>", t).into_bytes();
            for piece in seq.complete(*t, body).unwrap() {
                wire.extend_from_slice(&piece);
            }
        }
        assert_eq!(wire, b"<0><1><2><3>".to_vec(), "order {:?}", order);
    }
}

#[test]
fn reply_bytes_encodes_handler_result() {
    let mut ok = Response::new();
    ok.body("hi");
    let bytes = reply_bytes(Ok(ok), b"d");
    assert_eq!(
        String::from_utf8(bytes).unwrap(),
        "HTTP/1.1 200 OK\r\nServer: may_http\r\nContent-Length: 2\r\nDate: d\r\n\r\nhi"
    );
    let failed = Err(std::io::Error::new(std::io::ErrorKind::Other, "bad"));
    let bytes = reply_bytes(failed, b"d");
    assert_eq!(
        String::from_utf8(bytes).unwrap(),
        "HTTP/1.1 500 Internal Server Error\r\nServer: may_http\r\nContent-Length: 3\r\nDate: d\r\n\r\nbad"
    );
}
