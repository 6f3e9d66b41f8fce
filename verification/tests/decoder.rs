use tunnel::headers::{ConnectionState, Header, HeaderFault, MimeType, TrfrEncodingType};
use tunnel::response::decoder::{read_status_line, DataDecoder};
use tunnel::response::model::{DecoderState, Fault};
use tunnel::response::{HttpResErr, Response, ResponseType};

fn decode_all(parts: &[&[u8]]) -> (DataDecoder, Option<Response>) {
    let mut decoder = DataDecoder::new();
    for part in parts {
        decoder.decode(part).unwrap();
    }
    let resp = decoder.get_resp();
    (decoder, resp)
}

#[test]
fn resp_simple() {
    let resp = [
        "HTTP/1.1 201 Created\r\n",
        "Content-Length: 2\r\n",
        "Content-Language: en\r\n",
        "Content-Encoding: none\r\n",
        "Test-Noimplement: Test\r\n",
        "\r\n",
        "AS",
    ]
    .concat();
    let resp = resp.as_bytes();

    let mut decoder = DataDecoder::new();
    decoder.decode(&resp).unwrap();
    let bytes = decoder.get_resp().unwrap();
    println!("{:?}", bytes);
}

#[test]
#[should_panic]
fn resp_simple_panic() {
    let resp = [
        "HTTP/1.1 201 Created\r\n",
        "Content-Length: 200\r\n",
        "Content-Language: en\r\n",
        "Content-Encoding: none\r\n",
        "Test-Noimplement: Test\r\n",
        "\r\n",
        "Versa\r\nilles",
    ]
    .concat();
    let resp = resp.as_bytes();

    let mut decoder = DataDecoder::new();
    decoder.decode(&resp).unwrap();
    let resp = decoder.get_resp().unwrap();

    let text = std::str::from_utf8(resp.content().unwrap()).unwrap();
    assert!(text == "Versa\r\nilles", "invalid string")
}

#[test]
fn resp_simple_frag() {
    let resp = [
        "HTTP/1.1 201 Created\r\n",
        "Content-Length: 5\r\n",
        "Content-Language: en\r\n",
        "Content-Encoding: none\r\n",
        "Test-Noimplement: Test\r\n",
        "\r\n",
        "AB",
    ]
    .concat();
    let resp = resp.as_bytes();

    let resp1 = "CDE".as_bytes();

    let mut decoder = DataDecoder::new();
    decoder.decode(&resp).unwrap();
    decoder.decode(&resp1).unwrap();
    let resp = decoder.get_resp().unwrap();

    let text = std::str::from_utf8(resp.content().unwrap()).unwrap();
    assert!(text == "ABCDE", "invalid string")
}

#[test]
fn resp_simple_broken_up() {}

#[test]
fn resp_chunked_full() {
    let resp = [
        "HTTP/1.1 201 Created\r\n",
        "Content-Language: en\r\n",
        "Content-Encoding: none\r\n",
        "Transfer-Encoding: chunked\r\n",
        "Test-Noimplement: Test\r\n",
        "\r\n",
        "4\r\ntest\r\n",
        "5\r\ntest1\r\n",
        "5\r\ntest2\r\n",
        "0\r\n\r\n",
    ]
    .concat()
    .as_bytes()
    .to_vec();

    let mut decoder = DataDecoder::new();
    decoder.decode(&resp).unwrap();
    let resp = decoder.get_resp().unwrap();
    let text = std::str::from_utf8(resp.content().unwrap()).unwrap();
    assert!(text == "testtest1test2", "invalid string")
}

#[test]
fn resp_chunked_two_parts() {
    let resp = [
        "HTTP/1.1 201 Created\r\n",
        "Content-Language: en\r\n",
        "Content-Encoding: none\r\n",
        "Transfer-Encoding: chunked\r\n",
        "Test-Noimplement: Test\r\n",
        "\r\n",
        "4\r\ntest\r\n",
        "5\r\ntest1\r\n",
    ]
    .concat()
    .as_bytes()
    .to_vec();

    let resp1 = ["5\r\ntest2\r\n", "0\r\n\r\n"].concat();
    let resp1 = resp1.as_bytes();

    let mut decoder = DataDecoder::new();
    decoder.decode(&resp).unwrap();
    decoder.decode(&resp1).unwrap();
    let resp = decoder.get_resp().unwrap();
    let text = std::str::from_utf8(resp.content().unwrap()).unwrap();
    assert!(text == "testtest1test2", "invalid string")
}

#[test]
fn parse_headers_simple() {
    let resp = [
        "HTTP/1.1 201 Created\r\n",
        "Content-Length: 200\r\n",
        "Content-Language: en\r\n",
        "Content-Encoding: none\r\n",
        "Test-Noimplement: Test\r\n",
        "\r\n",
        "ASDASDA\r\nDADSADADAS",
    ]
    .concat()
    .as_bytes()
    .to_vec();

    let mut decoder = DataDecoder::new();
    let res = decoder.decode(&resp);
    res.unwrap();
    assert_eq!(decoder.state(), DecoderState::Content);
    assert_eq!(decoder.encoding(), TrfrEncodingType::NoEncoding);
}

#[test]
fn created_with_two_bytes() {
    let (_, resp) = decode_all(&[b"HTTP/1.1 201 Created\r\nContent-Length: 2\r\n\r\nAS"]);
    let resp = resp.unwrap();
    assert_eq!(resp.code(), 201);
    assert_eq!(resp.content(), Some(&b"AS"[..]));
    assert_eq!(resp.headers(), &[Header::ContentLength(2)]);
    assert_eq!(resp.status(), ResponseType::Successful);
}

#[test]
fn body_split_over_two_deliveries() {
    let (_, resp) =
        decode_all(&[b"HTTP/1.1 201 Created\r\nContent-Length: 5\r\n\r\nAB", b"CDE"]);
    let resp = resp.unwrap();
    assert_eq!(resp.code(), 201);
    assert_eq!(resp.content(), Some(&b"ABCDE"[..]));
}

#[test]
fn chunked_body_in_one_delivery() {
    let mut decoder = DataDecoder::new();
    decoder.decode(b"HTTP/1.1 200 OK\r\nTransfer-Encoding: chunked\r\n\r\n").unwrap();
    assert_eq!(decoder.state(), DecoderState::ChunkedContent);
    assert_eq!(decoder.encoding(), TrfrEncodingType::Chunked);
    decoder.decode(b"4\r\ntest\r\n5\r\ntest1\r\n5\r\ntest2\r\n0\r\n\r\n").unwrap();
    assert!(decoder.finished());
    let resp = decoder.get_resp().unwrap();
    assert_eq!(resp.content(), Some(&b"testtest1test2"[..]));
}

#[test]
fn chunked_body_split_inside_a_record() {
    let mut decoder = DataDecoder::new();
    decoder.decode(b"HTTP/1.1 200 OK\r\nTransfer-Encoding: chunked\r\n\r\n").unwrap();
    decoder.decode(b"4\r\nte").unwrap();
    assert!(!decoder.finished());
    decoder.decode(b"st\r\n5\r\ntest1\r").unwrap();
    decoder.decode(b"\n5\r\ntest2\r\n0\r").unwrap();
    assert!(!decoder.finished());
    decoder.decode(b"\n\r\n").unwrap();
    assert!(decoder.finished());
    let resp = decoder.get_resp().unwrap();
    assert_eq!(resp.content(), Some(&b"testtest1test2"[..]));
}

#[test]
fn every_split_point_gives_the_same_response() {
    let wire: &[u8] = b"HTTP/1.1 404 Not Found\r\nContent-Type: text/html\r\nConnection: close\r\nX-Thing: a\r\nTransfer-Encoding: gzip, chunked\r\n\r\na\r\n0123456789\r\n1\r\nZ\r\n0\r\n\r\n";
    let (_, whole) = decode_all(&[wire]);
    let whole = whole.unwrap();
    assert_eq!(whole.code(), 404);
    assert_eq!(whole.content(), Some(&b"0123456789Z"[..]));
    assert_eq!(
        whole.headers(),
        &[
            Header::ContentType(MimeType::TextHtml),
            Header::Connection(ConnectionState::Close),
            Header::Unimplemented(("X-Thing".to_string(), "a".to_string())),
            Header::TransferEncoding(TrfrEncodingType::GzipChunked),
        ]
    );
    for cut in 0..=wire.len() {
        let (_, parts) = decode_all(&[&wire[..cut], &wire[cut..]]);
        let parts = parts.unwrap();
        assert_eq!(parts.code(), whole.code());
        assert_eq!(parts.headers(), whole.headers());
        assert_eq!(parts.content(), whole.content());
    }
    let mut decoder = DataDecoder::new();
    for byte in wire {
        decoder.decode(&[*byte]).unwrap();
    }
    let bytewise = decoder.get_resp().unwrap();
    assert_eq!(bytewise.headers(), whole.headers());
    assert_eq!(bytewise.content(), whole.content());
}

#[test]
fn content_length_finishes_exactly_at_its_count() {
    let mut decoder = DataDecoder::new();
    decoder.decode(b"HTTP/1.1 200 OK\r\nContent-Length: 3\r\n\r\n").unwrap();
    assert_eq!(decoder.state(), DecoderState::Content);
    decoder.decode(b"a").unwrap();
    assert!(!decoder.finished());
    decoder.decode(b"b").unwrap();
    assert!(!decoder.finished());
    decoder.decode(b"cdef").unwrap();
    assert!(decoder.finished());
    let resp = decoder.get_resp().unwrap();
    assert_eq!(resp.content(), Some(&b"abc"[..]));
}

#[test]
fn content_length_zero_finishes_at_the_blank_line() {
    let mut decoder = DataDecoder::new();
    decoder.decode(b"HTTP/1.1 204 No Content\r\nContent-Length: 0\r\n\r").unwrap();
    assert!(!decoder.finished());
    decoder.decode(b"\n").unwrap();
    assert!(decoder.finished());
    let resp = decoder.get_resp().unwrap();
    assert_eq!(resp.code(), 204);
    assert_eq!(resp.content(), None);
}

#[test]
fn bad_content_length_is_fatal() {
    let mut decoder = DataDecoder::new();
    let err = decoder
        .decode(b"HTTP/1.1 200 OK\r\nContent-Length: 12x\r\n\r\nhello")
        .unwrap_err();
    match err {
        HttpResErr::InvalidHeader(msg) => {
            assert_eq!(msg, "value couldn't be parsed as an integer for Content-Length")
        }
        other => panic!("{:?}", other),
    }
    assert_eq!(decoder.state(), DecoderState::Error);
    assert!(!decoder.finished());
    assert!(decoder.get_resp().is_none());
    assert!(decoder.decode(b"more").is_err());
    assert!(decoder.get_resp().is_none());
    assert_eq!(decoder.state(), DecoderState::Error);
}

#[test]
fn response_without_framing_ends_with_its_first_delivery() {
    let (_, resp) = decode_all(&[b"HTTP/1.1 200 OK\r\nServer: x\r\n\r\nAB"]);
    assert_eq!(resp.unwrap().content(), Some(&b"AB"[..]));
    let mut decoder = DataDecoder::new();
    decoder.decode(b"HTTP/1.1 200 OK\r\nServer: x\r\n\r\nA").unwrap();
    assert!(decoder.finished());
    decoder.decode(b"B").unwrap();
    assert_eq!(decoder.get_resp().unwrap().content(), Some(&b"A"[..]));
}

#[test]
fn decoder_is_fresh_after_a_response() {
    let mut decoder = DataDecoder::new();
    decoder.decode(b"HTTP/1.1 200 OK\r\nContent-Length: 1\r\n\r\nx").unwrap();
    assert_eq!(decoder.get_resp().unwrap().code(), 200);
    assert_eq!(decoder.state(), DecoderState::Headers);
    assert!(decoder.get_resp().is_none());
    decoder.decode(b"HTTP/1.1 500 Oops\r\nContent-Length: 2\r\n\r\nyz").unwrap();
    let second = decoder.get_resp().unwrap();
    assert_eq!(second.code(), 500);
    assert_eq!(second.content(), Some(&b"yz"[..]));
    assert_eq!(second.status(), ResponseType::ServerError);
}

#[test]
fn status_line_faults() {
    assert_eq!(read_status_line(b""), Err(Fault::EmptyStatusLine));
    assert_eq!(read_status_line(b"HTTP/1.1 20"), Err(Fault::ShortStatusLine));
    assert_eq!(read_status_line(b"HTTP/1.1 2x0 OK"), Err(Fault::BadStatusCode));
    assert_eq!(read_status_line(b"HTTP/1.1 200"), Ok(200));
    assert_eq!(read_status_line(b"HTTP/1.1 +42 OK"), Ok(42));
    assert_eq!(read_status_line(b"HTTP/1.1 999 OK"), Ok(999));
}

#[test]
fn each_error_variant() {
    let mut d = DataDecoder::new();
    assert!(matches!(d.decode(b"\r\n"), Err(HttpResErr::Empty)));
    let mut d = DataDecoder::new();
    match d.decode(b"HTTP/1.1\r\n") {
        Err(HttpResErr::InvalidFirstLine(m)) => assert_eq!(m, "status line is too short"),
        other => panic!("{:?}", other),
    }
    let mut d = DataDecoder::new();
    match d.decode(b"HTTP/1.1 abc OK\r\n") {
        Err(HttpResErr::InvalidFirstLine(m)) => assert_eq!(m, "status code is not a number"),
        other => panic!("{:?}", other),
    }
    let mut d = DataDecoder::new();
    match d.decode(b"HTTP/1.1 200 OK\r\nno separator here\r\n") {
        Err(HttpResErr::InvalidHeader(m)) => assert_eq!(m, "invalid header"),
        other => panic!("{:?}", other),
    }
    let mut d = DataDecoder::new();
    match d.decode(b"HTTP/1.1 200 OK\r\nX-Bin: \xff\xfe\r\n") {
        Err(HttpResErr::InvalidHeader(m)) => {
            assert_eq!(m, "couldn't read first line of response")
        }
        other => panic!("{:?}", other),
    }
    let mut d = DataDecoder::new();
    d.decode(b"HTTP/1.1 200 OK\r\nTransfer-Encoding: chunked\r\n\r\n").unwrap();
    match d.decode(b"zz\r\n") {
        Err(HttpResErr::InvalidBody(m)) => assert_eq!(m, "couldn't read hex length of chunk"),
        other => panic!("{:?}", other),
    }
    let mut d = DataDecoder::new();
    d.decode(b"HTTP/1.1 200 OK\r\nTransfer-Encoding: chunked\r\n\r\n").unwrap();
    assert!(matches!(d.decode(b"\r\n"), Err(HttpResErr::InvalidBody(_))));
}

#[test]
fn fault_maps_to_its_error() {
    assert!(matches!(Fault::EmptyStatusLine.to_error(), HttpResErr::Empty));
    match Fault::Header(HeaderFault::NoSeparator).to_error() {
        HttpResErr::InvalidHeader(m) => assert_eq!(m, "invalid header"),
        other => panic!("{:?}", other),
    }
}

#[test]
fn chunk_lengths_are_hexadecimal() {
    let mut d = DataDecoder::new();
    d.decode(b"HTTP/1.1 200 OK\r\nTransfer-Encoding: chunked\r\n\r\n").unwrap();
    d.decode(b"1A\r\nabcdefghijklmnopqrstuvwxyz\r\n0\r\n\r\n").unwrap();
    assert_eq!(
        d.get_resp().unwrap().content(),
        Some(&b"abcdefghijklmnopqrstuvwxyz"[..])
    );
}

#[test]
fn chunked_wins_over_content_length() {
    let (_, resp) = decode_all(&[
        b"HTTP/1.1 200 OK\r\nContent-Length: 1\r\nTransfer-Encoding: chunked\r\n\r\n2\r\nab\r\n0\r\n\r\n",
    ]);
    assert_eq!(resp.unwrap().content(), Some(&b"ab"[..]));
}

#[test]
fn unchunked_transfer_encoding_is_not_decoded() {
    let (_, resp) = decode_all(&[
        b"HTTP/1.1 200 OK\r\nTransfer-Encoding: gzip\r\nContent-Length: 3\r\n\r\nabc",
    ]);
    let resp = resp.unwrap();
    assert_eq!(resp.content(), Some(&b"abc"[..]));
    assert_eq!(resp.headers()[0], Header::TransferEncoding(TrfrEncodingType::Gzip));
}

#[test]
fn dummy_response() {
    let r = Response::dummy();
    assert_eq!(r.code(), 100);
    assert!(r.headers().is_empty());
    assert_eq!(r.content(), None);
    assert_eq!(r.status(), ResponseType::Informational);
}

#[test]
fn status_classes() {
    let codes = [(199, ResponseType::Informational), (200, ResponseType::Successful),
        (301, ResponseType::Redirection), (404, ResponseType::ClientError),
        (599, ResponseType::ServerError)];
    for (code, class) in codes {
        let wire = format!("HTTP/1.1 {} X\r\nContent-Length: 0\r\n\r\n", code);
        let (_, resp) = decode_all(&[wire.as_bytes()]);
        assert_eq!(resp.unwrap().status(), class);
    }
}

#[test]
fn response_from_a_whole_buffer() {
    let resp = Response::new(b"HTTP/1.1 201 Created\r\nContent-Length: 2\r\n\r\nAS".to_vec()).unwrap();
    assert_eq!(resp.code(), 201);
    assert_eq!(resp.content(), Some(&b"AS"[..]));
    assert!(matches!(Response::new(Vec::new()), Err(HttpResErr::Empty)));
    assert!(matches!(Response::new(b"HTTP/1.1 200".to_vec()), Err(HttpResErr::Empty)));
    match Response::new(b"HTTP/1.1 200 OK\r\nContent-Length: 5\r\n\r\nabc".to_vec()) {
        Err(HttpResErr::InvalidBody(m)) => assert_eq!(m, "response is incomplete"),
        other => panic!("{:?}", other),
    }
    assert!(matches!(
        Response::new(b"HTTP/1.1 200 OK\r\nContent-Length".to_vec()),
        Err(HttpResErr::InvalidBody(_))
    ));
    assert!(matches!(
        Response::new(b"HTTP/1.1 200 OK\r\nbad\r\n\r\n".to_vec()),
        Err(HttpResErr::InvalidHeader(_))
    ));
}

#[test]
fn many_partitions_give_the_same_response() {
    let wires: [&[u8]; 3] = [
        b"HTTP/1.1 200 OK\r\nContent-Length: 11\r\nContent-Type: text/plain\r\n\r\nhello world",
        b"HTTP/1.1 200 OK\r\nTransfer-Encoding: chunked\r\n\r\n3\r\nabc\r\n10\r\n0123456789abcdef\r\n0\r\n\r\n",
        b"HTTP/1.1 302 Found\r\nContent-Length: 0\r\nConnection: keep-alive\r\n\r\n",
    ];
    let mut seed: u32 = 12345;
    for wire in wires {
        let (_, whole) = decode_all(&[wire]);
        let whole = whole.unwrap();
        for _ in 0..200 {
            let mut decoder = DataDecoder::new();
            let mut at = 0;
            while at < wire.len() {
                seed = seed.wrapping_mul(1664525).wrapping_add(1013904223);
                let step = 1 + (seed >> 24) as usize % 9;
                let end = (at + step).min(wire.len());
                decoder.decode(&wire[at..end]).unwrap();
                at = end;
            }
            let parts = decoder.get_resp().unwrap();
            assert_eq!(parts.code(), whole.code());
            assert_eq!(parts.headers(), whole.headers());
            assert_eq!(parts.content(), whole.content());
        }
    }
}

#[test]
fn error_is_the_same_in_any_fragmentation() {
    let wire: &[u8] = b"HTTP/1.1 200 OK\r\nContent-Length: 1x\r\n\r\nbody";
    for cut in 0..=wire.len() {
        let mut decoder = DataDecoder::new();
        let first = decoder.decode(&wire[..cut]);
        let second = decoder.decode(&wire[cut..]);
        assert!(second.is_err());
        assert!(first.is_ok() || cut >= 37);
        assert_eq!(decoder.state(), DecoderState::Error);
        assert!(decoder.get_resp().is_none());
    }
}

fn framed(resp: &Response) -> bool {
    let declared = resp.headers().iter().any(|h| matches!(h, Header::ContentLength(_)));
    let last_encoding = resp.headers().iter().rev().find_map(|h| match h {
        Header::TransferEncoding(t) => Some(*t),
        _ => None,
    });
    declared || last_encoding.map_or(false, |t| t.is_chunked())
}

#[test]
fn arbitrary_bytes_decode_alike_whole_and_in_two_pieces() {
    let pieces: [&[u8]; 14] = [
        b"HTTP/1.1 200 OK",
        b"\r\n",
        b"\r",
        b"\n",
        b"Content-Length: 3",
        b"Content-Length: x",
        b"Transfer-Encoding: chunked",
        b"X: y",
        b"3",
        b"abc",
        b"0",
        b": ",
        b"\xff",
        b"zz",
    ];
    let mut seed: u32 = 987654321;
    let mut next = move |bound: usize| {
        seed = seed.wrapping_mul(1664525).wrapping_add(1013904223);
        (seed >> 16) as usize % bound
    };
    let mut compared = 0;
    for _ in 0..3000 {
        let mut wire: Vec<u8> = Vec::new();
        let mut first = true;
        for _ in 0..(1 + next(12)) {
            let pick = if first || next(3) == 0 { next(2) } else { next(pieces.len()) };
            first = false;
            wire.extend_from_slice(pieces[pick]);
            if next(2) == 0 {
                wire.extend_from_slice(b"\r\n");
            }
        }
        let mut whole = DataDecoder::new();
        let whole_result = whole.decode(&wire).is_ok();
        let whole_state = whole.state();
        let whole_resp = whole.get_resp();
        if let Some(r) = &whole_resp {
            if !framed(r) {
                continue;
            }
        }
        let cut = next(wire.len() + 1);
        let mut split = DataDecoder::new();
        let _ = split.decode(&wire[..cut]);
        let split_result = split.decode(&wire[cut..]).is_ok();
        assert_eq!(split_result, whole_result, "{:?} cut at {}", wire, cut);
        assert_eq!(split.state(), whole_state, "{:?} cut at {}", wire, cut);
        let split_resp = split.get_resp();
        match (&whole_resp, &split_resp) {
            (Some(a), Some(b)) => {
                assert_eq!(a.code(), b.code());
                assert_eq!(a.headers(), b.headers());
                assert_eq!(a.content(), b.content());
            }
            (None, None) => {}
            _ => panic!("{:?} cut at {}", wire, cut),
        }
        compared += 1;
    }
    assert!(compared > 1000);
}

#[test]
fn parse_headers_transfer_enc_chunked() {
    let resp = [
        "HTTP/1.1 201 Created\r\n",
        "Content-Language: en\r\n",
        "Content-Encoding: none\r\n",
        "Transfer-Encoding: chunked\r\n",
        "Test-Noimplement: Test\r\n",
        "\r\n",
        "4\r\ntest\r\n",
        "5\r\ntest1\r\n",
        "6\r\ntest2\r\n",
        "0\r\n\r\n",
    ]
    .concat()
    .as_bytes()
    .to_vec();

    // The last data record declares six bytes for a payload of five: the
    // body is malformed.
    let res = Response::new(resp);
    assert!(matches!(res, Err(HttpResErr::InvalidBody(_))));
}
