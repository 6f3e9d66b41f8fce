use tunnel::headers::{find_sep, ConnectionState, Header, HeaderFault, MimeType, TrfrEncodingType};
use tunnel::number::read_number;
use tunnel::scan::{append_range, bytes_eq, find_byte, CR};
use tunnel::text::text_of;

#[test]
fn mime_types() {
    assert_eq!(MimeType::recognize("application/json"), MimeType::AppJson);
    assert_eq!(MimeType::recognize("text/plain"), MimeType::TextPlain);
    assert_eq!(MimeType::recognize("text/html"), MimeType::TextHtml);
    assert_eq!(MimeType::recognize("image/png"), MimeType::ImagePng);
    assert_eq!(MimeType::recognize("image/jpeg"), MimeType::ImageJpeg);
    assert_eq!(MimeType::recognize("image/jpg"), MimeType::ImageJpeg);
    assert_eq!(MimeType::recognize("image/gif"), MimeType::ImageGif);
    assert_eq!(MimeType::recognize("text/html; charset=utf-8"), MimeType::Unimplemented);
    assert_eq!(MimeType::recognize(""), MimeType::Unimplemented);
}

#[test]
fn connection_states() {
    assert_eq!(ConnectionState::recognize("close"), ConnectionState::Close);
    assert_eq!(ConnectionState::recognize("keep-alive"), ConnectionState::KeepAlive);
    assert_eq!(ConnectionState::recognize("Close"), ConnectionState::KeepAlive);
    assert_eq!(ConnectionState::recognize(""), ConnectionState::KeepAlive);
}

#[test]
fn transfer_encodings() {
    assert_eq!(TrfrEncodingType::recognize("gzip"), TrfrEncodingType::Gzip);
    assert_eq!(TrfrEncodingType::recognize("chunked"), TrfrEncodingType::Chunked);
    assert_eq!(TrfrEncodingType::recognize("deflate"), TrfrEncodingType::Deflate);
    assert_eq!(TrfrEncodingType::recognize("gzip, chunked"), TrfrEncodingType::GzipChunked);
    assert_eq!(TrfrEncodingType::recognize("chunked, gzip"), TrfrEncodingType::GzipChunked);
    assert_eq!(TrfrEncodingType::recognize("deflate, chunked"), TrfrEncodingType::DeflateChunked);
    assert_eq!(TrfrEncodingType::recognize("chunked, deflate"), TrfrEncodingType::DeflateChunked);
    assert_eq!(TrfrEncodingType::recognize("br"), TrfrEncodingType::Unknown);
    assert!(TrfrEncodingType::Chunked.is_chunked());
    assert!(TrfrEncodingType::GzipChunked.is_chunked());
    assert!(TrfrEncodingType::DeflateChunked.is_chunked());
    assert!(!TrfrEncodingType::Gzip.is_chunked());
    assert!(!TrfrEncodingType::NoEncoding.is_chunked());
    assert!(!TrfrEncodingType::Unknown.is_chunked());
}

#[test]
fn header_lines() {
    assert_eq!(Header::serialize("Content-Length: 200"), Ok(Header::ContentLength(200)));
    assert_eq!(Header::serialize("Content-Length: +7"), Ok(Header::ContentLength(7)));
    assert_eq!(
        Header::serialize("Content-Type: image/png"),
        Ok(Header::ContentType(MimeType::ImagePng))
    );
    assert_eq!(
        Header::serialize("Content-Encoding: none"),
        Ok(Header::ContentEncoding("none".to_string()))
    );
    assert_eq!(
        Header::serialize("Content-Language: en"),
        Ok(Header::ContentLanguage("en".to_string()))
    );
    assert_eq!(
        Header::serialize("Transfer-Encoding: chunked"),
        Ok(Header::TransferEncoding(TrfrEncodingType::Chunked))
    );
    assert_eq!(
        Header::serialize("Connection: close"),
        Ok(Header::Connection(ConnectionState::Close))
    );
    assert_eq!(
        Header::serialize("Test-Noimplement: Test"),
        Ok(Header::Unimplemented(("Test-Noimplement".to_string(), "Test".to_string())))
    );
    assert_eq!(
        Header::serialize("X-Caf\u{e9}: cr\u{e8}me br\u{fb}l\u{e9}e"),
        Ok(Header::Unimplemented(("X-Caf\u{e9}".to_string(), "cr\u{e8}me br\u{fb}l\u{e9}e".to_string())))
    );
}

#[test]
fn header_value_is_kept_whole() {
    assert_eq!(
        Header::serialize("Subject: Re: hello"),
        Ok(Header::Unimplemented(("Subject".to_string(), "Re: hello".to_string())))
    );
    assert_eq!(
        Header::serialize("X-A: b: c: d"),
        Ok(Header::Unimplemented(("X-A".to_string(), "b: c: d".to_string())))
    );
    assert_eq!(
        Header::serialize("Content-Language: en: us"),
        Ok(Header::ContentLanguage("en: us".to_string()))
    );
    assert_eq!(
        Header::serialize("Content-Encoding: a: b"),
        Ok(Header::ContentEncoding("a: b".to_string()))
    );
    assert_eq!(
        Header::serialize("Content-Length: 5: 6"),
        Err("value couldn't be parsed as an integer for Content-Length")
    );
    assert_eq!(
        Header::serialize("Connection: close: now"),
        Ok(Header::Connection(ConnectionState::KeepAlive))
    );
    assert_eq!(
        Header::serialize("Empty: "),
        Ok(Header::Unimplemented(("Empty".to_string(), "".to_string())))
    );
    assert_eq!(
        Header::serialize(": v"),
        Ok(Header::Unimplemented(("".to_string(), "v".to_string())))
    );
}

#[test]
fn header_faults() {
    assert_eq!(Header::serialize("no separator"), Err("invalid header"));
    assert_eq!(Header::serialize("Content-Length:5"), Err("invalid header"));
    assert_eq!(
        Header::serialize("Content-Length: five"),
        Err("value couldn't be parsed as an integer for Content-Length")
    );
    assert_eq!(
        Header::serialize("Content-Length: "),
        Err("value couldn't be parsed as an integer for Content-Length")
    );
    assert_eq!(
        Header::serialize("Content-Length: 99999999999999999999999999"),
        Err("value couldn't be parsed as an integer for Content-Length")
    );
    assert_eq!(Header::parse("x"), Err(HeaderFault::NoSeparator));
    assert_eq!(Header::parse("Content-Length: -1"), Err(HeaderFault::BadContentLength));
    assert_eq!(HeaderFault::NoSeparator.text(), "invalid header");
}

#[test]
fn separators() {
    assert_eq!(find_sep(b"a: b"), Some(1));
    assert_eq!(find_sep(b"a:b: c"), Some(3));
    assert_eq!(find_sep(b"a:"), None);
    assert_eq!(find_sep(b""), None);
    assert_eq!(find_sep(b": "), Some(0));
}

#[test]
fn numbers() {
    assert_eq!(read_number(b"0", 10, usize::MAX), Some(0));
    assert_eq!(read_number(b"0042", 10, usize::MAX), Some(42));
    assert_eq!(read_number(b"+42", 10, usize::MAX), Some(42));
    assert_eq!(read_number(b"+", 10, usize::MAX), None);
    assert_eq!(read_number(b"", 10, usize::MAX), None);
    assert_eq!(read_number(b"-1", 10, usize::MAX), None);
    assert_eq!(read_number(b"4 ", 10, usize::MAX), None);
    assert_eq!(read_number(b"1f", 10, usize::MAX), None);
    assert_eq!(read_number(b"1f", 16, usize::MAX), Some(31));
    assert_eq!(read_number(b"FF", 16, usize::MAX), Some(255));
    assert_eq!(read_number(b"g", 16, usize::MAX), None);
    assert_eq!(read_number(b"65535", 10, 65535), Some(65535));
    assert_eq!(read_number(b"65536", 10, 65535), None);
    let max = format!("{}", usize::MAX);
    assert_eq!(read_number(max.as_bytes(), 10, usize::MAX), Some(usize::MAX));
    let over = format!("{}0", usize::MAX);
    assert_eq!(read_number(over.as_bytes(), 10, usize::MAX), None);
    let hex = format!("{:x}", usize::MAX);
    assert_eq!(read_number(hex.as_bytes(), 16, usize::MAX), Some(usize::MAX));
}

#[test]
fn byte_search() {
    assert_eq!(find_byte(b"ab\rcd\r", 0, CR), Some(2));
    assert_eq!(find_byte(b"abcd", 0, CR), None);
    assert_eq!(find_byte(b"ab\rcd\r", 3, CR), Some(5));
    assert_eq!(find_byte(b"ab\rcd\r", 6, CR), None);
    assert_eq!(find_byte(b"xax", 0, b'a'), Some(1));
    assert!(bytes_eq(b"abc", b"abc"));
    assert!(!bytes_eq(b"abc", b"abd"));
    assert!(!bytes_eq(b"abc", b"ab"));
    let mut v = vec![1u8];
    append_range(&mut v, b"hello", 1, 3);
    assert_eq!(v, vec![1u8, b'e', b'l']);
}

#[test]
fn text_from_bytes() {
    assert_eq!(text_of("gr\u{fc}n".as_bytes()), "gr\u{fc}n");
    assert_eq!(text_of(b""), "");
}
