//! Response headers: the recognized kinds and the values they carry.

use vstd::prelude::*;
use vstd::slice::slice_subrange;
use vstd::string::StringSliceAdditionalSpecFns;
use vstd::utf8::encode_utf8_valid_utf8;
use crate::number::parse_number;
use crate::number::read_number;
use crate::scan::bytes_eq;
use crate::text::lemma_split_at_ascii;
use crate::text::text_bytes;
use crate::text::text_of;

verus! {

/// Media types that a `Content-Type` value is mapped into.
#[derive(Debug, PartialEq, Eq, PartialOrd, Ord, Clone, Copy, Structural)]
pub enum MimeType {
    AppJson,
    TextPlain,
    TextHtml,
    ImagePng,
    ImageJpeg,
    ImageGif,
    Unimplemented,
}

impl MimeType {
    /// The media type that a `Content-Type` value names.
    pub open spec fn of(value: Seq<u8>) -> MimeType {
        if value == "application/json".spec_bytes() {
            MimeType::AppJson
        } else if value == "text/plain".spec_bytes() {
            MimeType::TextPlain
        } else if value == "text/html".spec_bytes() {
            MimeType::TextHtml
        } else if value == "image/png".spec_bytes() {
            MimeType::ImagePng
        } else if value == "image/jpeg".spec_bytes() || value == "image/jpg".spec_bytes() {
            MimeType::ImageJpeg
        } else if value == "image/gif".spec_bytes() {
            MimeType::ImageGif
        } else {
            MimeType::Unimplemented
        }
    }

    /// Maps a `Content-Type` value into the closed set of media types;
    /// a value that is none of the known ones gives `Unimplemented`.
    pub fn recognize(line: &str) -> (res: MimeType)
        ensures
            res == MimeType::of(line.spec_bytes()),
    {
        MimeType::recognize_bytes(line.as_bytes())
    }

    /// Maps the bytes of a `Content-Type` value into the closed set of
    /// media types.
    pub fn recognize_bytes(b: &[u8]) -> (res: MimeType)
        ensures
            res == MimeType::of(b@),
    {
        if bytes_eq(b, "application/json".as_bytes()) {
            MimeType::AppJson
        } else if bytes_eq(b, "text/plain".as_bytes()) {
            MimeType::TextPlain
        } else if bytes_eq(b, "text/html".as_bytes()) {
            MimeType::TextHtml
        } else if bytes_eq(b, "image/png".as_bytes()) {
            MimeType::ImagePng
        } else if bytes_eq(b, "image/jpeg".as_bytes()) || bytes_eq(b, "image/jpg".as_bytes()) {
            MimeType::ImageJpeg
        } else if bytes_eq(b, "image/gif".as_bytes()) {
            MimeType::ImageGif
        } else {
            MimeType::Unimplemented
        }
    }
}

/// What a `Connection` header asks for.
#[derive(Debug, PartialEq, Eq, PartialOrd, Ord, Clone, Copy, Structural)]
pub enum ConnectionState {
    Close,
    KeepAlive,
}

impl ConnectionState {
    /// The state that a `Connection` value names: `close` closes, every
    /// other value keeps the connection alive.
    pub open spec fn of(value: Seq<u8>) -> ConnectionState {
        if value == "close".spec_bytes() {
            ConnectionState::Close
        } else {
            ConnectionState::KeepAlive
        }
    }

    /// Maps a `Connection` value to a state, falling back to `KeepAlive`
    /// for anything but `close`.
    pub fn recognize(line: &str) -> (res: ConnectionState)
        ensures
            res == ConnectionState::of(line.spec_bytes()),
    {
        ConnectionState::recognize_bytes(line.as_bytes())
    }

    /// Maps the bytes of a `Connection` value to a state.
    pub fn recognize_bytes(b: &[u8]) -> (res: ConnectionState)
        ensures
            res == ConnectionState::of(b@),
    {
        if bytes_eq(b, "close".as_bytes()) {
            ConnectionState::Close
        } else {
            ConnectionState::KeepAlive
        }
    }
}

/// Transfer encodings that a `Transfer-Encoding` value is mapped into.
/// `NoEncoding` stands for a response that declared no transfer encoding.
#[derive(Debug, PartialEq, Eq, PartialOrd, Ord, Clone, Copy, Structural)]
pub enum TrfrEncodingType {
    Gzip,
    Chunked,
    Deflate,
    GzipChunked,
    DeflateChunked,
    NoEncoding,
    Unknown,
}

impl TrfrEncodingType {
    /// The transfer encoding that a `Transfer-Encoding` value names.
    pub open spec fn of(value: Seq<u8>) -> TrfrEncodingType {
        if value == "gzip".spec_bytes() {
            TrfrEncodingType::Gzip
        } else if value == "chunked".spec_bytes() {
            TrfrEncodingType::Chunked
        } else if value == "deflate".spec_bytes() {
            TrfrEncodingType::Deflate
        } else if value == "gzip, chunked".spec_bytes() || value == "chunked, gzip".spec_bytes() {
            TrfrEncodingType::GzipChunked
        } else if value == "deflate, chunked".spec_bytes() || value
            == "chunked, deflate".spec_bytes() {
            TrfrEncodingType::DeflateChunked
        } else {
            TrfrEncodingType::Unknown
        }
    }

    /// Maps a `Transfer-Encoding` value into the closed set of encodings;
    /// a value that is none of the known ones gives `Unknown`.
    pub fn recognize(line: &str) -> (res: TrfrEncodingType)
        ensures
            res == TrfrEncodingType::of(line.spec_bytes()),
    {
        TrfrEncodingType::recognize_bytes(line.as_bytes())
    }

    /// Maps the bytes of a `Transfer-Encoding` value into the closed set of
    /// encodings.
    pub fn recognize_bytes(b: &[u8]) -> (res: TrfrEncodingType)
        ensures
            res == TrfrEncodingType::of(b@),
    {
        if bytes_eq(b, "gzip".as_bytes()) {
            TrfrEncodingType::Gzip
        } else if bytes_eq(b, "chunked".as_bytes()) {
            TrfrEncodingType::Chunked
        } else if bytes_eq(b, "deflate".as_bytes()) {
            TrfrEncodingType::Deflate
        } else if bytes_eq(b, "gzip, chunked".as_bytes()) || bytes_eq(
            b,
            "chunked, gzip".as_bytes(),
        ) {
            TrfrEncodingType::GzipChunked
        } else if bytes_eq(b, "deflate, chunked".as_bytes()) || bytes_eq(
            b,
            "chunked, deflate".as_bytes(),
        ) {
            TrfrEncodingType::DeflateChunked
        } else {
            TrfrEncodingType::Unknown
        }
    }

    /// The encodings whose body comes as chunk records.
    pub open spec fn chunked(self) -> bool {
        self == TrfrEncodingType::Chunked || self == TrfrEncodingType::GzipChunked || self
            == TrfrEncodingType::DeflateChunked
    }

    /// Tells whether the body of a response with this encoding comes as
    /// chunk records.
    pub fn is_chunked(&self) -> (res: bool)
        ensures
            res == self.chunked(),
    {
        match self {
            TrfrEncodingType::Chunked => true,
            TrfrEncodingType::GzipChunked => true,
            TrfrEncodingType::DeflateChunked => true,
            _ => false,
        }
    }
}

/// One parsed header of a response.
#[derive(Debug, PartialEq, Eq, PartialOrd, Ord)]
pub enum Header {
    ContentLength(usize),
    ContentType(MimeType),
    ContentEncoding(String),
    ContentLanguage(String),
    TransferEncoding(TrfrEncodingType),
    Connection(ConnectionState),
    /// A header that is none of the recognized ones, as its name and value.
    Unimplemented((String, String)),
}

/// A header as a mathematical value: text stands as the bytes it had on the
/// wire.
pub enum HeaderView {
    ContentLength(usize),
    ContentType(MimeType),
    ContentEncoding(Seq<u8>),
    ContentLanguage(Seq<u8>),
    TransferEncoding(TrfrEncodingType),
    Connection(ConnectionState),
    Unimplemented(Seq<u8>, Seq<u8>),
}

impl View for Header {
    type V = HeaderView;

    open spec fn view(&self) -> HeaderView {
        match *self {
            Header::ContentLength(n) => HeaderView::ContentLength(n),
            Header::ContentType(m) => HeaderView::ContentType(m),
            Header::ContentEncoding(s) => HeaderView::ContentEncoding(text_bytes(s)),
            Header::ContentLanguage(s) => HeaderView::ContentLanguage(text_bytes(s)),
            Header::TransferEncoding(t) => HeaderView::TransferEncoding(t),
            Header::Connection(c) => HeaderView::Connection(c),
            Header::Unimplemented(p) => HeaderView::Unimplemented(text_bytes(p.0), text_bytes(p.1)),
        }
    }
}

/// Why a header line was refused.
#[derive(Debug, PartialEq, Eq, Clone, Copy, Structural)]
pub enum HeaderFault {
    /// The line holds no `": "`.
    NoSeparator,
    /// The value of `Content-Length` is no unsigned integer.
    BadContentLength,
}

impl HeaderFault {
    /// The text that reports this fault.
    pub open spec fn message(self) -> Seq<char> {
        match self {
            HeaderFault::NoSeparator => "invalid header"@,
            HeaderFault::BadContentLength =>
                "value couldn't be parsed as an integer for Content-Length"@,
        }
    }

    /// The text that reports this fault.
    pub fn text(&self) -> (res: &'static str)
        ensures
            res@ == self.message(),
    {
        match self {
            HeaderFault::NoSeparator => "invalid header",
            HeaderFault::BadContentLength =>
                "value couldn't be parsed as an integer for Content-Length",
        }
    }
}

/// The separator `": "` stands at position `i` of `s`.
pub open spec fn is_sep_at(s: Seq<u8>, i: int) -> bool {
    0 <= i && i + 1 < s.len() && s[i] == 58u8 && s[i + 1] == 32u8
}

/// Position of the first `": "` in `s`, or `None` when `s` holds none.
pub open spec fn first_sep(s: Seq<u8>) -> Option<int> {
    if exists|i: int| is_sep_at(s, i) && forall|j: int| 0 <= j < i ==> !is_sep_at(s, j) {
        Some(choose|i: int| is_sep_at(s, i) && forall|j: int| 0 <= j < i ==> !is_sep_at(s, j))
    } else {
        None
    }
}

/// The name of a header line: what stands before its first `": "`.
pub open spec fn header_name(line: Seq<u8>) -> Seq<u8>
    recommends
        first_sep(line) is Some,
{
    line.take(first_sep(line).unwrap())
}

/// The value of a header line: all that follows its first `": "`.
pub open spec fn header_value(line: Seq<u8>) -> Seq<u8>
    recommends
        first_sep(line) is Some,
{
    line.skip(first_sep(line).unwrap() + 2)
}

/// The header that a line of the form `name: value` denotes.
pub open spec fn parse_header(line: Seq<u8>) -> Result<HeaderView, HeaderFault> {
    if first_sep(line) is None {
        Err(HeaderFault::NoSeparator)
    } else {
        let name = header_name(line);
        let value = header_value(line);
        if name == "Content-Length".spec_bytes() {
            match parse_number(value, 10, usize::MAX as int) {
                Some(n) => Ok(HeaderView::ContentLength(n as usize)),
                None => Err(HeaderFault::BadContentLength),
            }
        } else if name == "Content-Type".spec_bytes() {
            Ok(HeaderView::ContentType(MimeType::of(value)))
        } else if name == "Content-Encoding".spec_bytes() {
            Ok(HeaderView::ContentEncoding(value))
        } else if name == "Content-Language".spec_bytes() {
            Ok(HeaderView::ContentLanguage(value))
        } else if name == "Transfer-Encoding".spec_bytes() {
            Ok(HeaderView::TransferEncoding(TrfrEncodingType::of(value)))
        } else if name == "Connection".spec_bytes() {
            Ok(HeaderView::Connection(ConnectionState::of(value)))
        } else {
            Ok(HeaderView::Unimplemented(name, value))
        }
    }
}

/// A line made of a name without `": "`, then `": "`, then a value, has
/// that name and that value, the value whole, whatever it holds.
pub proof fn lemma_name_and_value(name: Seq<u8>, value: Seq<u8>)
    requires
        first_sep(name) is None,
    ensures
        first_sep(name + seq![58u8, 32u8] + value) == Some(name.len() as int),
        header_name(name + seq![58u8, 32u8] + value) == name,
        header_value(name + seq![58u8, 32u8] + value) == value,
{
    let line = name + seq![58u8, 32u8] + value;
    let n = name.len() as int;
    assert(is_sep_at(line, n));
    assert forall|j: int| 0 <= j < n implies !is_sep_at(line, j) by {
        if is_sep_at(line, j) {
            if j + 1 < n {
                assert(is_sep_at(name, j));
                lemma_no_sep(name, j);
            } else {
                assert(line[j + 1] == 58u8);
            }
        }
    }
    let c = choose|k: int| is_sep_at(line, k) && forall|j: int| 0 <= j < k ==> !is_sep_at(line, j);
    if c < n {
        assert(!is_sep_at(line, c));
    } else if n < c {
        assert(!is_sep_at(line, n));
    }
    assert(line.take(n) =~= name);
    assert(line.skip(n + 2) =~= value);
}

/// A byte string without a first `": "` holds none.
proof fn lemma_no_sep(s: Seq<u8>, k: int)
    requires
        first_sep(s) is None,
    ensures
        !is_sep_at(s, k),
    decreases k,
{
    if is_sep_at(s, k) {
        if forall|j: int| 0 <= j < k ==> !is_sep_at(s, j) {
        } else {
            let j = choose|j: int| 0 <= j < k && is_sep_at(s, j);
            lemma_no_sep(s, j);
        }
    }
}

/// A header whose name is none of the recognized ones is kept as its name
/// and its whole value.
pub proof fn lemma_unrecognized_header_is_kept(name: Seq<u8>, value: Seq<u8>)
    requires
        first_sep(name) is None,
        name != "Content-Length".spec_bytes(),
        name != "Content-Type".spec_bytes(),
        name != "Content-Encoding".spec_bytes(),
        name != "Content-Language".spec_bytes(),
        name != "Transfer-Encoding".spec_bytes(),
        name != "Connection".spec_bytes(),
    ensures
        parse_header(name + seq![58u8, 32u8] + value) == Ok::<HeaderView, HeaderFault>(
            HeaderView::Unimplemented(name, value),
        ),
{
    lemma_name_and_value(name, value);
}

/// Finds the first `": "` in `s`.
pub fn find_sep(s: &[u8]) -> (res: Option<usize>)
    ensures
        match res {
            Some(i) => first_sep(s@) == Some(i as int) && is_sep_at(s@, i as int),
            None => first_sep(s@) is None,
        },
{
    let mut i: usize = 0;
    while i < s.len() && s.len() - i >= 2
        invariant
            i <= s@.len(),
            forall|j: int| 0 <= j < i ==> !is_sep_at(s@, j),
        decreases s@.len() - i,
    {
        if s[i] == 58u8 && s[i + 1] == 32u8 {
            assert(is_sep_at(s@, i as int));
            proof {
                let c = choose|k: int|
                    is_sep_at(s@, k) && forall|j: int| 0 <= j < k ==> !is_sep_at(s@, j);
                if c < i {
                    assert(!is_sep_at(s@, c));
                } else if i < c {
                    assert(!is_sep_at(s@, i as int));
                }
            }
            return Some(i);
        }
        i += 1;
    }
    proof {
        if first_sep(s@) is Some {
            let c = first_sep(s@).unwrap();
            assert(is_sep_at(s@, c));
            assert(!is_sep_at(s@, c));
        }
    }
    None
}

impl Header {
    /// Parses one header line of the form `name: value`.
    ///
    /// The name is what stands before the first `": "`; the value is all
    /// that follows it, byte for byte. A line without `": "` is refused
    /// with [`HeaderFault::NoSeparator`], a `Content-Length` whose value is
    /// no unsigned decimal number with [`HeaderFault::BadContentLength`].
    pub fn parse(line: &str) -> (res: Result<Header, HeaderFault>)
        ensures
            match parse_header(line.spec_bytes()) {
                Ok(h) => res matches Ok(x) && x@ == h,
                Err(f) => res == Err::<Header, HeaderFault>(f),
            },
    {
        let bytes = line.as_bytes();
        let n = bytes.len();
        let i = match find_sep(bytes) {
            Some(i) => i,
            None => {
                return Err(HeaderFault::NoSeparator);
            },
        };
        let name = slice_subrange(bytes, 0, i);
        let value = slice_subrange(bytes, i + 2, n);
        assert(name@ == header_name(bytes@));
        assert(value@ == header_value(bytes@));
        proof {
            encode_utf8_valid_utf8(line@);
            lemma_split_at_ascii(bytes@, i as int);
            let after = bytes@.subrange(i + 1, bytes@.len() as int);
            lemma_split_at_ascii(after, 0);
            assert(after.subrange(1, after.len() as int) =~= value@);
        }
        if bytes_eq(name, "Content-Length".as_bytes()) {
            match read_number(value, 10, usize::MAX) {
                Some(n) => Ok(Header::ContentLength(n)),
                None => Err(HeaderFault::BadContentLength),
            }
        } else if bytes_eq(name, "Content-Type".as_bytes()) {
            Ok(Header::ContentType(MimeType::recognize_bytes(value)))
        } else if bytes_eq(name, "Content-Encoding".as_bytes()) {
            Ok(Header::ContentEncoding(text_of(value)))
        } else if bytes_eq(name, "Content-Language".as_bytes()) {
            Ok(Header::ContentLanguage(text_of(value)))
        } else if bytes_eq(name, "Transfer-Encoding".as_bytes()) {
            Ok(Header::TransferEncoding(TrfrEncodingType::recognize_bytes(value)))
        } else if bytes_eq(name, "Connection".as_bytes()) {
            Ok(Header::Connection(ConnectionState::recognize_bytes(value)))
        } else {
            Ok(Header::Unimplemented((text_of(name), text_of(value))))
        }
    }

    /// Parses one header line of the form `name: value`, reporting a fault
    /// as its message.
    pub fn serialize(line: &str) -> (res: Result<Header, &'static str>)
        ensures
            match parse_header(line.spec_bytes()) {
                Ok(h) => res matches Ok(x) && x@ == h,
                Err(f) => res matches Err(m) && m@ == f.message(),
            },
    {
        match Header::parse(line) {
            Ok(h) => Ok(h),
            Err(f) => Err(f.text()),
        }
    }
}

} // verus!
