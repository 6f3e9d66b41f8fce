//! The response decoder as a mathematical object: its state, and what one
//! delivery of bytes does to it.
//!
//! The decoder keeps the bytes it has received but not yet consumed. Feeding
//! it appends to those bytes and then consumes whole records from their
//! front for as long as one is complete: the status line, a header line, the
//! blank line that ends the headers, body bytes counted by `Content-Length`,
//! or one chunk record. A line ends at the first carriage return and takes
//! the byte after it along.

use vstd::prelude::*;
use vstd::utf8::valid_utf8;
use crate::headers::parse_header;
use crate::headers::HeaderFault;
use crate::headers::HeaderView;
use crate::headers::TrfrEncodingType;
use crate::number::lemma_parse_number_bounds;
use crate::number::parse_number;
use crate::response::ResponseView;
use crate::scan::first_index_of;
use crate::scan::lemma_first_index_found;
use crate::scan::CR;

verus! {

/// The phase of the decoder.
#[derive(Debug, PartialEq, Eq, Clone, Copy, Structural)]
pub enum DecoderState {
    /// Reading the status line and the header lines.
    Headers,
    /// Reading a body whose length `Content-Length` declared.
    Content,
    /// Reading a body that comes as chunk records.
    ChunkedContent,
    /// A whole response has been read.
    Finished,
    /// The input was malformed; nothing more is accepted.
    Error,
}

/// Why the decoder refused its input.
#[derive(Debug, PartialEq, Eq, Clone, Copy, Structural)]
pub enum Fault {
    /// The status line holds no byte.
    EmptyStatusLine,
    /// The status line ends before the status code does.
    ShortStatusLine,
    /// The three bytes of the status code are no number.
    BadStatusCode,
    /// A header line is not valid UTF-8.
    HeaderNotText,
    /// A header line was refused.
    Header(HeaderFault),
    /// The length field of a chunk is no hexadecimal number.
    BadChunkLength,
}

/// The status code of a status line: the number in its bytes 9 to 11.
pub open spec fn parse_status_line(line: Seq<u8>) -> Result<u16, Fault> {
    if line.len() == 0 {
        Err(Fault::EmptyStatusLine)
    } else if line.len() < 12 {
        Err(Fault::ShortStatusLine)
    } else {
        match parse_number(line.subrange(9, 12), 10, u16::MAX as int) {
            Some(c) => Ok(c as u16),
            None => Err(Fault::BadStatusCode),
        }
    }
}

/// The line at the front of `p` and what follows it, when `p` holds the
/// line's end: a carriage return and one byte more.
pub open spec fn front_line(p: Seq<u8>) -> Option<(Seq<u8>, Seq<u8>)> {
    match first_index_of(p, CR) {
        Some(i) => if i + 1 < p.len() {
            Some((p.take(i), p.skip(i + 2)))
        } else {
            None
        },
        None => None,
    }
}

/// The state of a decoder.
pub struct DecoderModel {
    pub state: DecoderState,
    /// The status code, once the status line has been read.
    pub code: Option<u16>,
    /// The headers read so far, in the order of arrival.
    pub headers: Seq<HeaderView>,
    /// The transfer encoding that the headers declared last.
    pub encoding: TrfrEncodingType,
    /// The body length that the headers declared last.
    pub content_len: Option<usize>,
    /// The body bytes accumulated so far.
    pub content: Seq<u8>,
    /// Bytes received that belong to a record not yet complete.
    pub pending: Seq<u8>,
    /// Why the decoder is in `Error`.
    pub fault: Option<Fault>,
}

impl DecoderModel {
    /// A decoder that has seen no byte.
    pub open spec fn fresh() -> DecoderModel {
        DecoderModel {
            state: DecoderState::Headers,
            code: None,
            headers: Seq::empty(),
            encoding: TrfrEncodingType::NoEncoding,
            content_len: None,
            content: Seq::empty(),
            pending: Seq::empty(),
            fault: None,
        }
    }

    /// A decoder that refused its input for the reason `f`.
    pub open spec fn failed(f: Fault) -> DecoderModel {
        DecoderModel { state: DecoderState::Error, fault: Some(f), ..DecoderModel::fresh() }
    }

    /// `Finished` and `Error` take no more bytes.
    pub open spec fn terminal(self) -> bool {
        self.state == DecoderState::Finished || self.state == DecoderState::Error
    }

    /// The response was read to its end though its headers declared neither
    /// a length nor chunked framing: its body is what arrived together with
    /// the end of its headers.
    pub open spec fn unframed(self) -> bool {
        self.state == DecoderState::Finished && self.content_len is None
            && !self.encoding.chunked()
    }

    /// The decoder with `data` added to the bytes it has not consumed.
    /// A terminal decoder drops the bytes.
    pub open spec fn append(self, data: Seq<u8>) -> DecoderModel {
        if self.terminal() {
            self
        } else {
            DecoderModel { pending: self.pending + data, ..self }
        }
    }

    /// The decoder after the header `h` has been read.
    pub open spec fn apply_header(self, h: HeaderView) -> DecoderModel {
        let m = DecoderModel { headers: self.headers.push(h), ..self };
        match h {
            HeaderView::TransferEncoding(t) => DecoderModel { encoding: t, ..m },
            HeaderView::ContentLength(n) => DecoderModel { content_len: Some(n), ..m },
            _ => m,
        }
    }

    /// The decoder after the blank line that ends the headers, `rest` being
    /// the bytes received after that line.
    ///
    /// Chunked framing, where declared, decides; else the declared length;
    /// a response that declared neither is complete at once, with `rest` as
    /// its body.
    pub open spec fn begin_body(self, rest: Seq<u8>) -> DecoderModel {
        if self.encoding.chunked() {
            DecoderModel { state: DecoderState::ChunkedContent, pending: rest, ..self }
        } else {
            match self.content_len {
                Some(n) => if n == 0 {
                    DecoderModel { state: DecoderState::Finished, pending: Seq::empty(), ..self }
                } else {
                    DecoderModel { state: DecoderState::Content, pending: rest, ..self }
                },
                None => DecoderModel {
                    state: DecoderState::Finished,
                    content: rest,
                    pending: Seq::empty(),
                    ..self
                },
            }
        }
    }

    /// The decoder after `line` has been read as the status line or as a
    /// line of the headers, `rest` being the bytes received after it.
    pub open spec fn step_line(self, line: Seq<u8>, rest: Seq<u8>) -> DecoderModel {
        if self.code is None {
            match parse_status_line(line) {
                Ok(c) => DecoderModel { code: Some(c), pending: rest, ..self },
                Err(f) => DecoderModel::failed(f),
            }
        } else if line.len() == 0 {
            self.begin_body(rest)
        } else if !valid_utf8(line) {
            DecoderModel::failed(Fault::HeaderNotText)
        } else {
            match parse_header(line) {
                Ok(h) => DecoderModel { pending: rest, ..self.apply_header(h) },
                Err(f) => DecoderModel::failed(Fault::Header(f)),
            }
        }
    }

    /// One step while reading the status line and the headers.
    pub open spec fn step_headers(self) -> Option<DecoderModel> {
        match front_line(self.pending) {
            None => None,
            Some((line, rest)) => Some(self.step_line(line, rest)),
        }
    }

    /// One step while reading a body of declared length: the bytes at hand
    /// go to the body, as far as the declared length allows.
    pub open spec fn step_content(self) -> Option<DecoderModel> {
        match self.content_len {
            None => None,
            Some(n) => if self.pending.len() == 0 || self.content.len() >= n {
                None
            } else {
                let need = n - self.content.len();
                if self.pending.len() >= need {
                    Some(
                        DecoderModel {
                            state: DecoderState::Finished,
                            content: self.content + self.pending.take(need),
                            pending: Seq::empty(),
                            ..self
                        },
                    )
                } else {
                    Some(
                        DecoderModel {
                            content: self.content + self.pending,
                            pending: Seq::empty(),
                            ..self
                        },
                    )
                }
            },
        }
    }

    /// One step while reading chunk records: a record is its length in
    /// hexadecimal, a line end, that many bytes, and two bytes more. The
    /// record of length zero ends the body.
    pub open spec fn step_chunked(self) -> Option<DecoderModel> {
        match front_line(self.pending) {
            None => None,
            Some((field, rest)) => match parse_number(field, 16, usize::MAX as int) {
                None => Some(DecoderModel::failed(Fault::BadChunkLength)),
                Some(len) => if rest.len() < len + 2 {
                    None
                } else if len == 0 {
                    Some(
                        DecoderModel {
                            state: DecoderState::Finished,
                            pending: Seq::empty(),
                            ..self
                        },
                    )
                } else {
                    Some(
                        DecoderModel {
                            content: self.content + rest.take(len),
                            pending: rest.skip(len + 2),
                            ..self
                        },
                    )
                },
            },
        }
    }

    /// Consumes one record from the front of the pending bytes, or returns
    /// `None` when no record is complete or the decoder is terminal.
    pub open spec fn step(self) -> Option<DecoderModel> {
        match self.state {
            DecoderState::Headers => self.step_headers(),
            DecoderState::Content => self.step_content(),
            DecoderState::ChunkedContent => self.step_chunked(),
            DecoderState::Finished => None,
            DecoderState::Error => None,
        }
    }

    /// Consumes records for as long as one is complete.
    #[verifier::opaque]
    pub open spec fn run(self) -> DecoderModel
        decreases self.pending.len(),
    {
        match self.step() {
            None => self,
            Some(next) => if next.pending.len() < self.pending.len() {
                next.run()
            } else {
                next
            },
        }
    }

    /// The decoder after one delivery of bytes.
    pub open spec fn feed(self, data: Seq<u8>) -> DecoderModel {
        self.append(data).run()
    }

    /// The decoder after the deliveries `parts`, in their order.
    pub open spec fn feed_all(self, parts: Seq<Seq<u8>>) -> DecoderModel
        decreases parts.len(),
    {
        if parts.len() == 0 {
            self
        } else {
            self.feed(parts[0]).feed_all(parts.drop_first())
        }
    }

    /// The response that a finished decoder holds. Its body is absent when
    /// no body byte was read.
    pub open spec fn response(self) -> Option<ResponseView> {
        if self.state == DecoderState::Finished {
            Some(
                ResponseView {
                    code: match self.code {
                        Some(c) => c,
                        None => 0,
                    },
                    headers: self.headers,
                    content: if self.content.len() == 0 {
                        None
                    } else {
                        Some(self.content)
                    },
                },
            )
        } else {
            None
        }
    }

    /// What holds of every decoder that was made fresh and then fed: a body
    /// of declared length is shorter than declared while it is read and as
    /// long as declared once it is finished; a failed decoder holds nothing
    /// but its failure; a finished one has no unconsumed bytes.
    pub open spec fn wf(self) -> bool {
        &&& self.fault is Some <==> self.state == DecoderState::Error
        &&& self.code is None ==> self.state == DecoderState::Headers || self.state
            == DecoderState::Error
        &&& match self.state {
            DecoderState::Headers => self.content.len() == 0 && (self.code is None ==> self
                == DecoderModel { pending: self.pending, ..DecoderModel::fresh() }),
            DecoderState::Content => !self.encoding.chunked() && self.content_len is Some
                && self.content.len() < self.content_len.unwrap(),
            DecoderState::ChunkedContent => self.encoding.chunked(),
            DecoderState::Finished => self.pending.len() == 0 && (self.encoding.chunked()
                || self.content_len is None || self.content.len() == self.content_len.unwrap()),
            DecoderState::Error => self == DecoderModel::failed(self.fault.unwrap()),
        }
    }
}

/// Every step consumes at least one pending byte.
pub proof fn lemma_step_shrinks(m: DecoderModel)
    requires
        m.step() is Some,
    ensures
        m.step().unwrap().pending.len() < m.pending.len(),
{
    lemma_first_index_found(m.pending, CR);
    if m.state == DecoderState::ChunkedContent {
        let (field, rest) = front_line(m.pending).unwrap();
        lemma_parse_number_bounds(field, 16, usize::MAX as int);
    }
}

/// Where a step is possible, running goes on from its result.
pub proof fn lemma_run_step(m: DecoderModel)
    requires
        m.step() is Some,
    ensures
        m.run() == m.step().unwrap().run(),
{
    lemma_step_shrinks(m);
    reveal(DecoderModel::run);
}

/// Where no step is possible, running changes nothing.
pub proof fn lemma_run_stuck(m: DecoderModel)
    requires
        m.step() is None,
    ensures
        m.run() == m,
{
    reveal(DecoderModel::run);
}

/// The bytes of `parts` one after the other.
pub open spec fn concat(parts: Seq<Seq<u8>>) -> Seq<u8>
    decreases parts.len(),
{
    if parts.len() == 0 {
        Seq::empty()
    } else {
        parts[0] + concat(parts.drop_first())
    }
}

} // verus!
