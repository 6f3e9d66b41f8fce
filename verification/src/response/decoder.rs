//! The incremental decoder of HTTP/1.x responses.

use vstd::prelude::*;
use vstd::slice::slice_subrange;
use crate::headers::Header;
use crate::headers::TrfrEncodingType;
use crate::number::read_number;
use crate::response::header_views;
use crate::response::laws::lemma_feed_wf;
use crate::response::model::front_line;
use crate::response::model::lemma_run_step;
use crate::response::model::lemma_run_stuck;
use crate::response::model::parse_status_line;
use crate::response::model::DecoderModel;
use crate::response::model::DecoderState;
use crate::response::model::Fault;
use crate::response::HttpResErr;
use crate::response::HttpResErrView;
use crate::response::Response;
use crate::response::ResponseView;
use crate::scan::append_range;
use crate::scan::find_byte;
use crate::scan::CR;
use crate::text::utf8_str;

verus! {

/// Reads the status code of a status line.
pub fn read_status_line(line: &[u8]) -> (res: Result<u16, Fault>)
    ensures
        res == parse_status_line(line@),
{
    if line.len() == 0 {
        Err(Fault::EmptyStatusLine)
    } else if line.len() < 12 {
        Err(Fault::ShortStatusLine)
    } else {
        match read_number(slice_subrange(line, 9, 12), 10, 65535) {
            Some(c) => Ok(c as u16),
            None => Err(Fault::BadStatusCode),
        }
    }
}

/// A decoder for HTTP/1.x responses that takes the bytes of a response in
/// any fragmentation.
#[derive(Debug)]
pub struct DataDecoder {
    /// Encoding that the headers declared.
    encoding: TrfrEncodingType,
    /// Phase.
    state: DecoderState,
    /// Body in construction.
    content: Vec<u8>,
    /// Status code, once read.
    code: Option<u16>,
    /// Headers read so far.
    headers: Vec<Header>,
    /// Body length that the headers declared.
    content_len: Option<usize>,
    /// Bytes of a record that is not complete yet.
    pending: Vec<u8>,
    /// Why the decoder failed.
    fault: Option<Fault>,
}

impl View for DataDecoder {
    type V = DecoderModel;

    closed spec fn view(&self) -> DecoderModel {
        self.model_with(self.pending@)
    }
}

impl DataDecoder {
    /// The state of the decoder, with `pending` as its unconsumed bytes.
    closed spec fn model_with(&self, pending: Seq<u8>) -> DecoderModel {
        DecoderModel {
            state: self.state,
            code: self.code,
            headers: header_views(self.headers@),
            encoding: self.encoding,
            content_len: self.content_len,
            content: self.content@,
            pending,
            fault: self.fault,
        }
    }

    /// The state in which the decoder stands inside `decode`, where the
    /// unconsumed bytes are `buf[pos..]`.
    closed spec fn model_at(&self, buf: Seq<u8>, pos: int) -> DecoderModel {
        if self.state == DecoderState::Finished || self.state == DecoderState::Error {
            self.model_with(Seq::empty())
        } else {
            self.model_with(buf.skip(pos))
        }
    }

    /// Creates a decoder that has seen no byte.
    pub fn new() -> (d: Self)
        ensures
            d@ == DecoderModel::fresh(),
            d@.wf(),
    {
        let d = Self {
            encoding: TrfrEncodingType::NoEncoding,
            state: DecoderState::Headers,
            content: Vec::new(),
            code: None,
            headers: Vec::new(),
            content_len: None,
            pending: Vec::new(),
            fault: None,
        };
        assert(header_views(d.headers@) =~= Seq::empty());
        d
    }

    /// Tells whether a whole response has been read.
    pub fn finished(&self) -> (b: bool)
        ensures
            b == (self@.state == DecoderState::Finished),
    {
        match self.state {
            DecoderState::Finished => true,
            _ => false,
        }
    }

    /// The transfer encoding that the headers read so far declared.
    pub fn encoding(&self) -> (e: TrfrEncodingType)
        ensures
            e == self@.encoding,
    {
        self.encoding
    }

    /// The phase of the decoder.
    pub fn state(&self) -> (s: DecoderState)
        ensures
            s == self@.state,
    {
        self.state
    }

    /// Puts the decoder into `Error`.
    fn fail(&mut self, f: Fault)
        ensures
            forall|p: Seq<u8>| #[trigger] final(self).model_with(p) == (DecoderModel {
                pending: p,
                ..DecoderModel::failed(f)
            }),
            final(self).state == DecoderState::Error,
    {
        self.encoding = TrfrEncodingType::NoEncoding;
        self.state = DecoderState::Error;
        self.content = Vec::new();
        self.code = None;
        self.headers = Vec::new();
        self.content_len = None;
        self.fault = Some(f);
        assert(header_views(self.headers@) =~= Seq::empty());
    }
}

impl DataDecoder {
    /// Takes the next bytes of the response, in whatever pieces they come.
    ///
    /// The bytes are added to those not yet consumed, and whole records are
    /// consumed from their front: the status line, header lines, the body.
    /// The call fails when the input is malformed, and from then on every
    /// call fails in the same way. A decoder that has `finished` ignores the
    /// bytes.
    pub fn decode(&mut self, data: &[u8]) -> (res: Result<(), HttpResErr>)
        ensures
            final(self)@ == old(self)@.feed(data@),
            match final(self)@.fault {
                Some(f) => res matches Err(e) && e@ == f.error(),
                None => res is Ok,
            },
            old(self)@.wf() ==> final(self)@.wf(),
    {
        proof {
            if self@.wf() {
                lemma_feed_wf(self@, data@);
            }
        }
        if self.is_terminal() {
            proof {
                lemma_run_stuck(self@);
            }
            return self.outcome();
        }
        let mut buf: Vec<u8> = Vec::new();
        append_range(&mut buf, self.pending.as_slice(), 0, self.pending.len());
        append_range(&mut buf, data, 0, data.len());
        assert(buf@ =~= old(self)@.pending + data@);
        assert(buf@.skip(0) =~= buf@);
        let mut pos: usize = 0;
        loop
            invariant_except_break
                pos <= buf@.len(),
                self.model_at(buf@, pos as int).run() == old(self)@.feed(data@),
            ensures
                pos <= buf@.len(),
                self.model_at(buf@, pos as int) == old(self)@.feed(data@),
            decreases buf@.len() - pos,
        {
            let ghost cur = self.model_at(buf@, pos as int);
            match self.advance(&buf, pos) {
                Some(next) => {
                    proof {
                        lemma_run_step(cur);
                    }
                    pos = next;
                },
                None => {
                    proof {
                        lemma_run_stuck(cur);
                    }
                    break ;
                },
            }
        }
        if self.is_terminal() {
            self.pending = Vec::new();
        } else {
            let mut rest: Vec<u8> = Vec::new();
            append_range(&mut rest, buf.as_slice(), pos, buf.len());
            self.pending = rest;
            assert(self.pending@ =~= buf@.skip(pos as int));
        }
        self.outcome()
    }

    /// Tells whether the decoder takes no more bytes.
    fn is_terminal(&self) -> (b: bool)
        ensures
            b == (self.state == DecoderState::Finished || self.state == DecoderState::Error),
            b == self@.terminal(),
    {
        match self.state {
            DecoderState::Finished => true,
            DecoderState::Error => true,
            _ => false,
        }
    }

    /// What `decode` reports: the failure, if the decoder has failed.
    fn outcome(&self) -> (res: Result<(), HttpResErr>)
        ensures
            match self.fault {
                Some(f) => res matches Err(e) && e@ == f.error(),
                None => res is Ok,
            },
    {
        match self.fault {
            Some(f) => Err(f.to_error()),
            None => Ok(()),
        }
    }

    /// Consumes one record from `buf[pos..]`, if one is complete, and
    /// returns where the unconsumed bytes then begin.
    fn advance(&mut self, buf: &Vec<u8>, pos: usize) -> (res: Option<usize>)
        requires
            pos <= buf@.len(),
        ensures
            match res {
                Some(next) => pos < next <= buf@.len() && old(self).model_at(
                    buf@,
                    pos as int,
                ).step() == Some(final(self).model_at(buf@, next as int)),
                None => old(self).model_at(buf@, pos as int).step() is None && *final(self)
                    == *old(self),
            },
    {
        match self.state {
            DecoderState::Headers => self.advance_headers(buf, pos),
            DecoderState::Content => self.advance_content(buf, pos),
            DecoderState::ChunkedContent => self.advance_chunked(buf, pos),
            DecoderState::Finished => None,
            DecoderState::Error => None,
        }
    }

    /// Consumes the status line or one line of the headers.
    fn advance_headers(&mut self, buf: &Vec<u8>, pos: usize) -> (res: Option<usize>)
        requires
            pos <= buf@.len(),
            old(self).state == DecoderState::Headers,
        ensures
            match res {
                Some(next) => pos < next <= buf@.len() && old(self).model_at(
                    buf@,
                    pos as int,
                ).step() == Some(final(self).model_at(buf@, next as int)),
                None => old(self).model_at(buf@, pos as int).step() is None && *final(self)
                    == *old(self),
            },
    {
        let n = buf.len();
        let ghost cur = self.model_at(buf@, pos as int);
        match find_byte(buf.as_slice(), pos, CR) {
            None => None,
            Some(i) => {
                if n - i < 2 {
                    None
                } else {
                    let line = slice_subrange(buf.as_slice(), pos, i);
                    let next = i + 2;
                    proof {
                        assert(line@ =~= cur.pending.take(i - pos));
                        assert(buf@.skip(next as int) =~= cur.pending.skip(i - pos + 2));
                        assert(front_line(cur.pending) == Some((line@, buf@.skip(next as int))));
                    }
                    self.header_step(buf, line, next);
                    if self.is_terminal() {
                        Some(n)
                    } else {
                        Some(next)
                    }
                }
            },
        }
    }

    /// Moves the bytes at hand into a body of declared length.
    fn advance_content(&mut self, buf: &Vec<u8>, pos: usize) -> (res: Option<usize>)
        requires
            pos <= buf@.len(),
            old(self).state == DecoderState::Content,
        ensures
            match res {
                Some(next) => pos < next <= buf@.len() && old(self).model_at(
                    buf@,
                    pos as int,
                ).step() == Some(final(self).model_at(buf@, next as int)),
                None => old(self).model_at(buf@, pos as int).step() is None && *final(self)
                    == *old(self),
            },
    {
        let n = buf.len();
        let ghost cur = self.model_at(buf@, pos as int);
        match self.content_len {
            None => None,
            Some(len) => {
                let avail = n - pos;
                if avail == 0 || self.content.len() >= len {
                    None
                } else {
                    let need = len - self.content.len();
                    if avail >= need {
                        append_range(&mut self.content, buf.as_slice(), pos, pos + need);
                        self.state = DecoderState::Finished;
                        assert(buf@.subrange(pos as int, pos + need) =~= cur.pending.take(
                            need as int,
                        ));
                    } else {
                        append_range(&mut self.content, buf.as_slice(), pos, n);
                        assert(buf@.subrange(pos as int, n as int) =~= cur.pending);
                        assert(buf@.skip(n as int) =~= Seq::<u8>::empty());
                    }
                    Some(n)
                }
            },
        }
    }

    /// Consumes one chunk record.
    fn advance_chunked(&mut self, buf: &Vec<u8>, pos: usize) -> (res: Option<usize>)
        requires
            pos <= buf@.len(),
            old(self).state == DecoderState::ChunkedContent,
        ensures
            match res {
                Some(next) => pos < next <= buf@.len() && old(self).model_at(
                    buf@,
                    pos as int,
                ).step() == Some(final(self).model_at(buf@, next as int)),
                None => old(self).model_at(buf@, pos as int).step() is None && *final(self)
                    == *old(self),
            },
    {
        let n = buf.len();
        let ghost cur = self.model_at(buf@, pos as int);
        match find_byte(buf.as_slice(), pos, CR) {
            None => None,
            Some(i) => {
                if n - i < 2 {
                    None
                } else {
                    let field = slice_subrange(buf.as_slice(), pos, i);
                    let next = i + 2;
                    proof {
                        assert(field@ =~= cur.pending.take(i - pos));
                        assert(buf@.skip(next as int) =~= cur.pending.skip(i - pos + 2));
                        assert(front_line(cur.pending) == Some((field@, buf@.skip(next as int))));
                    }
                    match read_number(field, 16, usize::MAX) {
                        None => {
                            self.fail(Fault::BadChunkLength);
                            Some(n)
                        },
                        Some(len) => {
                            let avail = n - next;
                            if avail < 2 || avail - 2 < len {
                                None
                            } else if len == 0 {
                                self.state = DecoderState::Finished;
                                Some(n)
                            } else {
                                append_range(&mut self.content, buf.as_slice(), next, next + len);
                                proof {
                                    let rest = buf@.skip(next as int);
                                    assert(buf@.subrange(next as int, next + len) =~= rest.take(
                                        len as int,
                                    ));
                                    assert(buf@.skip(next + len + 2) =~= rest.skip(len + 2));
                                }
                                Some(next + len + 2)
                            }
                        },
                    }
                }
            },
        }
    }

    /// Consumes one line of the status line and headers: `line`, whose end
    /// stands just before `buf[next..]`.
    fn header_step(&mut self, buf: &Vec<u8>, line: &[u8], next: usize)
        requires
            old(self).state == DecoderState::Headers,
            next <= buf@.len(),
        ensures
            forall|p: Seq<u8>|
                final(self).model_at(buf@, next as int) == #[trigger] old(self).model_with(
                    p,
                ).step_line(line@, buf@.skip(next as int)),
    {
        if self.code.is_none() {
            match read_status_line(line) {
                Ok(c) => {
                    self.code = Some(c);
                },
                Err(f) => {
                    self.fail(f);
                },
            }
        } else if line.len() == 0 {
            if self.encoding.is_chunked() {
                self.state = DecoderState::ChunkedContent;
            } else {
                match self.content_len {
                    Some(len) => {
                        if len == 0 {
                            self.state = DecoderState::Finished;
                        } else {
                            self.state = DecoderState::Content;
                        }
                    },
                    None => {
                        let mut body: Vec<u8> = Vec::new();
                        append_range(&mut body, buf.as_slice(), next, buf.len());
                        assert(body@ =~= buf@.skip(next as int));
                        self.content = body;
                        self.state = DecoderState::Finished;
                    },
                }
            }
        } else {
            match utf8_str(line) {
                None => {
                    self.fail(Fault::HeaderNotText);
                },
                Some(s) => {
                    match Header::parse(s) {
                        Err(f) => {
                            self.fail(Fault::Header(f));
                        },
                        Ok(h) => {
                            match h {
                                Header::TransferEncoding(t) => {
                                    self.encoding = t;
                                },
                                Header::ContentLength(len) => {
                                    self.content_len = Some(len);
                                },
                                _ => {},
                            }
                            let ghost before = header_views(self.headers@);
                            let ghost hv = h@;
                            self.headers.push(h);
                            assert(header_views(self.headers@) =~= before.push(hv));
                        },
                    }
                },
            }
        }
    }

    /// Hands out the response once it has been read to its end, and makes
    /// the decoder fresh for the next one. Before that, and after a failure,
    /// there is no response and the decoder stays as it is.
    pub fn get_resp(&mut self) -> (res: Option<Response>)
        ensures
            match res {
                Some(r) => {
                    &&& old(self)@.state == DecoderState::Finished
                    &&& old(self)@.response() == Some(r@)
                    &&& final(self)@ == DecoderModel::fresh()
                },
                None => old(self)@.state != DecoderState::Finished && final(self)@ == old(self)@,
            },
    {
        match self.state {
            DecoderState::Finished => {},
            _ => {
                return None;
            },
        }
        let code = match self.code {
            Some(c) => c,
            None => 0,
        };
        let mut headers: Vec<Header> = Vec::new();
        let mut body: Vec<u8> = Vec::new();
        std::mem::swap(&mut headers, &mut self.headers);
        std::mem::swap(&mut body, &mut self.content);
        let content = if body.len() == 0 {
            None
        } else {
            Some(body)
        };
        let resp = Response::assemble(code, headers, content);
        self.encoding = TrfrEncodingType::NoEncoding;
        self.state = DecoderState::Headers;
        self.code = None;
        self.content_len = None;
        self.pending = Vec::new();
        self.fault = None;
        assert(header_views(self.headers@) =~= Seq::empty());
        Some(resp)
    }
}

/// The response that a buffer holds from its first byte, or why it holds
/// none: what the decoder refuses is refused; a buffer that ends before its
/// status line does is empty; one that ends before the response does is
/// incomplete.
pub open spec fn parse_whole(data: Seq<u8>) -> Result<ResponseView, HttpResErrView> {
    let d = DecoderModel::fresh().feed(data);
    match d.fault {
        Some(f) => Err(f.error()),
        None => match d.response() {
            Some(r) => Ok(r),
            None => if d.code is None {
                Err(HttpResErrView::Empty)
            } else {
                Err(HttpResErrView::InvalidBody("response is incomplete"@))
            },
        },
    }
}

impl Response {
    /// Decodes the response that `data` holds from its first byte.
    pub fn new(data: Vec<u8>) -> (res: Result<Response, HttpResErr>)
        ensures
            match parse_whole(data@) {
                Ok(r) => res matches Ok(x) && x@ == r,
                Err(e) => res matches Err(x) && x@ == e,
            },
    {
        let mut decoder = DataDecoder::new();
        match decoder.decode(data.as_slice()) {
            Err(e) => Err(e),
            Ok(()) => {
                let started = decoder.code.is_some();
                match decoder.get_resp() {
                    Some(r) => Ok(r),
                    None => {
                        if started {
                            Err(HttpResErr::InvalidBody("response is incomplete"))
                        } else {
                            Err(HttpResErr::Empty)
                        }
                    },
                }
            },
        }
    }
}

} // verus!
