//! Responses and the incremental decoder that reads them.

pub mod decoder;
pub mod laws;
pub mod model;
pub mod wire;

use vstd::prelude::*;
use crate::headers::Header;
use crate::headers::HeaderView;
use crate::response::model::Fault;

verus! {

/// Errors related to parsing a response.
#[derive(Debug)]
pub enum HttpResErr {
    /// The status line is empty.
    Empty,
    /// A header line could not be read.
    InvalidHeader(String),
    /// The status line could not be read.
    InvalidFirstLine(String),
    /// The body could not be read.
    InvalidBody(&'static str),
}

/// A parse error as a mathematical value.
pub enum HttpResErrView {
    Empty,
    InvalidHeader(Seq<char>),
    InvalidFirstLine(Seq<char>),
    InvalidBody(Seq<char>),
}

impl View for HttpResErr {
    type V = HttpResErrView;

    open spec fn view(&self) -> HttpResErrView {
        match *self {
            HttpResErr::Empty => HttpResErrView::Empty,
            HttpResErr::InvalidHeader(s) => HttpResErrView::InvalidHeader(s@),
            HttpResErr::InvalidFirstLine(s) => HttpResErrView::InvalidFirstLine(s@),
            HttpResErr::InvalidBody(s) => HttpResErrView::InvalidBody(s@),
        }
    }
}

impl Fault {
    /// The error that reports this fault.
    pub open spec fn error(self) -> HttpResErrView {
        match self {
            Fault::EmptyStatusLine => HttpResErrView::Empty,
            Fault::ShortStatusLine => HttpResErrView::InvalidFirstLine(
                "status line is too short"@,
            ),
            Fault::BadStatusCode => HttpResErrView::InvalidFirstLine(
                "status code is not a number"@,
            ),
            Fault::HeaderNotText => HttpResErrView::InvalidHeader(
                "couldn't read first line of response"@,
            ),
            Fault::Header(f) => HttpResErrView::InvalidHeader(f.message()),
            Fault::BadChunkLength => HttpResErrView::InvalidBody(
                "couldn't read hex length of chunk"@,
            ),
        }
    }

    /// Makes the error that reports this fault.
    pub fn to_error(&self) -> (e: HttpResErr)
        ensures
            e@ == self.error(),
    {
        match self {
            Fault::EmptyStatusLine => HttpResErr::Empty,
            Fault::ShortStatusLine => HttpResErr::InvalidFirstLine(
                "status line is too short".to_owned(),
            ),
            Fault::BadStatusCode => HttpResErr::InvalidFirstLine(
                "status code is not a number".to_owned(),
            ),
            Fault::HeaderNotText => HttpResErr::InvalidHeader(
                "couldn't read first line of response".to_owned(),
            ),
            Fault::Header(f) => HttpResErr::InvalidHeader(f.text().to_owned()),
            Fault::BadChunkLength => HttpResErr::InvalidBody("couldn't read hex length of chunk"),
        }
    }
}

/// The headers of a list as mathematical values.
pub open spec fn header_views(v: Seq<Header>) -> Seq<HeaderView> {
    Seq::new(v.len(), |i: int| v[i]@)
}

/// The class of a status code.
#[derive(Debug, PartialEq, Eq, Clone, Copy, Structural)]
pub enum ResponseType {
    Informational,
    Successful,
    Redirection,
    ClientError,
    ServerError,
}

/// A decoded HTTP/1.x response.
#[derive(Debug)]
pub struct Response {
    code: u16,
    headers: Vec<Header>,
    content: Option<Vec<u8>>,
}

/// A response as a mathematical value.
pub struct ResponseView {
    pub code: u16,
    pub headers: Seq<HeaderView>,
    pub content: Option<Seq<u8>>,
}

impl View for Response {
    type V = ResponseView;

    closed spec fn view(&self) -> ResponseView {
        ResponseView {
            code: self.code,
            headers: header_views(self.headers@),
            content: match self.content {
                Some(v) => Some(v@),
                None => None,
            },
        }
    }
}

impl Response {
    /// A response that stands for none: status 100, no header, no body.
    pub fn dummy() -> (r: Self)
        ensures
            r@ == (ResponseView { code: 100, headers: Seq::empty(), content: None }),
    {
        let r = Self { code: 100, headers: Vec::new(), content: None };
        assert(header_views(r.headers@) =~= Seq::empty());
        r
    }

    /// Puts a response together from its parts.
    pub(crate) fn assemble(code: u16, headers: Vec<Header>, content: Option<Vec<u8>>) -> (r: Self)
        ensures
            r@ == (ResponseView {
                code,
                headers: header_views(headers@),
                content: match content {
                    Some(v) => Some(v@),
                    None => None,
                },
            }),
    {
        Self { code, headers, content }
    }

    /// The status code.
    pub fn code(&self) -> (c: u16)
        ensures
            c == self@.code,
    {
        self.code
    }

    /// The headers, in the order in which they arrived.
    pub fn headers(&self) -> (h: &[Header])
        ensures
            header_views(h@) == self@.headers,
    {
        self.headers.as_slice()
    }

    /// The body, if the response has one.
    pub fn content(&self) -> (c: Option<&[u8]>)
        ensures
            match c {
                Some(s) => self@.content == Some(s@),
                None => self@.content is None,
            },
    {
        match &self.content {
            Some(v) => Some(v.as_slice()),
            None => None,
        }
    }

    /// The class of a status code up to 599.
    pub open spec fn class_of(code: u16) -> ResponseType {
        if code <= 199 {
            ResponseType::Informational
        } else if code <= 299 {
            ResponseType::Successful
        } else if code <= 399 {
            ResponseType::Redirection
        } else if code <= 499 {
            ResponseType::ClientError
        } else {
            ResponseType::ServerError
        }
    }

    /// The class of the status code, which must not be above 599.
    pub fn status(&self) -> (t: ResponseType)
        requires
            self@.code <= 599,
        ensures
            t == Response::class_of(self@.code),
    {
        let code = self.code;
        if code <= 199 {
            ResponseType::Informational
        } else if code <= 299 {
            ResponseType::Successful
        } else if code <= 399 {
            ResponseType::Redirection
        } else if code <= 499 {
            ResponseType::ClientError
        } else {
            ResponseType::ServerError
        }
    }
}

} // verus!
