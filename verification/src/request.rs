//! Requests: the method, the list of headers, and the builder that puts a
//! request on the wire.

use vstd::prelude::*;
use vstd::string::StringSliceAdditionalSpecFns;
use crate::scan::append_range;

verus! {

/// The request methods.
#[derive(Debug, PartialEq, Eq, Clone, Copy, Structural)]
pub enum Method {
    GET,
    PUT,
    POST,
    HEAD,
    PATCH,
    OPTIONS,
    CONNECT,
}

impl Method {
    /// The bytes that open a request line: the method's name and a space.
    pub open spec fn wire(self) -> Seq<u8> {
        match self {
            Method::GET => "GET ".spec_bytes(),
            Method::PUT => "PUT ".spec_bytes(),
            Method::POST => "POST ".spec_bytes(),
            Method::HEAD => "HEAD ".spec_bytes(),
            Method::PATCH => "PATCH ".spec_bytes(),
            Method::OPTIONS => "OPTIONS ".spec_bytes(),
            Method::CONNECT => "CONNECT ".spec_bytes(),
        }
    }

    /// The bytes that open a request line: the method's name and a space.
    pub fn bytes(&self) -> (b: &'static [u8])
        ensures
            b@ == self.wire(),
    {
        match *self {
            Method::GET => "GET ".as_bytes(),
            Method::PUT => "PUT ".as_bytes(),
            Method::POST => "POST ".as_bytes(),
            Method::HEAD => "HEAD ".as_bytes(),
            Method::PATCH => "PATCH ".as_bytes(),
            Method::OPTIONS => "OPTIONS ".as_bytes(),
            Method::CONNECT => "CONNECT ".as_bytes(),
        }
    }
}

/// A header of a request as a mathematical value: the bytes of its name and
/// of its value.
pub type Field = (Seq<u8>, Seq<u8>);

/// The name and value of a header as bytes.
pub open spec fn field_of(h: (&str, &str)) -> Field {
    (h.0.spec_bytes(), h.1.spec_bytes())
}

/// The headers of a list as bytes.
pub open spec fn fields_of(s: Seq<(&str, &str)>) -> Seq<Field> {
    Seq::new(s.len(), |i: int| field_of(s[i]))
}

/// An ordered list of request headers, each a name and a value.
#[derive(Debug)]
pub struct HeaderList<'h> {
    hdr: Vec<(&'h str, &'h str)>,
}

impl<'h> View for HeaderList<'h> {
    type V = Seq<Field>;

    closed spec fn view(&self) -> Seq<Field> {
        fields_of(self.hdr@)
    }
}

impl<'h> HeaderList<'h> {
    /// Creates an empty list.
    pub fn new() -> (l: Self)
        ensures
            l@ == Seq::<Field>::empty(),
    {
        let l = Self { hdr: Vec::new() };
        assert(fields_of(l.hdr@) =~= Seq::<Field>::empty());
        l
    }

    /// The number of headers in the list.
    pub fn len(&self) -> (n: usize)
        ensures
            n == self@.len(),
    {
        self.hdr.len()
    }

    /// Adds a header at the end of the list.
    pub fn put(&mut self, hdr: (&'h str, &'h str))
        ensures
            final(self)@ == old(self)@.push(field_of(hdr)),
    {
        self.hdr.push(hdr);
        assert(fields_of(self.hdr@) =~= fields_of(old(self).hdr@).push(field_of(hdr)));
    }

    /// The headers of the list, in their order.
    pub fn header_slice(&self) -> (s: &[(&'h str, &'h str)])
        ensures
            fields_of(s@) == self@,
    {
        self.hdr.as_slice()
    }

    /// The header at `index`, if the list is that long.
    pub fn get(&self, index: usize) -> (res: Option<(&'h str, &'h str)>)
        ensures
            match res {
                Some(h) => index < self@.len() && field_of(h) == self@[index as int],
                None => index >= self@.len(),
            },
    {
        if index >= self.hdr.len() {
            return None;
        }
        Some(self.hdr[index])
    }

    /// A cursor that stands before the first header of the list.
    pub fn iter<'i>(&'i self) -> (it: HdrListIter<'i, 'h>)
        ensures
            it.position() == 0,
            it.list() == self@,
    {
        HdrListIter { pos: 0, hdrs: self }
    }
}

/// A cursor over the headers of a list.
pub struct HdrListIter<'i, 'h> {
    pos: usize,
    hdrs: &'i HeaderList<'h>,
}

impl<'i, 'h> HdrListIter<'i, 'h> {
    /// The number of headers that the cursor has passed.
    pub closed spec fn position(&self) -> nat {
        self.pos as nat
    }

    /// The headers of the list that the cursor walks.
    pub closed spec fn list(&self) -> Seq<Field> {
        self.hdrs@
    }

    /// Hands out the header at the cursor and moves past it, or returns
    /// `None` at the end of the list.
    pub fn next(&mut self) -> (res: Option<(&'h str, &'h str)>)
        ensures
            final(self).list() == old(self).list(),
            match res {
                Some(h) => {
                    &&& old(self).position() < old(self).list().len()
                    &&& field_of(h) == old(self).list()[old(self).position() as int]
                    &&& final(self).position() == old(self).position() + 1
                },
                None => {
                    &&& old(self).position() >= old(self).list().len()
                    &&& final(self).position() == old(self).position()
                },
            },
    {
        if self.pos >= self.hdrs.len() {
            return None;
        }
        let item = self.hdrs.get(self.pos);
        self.pos += 1;
        item
    }
}

/// The line that carries one header: its name, `": "`, its value, and a
/// line end.
pub open spec fn field_line(f: Field) -> Seq<u8> {
    f.0 + ": ".spec_bytes() + f.1 + "\r\n".spec_bytes()
}

/// The lines of a run of headers, in their order.
pub open spec fn field_lines(fields: Seq<Field>) -> Seq<u8>
    decreases fields.len(),
{
    if fields.len() == 0 {
        Seq::empty()
    } else {
        field_lines(fields.drop_last()) + field_line(fields.last())
    }
}

/// A request in construction as a mathematical value.
pub struct RequestView {
    pub method: Method,
    pub route: Option<Seq<u8>>,
    pub headers: Option<Seq<Field>>,
    pub extra_headers: Option<Seq<Field>>,
    pub content: Option<Seq<u8>>,
}

impl RequestView {
    /// The request on the wire: the request line with `/` for a missing
    /// route, the default headers, the extra headers, a blank line, and the
    /// body.
    pub open spec fn wire(self) -> Seq<u8> {
        self.method.wire() + (match self.route {
            Some(r) => r,
            None => "/".spec_bytes(),
        }) + " HTTP/1.1\r\n".spec_bytes() + (match self.headers {
            Some(h) => field_lines(h),
            None => Seq::empty(),
        }) + (match self.extra_headers {
            Some(h) => field_lines(h),
            None => Seq::empty(),
        }) + "\r\n".spec_bytes() + (match self.content {
            Some(c) => c,
            None => Seq::empty(),
        })
    }
}

/// Builds a request piece by piece.
#[derive(Debug)]
pub struct ReqBuilder<'b> {
    method: Method,
    route: Option<&'b str>,
    headers: Option<&'b [(&'b str, &'b str)]>,
    extra_headers: Option<HeaderList<'b>>,
    content: Option<&'b [u8]>,
}

impl<'b> View for ReqBuilder<'b> {
    type V = RequestView;

    closed spec fn view(&self) -> RequestView {
        RequestView {
            method: self.method,
            route: match self.route {
                Some(r) => Some(r.spec_bytes()),
                None => None,
            },
            headers: match self.headers {
                Some(h) => Some(fields_of(h@)),
                None => None,
            },
            extra_headers: match self.extra_headers {
                Some(h) => Some(h@),
                None => None,
            },
            content: match self.content {
                Some(c) => Some(c@),
                None => None,
            },
        }
    }
}

/// Appends the lines of `fields` to `req`.
fn write_fields(req: &mut Vec<u8>, fields: &[(&str, &str)])
    ensures
        final(req)@ == old(req)@ + field_lines(fields_of(fields@)),
{
    let mut i: usize = 0;
    assert(fields_of(fields@).take(0) =~= Seq::<Field>::empty());
    while i < fields.len()
        invariant
            i <= fields@.len(),
            req@ == old(req)@ + field_lines(fields_of(fields@).take(i as int)),
        decreases fields@.len() - i,
    {
        let (k, v) = fields[i];
        let ghost before = req@;
        let ghost upto = fields_of(fields@).take(i + 1);
        assert(upto.drop_last() =~= fields_of(fields@).take(i as int));
        assert(upto.last() == field_of(fields@[i as int]));
        write_bytes(req, k.as_bytes());
        write_bytes(req, ": ".as_bytes());
        write_bytes(req, v.as_bytes());
        write_bytes(req, "\r\n".as_bytes());
        assert(req@ =~= before + field_line(field_of(fields@[i as int])));
        i += 1;
        assert(req@ =~= old(req)@ + field_lines(upto));
    }
    assert(fields_of(fields@).take(i as int) =~= fields_of(fields@));
}

/// Appends `src` to `dst`.
fn write_bytes(dst: &mut Vec<u8>, src: &[u8])
    ensures
        final(dst)@ == old(dst)@ + src@,
{
    append_range(dst, src, 0, src.len());
    assert(src@.subrange(0, src@.len() as int) =~= src@);
}

impl<'b> ReqBuilder<'b> {
    /// Starts a request with the given method, without route, headers or
    /// body.
    pub fn new(method: Method) -> (r: Self)
        ensures
            r@ == (RequestView {
                method,
                route: None,
                headers: None,
                extra_headers: None,
                content: None,
            }),
    {
        Self { method, route: None, headers: None, extra_headers: None, content: None }
    }

    /// Sets the default headers, which come first on the wire.
    pub fn default_headers(&mut self, headers: Option<&'b [(&'b str, &'b str)]>) -> (ret: &mut Self)
        ensures
            ret@ == (RequestView {
                headers: match headers {
                    Some(h) => Some(fields_of(h@)),
                    None => None,
                },
                ..old(self)@
            }),
            *final(self) == *final(ret),
    {
        self.headers = headers;
        self
    }

    /// Sets the route of the request line.
    pub fn set_route(&mut self, route: &'b str) -> (ret: &mut Self)
        ensures
            ret@ == (RequestView { route: Some(route.spec_bytes()), ..old(self)@ }),
            *final(self) == *final(ret),
    {
        self.route = Some(route);
        self
    }

    /// Sets the body.
    pub fn set_content(&mut self, content: &'b [u8]) -> (ret: &mut Self)
        ensures
            ret@ == (RequestView { content: Some(content@), ..old(self)@ }),
            *final(self) == *final(ret),
    {
        self.content = Some(content);
        self
    }

    /// Adds headers behind the extra headers that the request has.
    pub fn add_headers(&mut self, headers: &[(&'b str, &'b str)]) -> (ret: &mut Self)
        ensures
            ret@ == (RequestView {
                extra_headers: Some(
                    (match old(self)@.extra_headers {
                        Some(h) => h,
                        None => Seq::empty(),
                    }) + fields_of(headers@),
                ),
                ..old(self)@
            }),
            *final(self) == *final(ret),
    {
        let mut list = match self.extra_headers.take() {
            Some(l) => l,
            None => HeaderList::new(),
        };
        let ghost start = list@;
        let mut i: usize = 0;
        while i < headers.len()
            invariant
                i <= headers@.len(),
                list@ == start + fields_of(headers@).take(i as int),
            decreases headers@.len() - i,
        {
            list.put(headers[i]);
            i += 1;
            assert(list@ =~= start + fields_of(headers@).take(i as int));
        }
        assert(fields_of(headers@).take(i as int) =~= fields_of(headers@));
        self.extra_headers = Some(list);
        self
    }

    /// Puts the request on the wire.
    pub fn construct(self) -> (req: Vec<u8>)
        ensures
            req@ == self@.wire(),
    {
        let mut req: Vec<u8> = Vec::with_capacity(8192);
        write_bytes(&mut req, self.method.bytes());
        match self.route {
            None => {
                write_bytes(&mut req, "/".as_bytes());
            },
            Some(route) => {
                write_bytes(&mut req, route.as_bytes());
            },
        }
        write_bytes(&mut req, " HTTP/1.1\r\n".as_bytes());
        match self.headers {
            None => {
                assert(req@ + Seq::<u8>::empty() =~= req@);
            },
            Some(slice) => {
                write_fields(&mut req, slice);
            },
        }
        match &self.extra_headers {
            None => {
                assert(req@ + Seq::<u8>::empty() =~= req@);
            },
            Some(list) => {
                write_fields(&mut req, list.header_slice());
            },
        }
        write_bytes(&mut req, "\r\n".as_bytes());
        match self.content {
            Some(content) => {
                write_bytes(&mut req, content);
            },
            None => {
                assert(req@ + Seq::<u8>::empty() =~= req@);
            },
        }
        req
    }
}

} // verus!
