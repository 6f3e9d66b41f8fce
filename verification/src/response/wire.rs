//! Responses on the wire, and what the decoder makes of them.
//!
//! A response is a status line, header lines, a blank line, and a body that
//! is either as long as `Content-Length` says or a run of chunk records.
//! The laws of this module say that the decoder, fed such bytes from a
//! fresh state, ends with exactly the response that the bytes spell out.

use vstd::prelude::*;
use vstd::utf8::valid_utf8;
use crate::headers::parse_header;
use crate::headers::HeaderView;
use crate::response::laws::chunked_wire;
use crate::response::laws::is_chunked_body;
use crate::response::laws::lemma_chunked_body;
use crate::response::laws::lemma_fragmentation_invariance;
use crate::response::laws::lemma_front_line_of;
use crate::response::model::concat;
use crate::response::model::lemma_run_step;
use crate::response::model::lemma_run_stuck;
use crate::response::model::lemma_step_shrinks;
use crate::response::model::parse_status_line;
use crate::response::model::DecoderModel;
use crate::response::model::DecoderState;
use crate::response::ResponseView;
use crate::scan::first_index_of;
use crate::scan::lemma_first_index_found;
use crate::scan::lemma_first_index_none;
use crate::scan::CR;
use crate::scan::LF;

verus! {

/// `l` can stand as a status line: it holds no carriage return and a
/// status code can be read from it.
pub open spec fn is_status_line(l: Seq<u8>) -> bool {
    first_index_of(l, CR) is None && parse_status_line(l) is Ok
}

/// `l` can stand as a header line: it holds no carriage return, is not
/// empty, and denotes a header.
pub open spec fn is_header_line(l: Seq<u8>) -> bool {
    first_index_of(l, CR) is None && l.len() > 0 && valid_utf8(l) && parse_header(l) is Ok
}

/// Every line of `lines` can stand as a header line.
pub open spec fn are_header_lines(lines: Seq<Seq<u8>>) -> bool {
    forall|i: int| 0 <= i < lines.len() ==> #[trigger] is_header_line(lines[i])
}

/// The headers that the lines denote, in their order.
pub open spec fn headers_of(lines: Seq<Seq<u8>>) -> Seq<HeaderView> {
    Seq::new(lines.len(), |i: int| parse_header(lines[i])->Ok_0)
}

/// The lines on the wire, each with its line end.
pub open spec fn lines_wire(lines: Seq<Seq<u8>>) -> Seq<u8>
    decreases lines.len(),
{
    if lines.len() == 0 {
        Seq::empty()
    } else {
        lines[0] + seq![CR, LF] + lines_wire(lines.drop_first())
    }
}

/// The head of a response on the wire: the status line, the header lines,
/// and the blank line.
pub open spec fn head_wire(status: Seq<u8>, lines: Seq<Seq<u8>>) -> Seq<u8> {
    status + seq![CR, LF] + lines_wire(lines) + seq![CR, LF]
}

impl DecoderModel {
    /// The decoder after the headers `hs` have been read, in their order.
    pub open spec fn apply_headers(self, hs: Seq<HeaderView>) -> DecoderModel
        decreases hs.len(),
    {
        if hs.len() == 0 {
            self
        } else {
            self.apply_header(hs[0]).apply_headers(hs.drop_first())
        }
    }

    /// The decoder that has read the head of a response: its status code
    /// and its headers.
    pub open spec fn after_head(code: u16, hs: Seq<HeaderView>) -> DecoderModel {
        (DecoderModel { code: Some(code), ..DecoderModel::fresh() }).apply_headers(hs)
    }
}

/// Reading headers changes nothing but the list of headers, the transfer
/// encoding and the declared length; the headers read are added to the
/// list in their order.
pub proof fn lemma_apply_headers(m: DecoderModel, hs: Seq<HeaderView>)
    ensures
        m.apply_headers(hs) == (DecoderModel {
            headers: m.headers + hs,
            encoding: m.apply_headers(hs).encoding,
            content_len: m.apply_headers(hs).content_len,
            ..m
        }),
    decreases hs.len(),
{
    if hs.len() == 0 {
        assert(m.headers + hs =~= m.headers);
    } else {
        let m1 = m.apply_header(hs[0]);
        lemma_apply_headers(m1, hs.drop_first());
        assert(m.headers.push(hs[0]) + hs.drop_first() =~= m.headers + hs);
    }
}

/// A decoder that stands behind the status line reads header lines and the
/// blank line as the headers that the lines denote, and then turns to the
/// body.
pub proof fn lemma_header_block(m: DecoderModel, lines: Seq<Seq<u8>>, rest: Seq<u8>)
    requires
        m.state == DecoderState::Headers,
        m.code is Some,
        m.pending.len() == 0,
        are_header_lines(lines),
    ensures
        m.feed(lines_wire(lines) + seq![CR, LF] + rest) == m.apply_headers(
            headers_of(lines),
        ).begin_body(rest).run(),
    decreases lines.len(),
{
    let wire = lines_wire(lines) + seq![CR, LF] + rest;
    let mb = m.append(wire);
    assert(m.pending + wire =~= wire);
    if lines.len() == 0 {
        let blank = Seq::<u8>::empty();
        lemma_first_index_none(blank, CR);
        assert(wire =~= blank + seq![CR, LF] + rest);
        lemma_front_line_of(blank, LF, rest);
        assert(mb.step() == Some(mb.step_line(blank, rest)));
        lemma_run_step(mb);
        assert(headers_of(lines) =~= Seq::<HeaderView>::empty());
    } else {
        let l0 = lines[0];
        let ls = lines.drop_first();
        let after = lines_wire(ls) + seq![CR, LF] + rest;
        assert(is_header_line(l0));
        assert(wire =~= l0 + seq![CR, LF] + after);
        lemma_front_line_of(l0, LF, after);
        assert(mb.step() == Some(mb.step_line(l0, after)));
        lemma_run_step(mb);
        let h0 = parse_header(l0)->Ok_0;
        let m1 = m.apply_header(h0);
        assert(m1.append(after) == mb.step().unwrap()) by {
            assert(m1.pending + after =~= after);
        }
        assert(are_header_lines(ls)) by {
            assert forall|i: int| 0 <= i < ls.len() implies #[trigger] is_header_line(ls[i]) by {
                assert(is_header_line(lines[i + 1]));
            }
        }
        lemma_header_block(m1, ls, rest);
        assert(headers_of(lines).drop_first() =~= headers_of(ls));
        assert(headers_of(lines)[0] == h0);
    }
}

/// A fresh decoder reads the head of a response as its status code and its
/// headers, and then turns to the body.
pub proof fn lemma_head(status: Seq<u8>, lines: Seq<Seq<u8>>, rest: Seq<u8>)
    requires
        is_status_line(status),
        are_header_lines(lines),
    ensures
        DecoderModel::fresh().feed(head_wire(status, lines) + rest) == DecoderModel::after_head(
            parse_status_line(status)->Ok_0,
            headers_of(lines),
        ).begin_body(rest).run(),
{
    let code = parse_status_line(status)->Ok_0;
    let after = lines_wire(lines) + seq![CR, LF] + rest;
    let wire = head_wire(status, lines) + rest;
    let m = DecoderModel::fresh();
    let mb = m.append(wire);
    assert(m.pending + wire =~= wire);
    assert(wire =~= status + seq![CR, LF] + after);
    lemma_front_line_of(status, LF, after);
    assert(mb.step() == Some(mb.step_line(status, after)));
    lemma_run_step(mb);
    let m1 = DecoderModel { code: Some(code), ..m };
    assert(m1.append(after) == mb.step().unwrap()) by {
        assert(m1.pending + after =~= after);
    }
    lemma_header_block(m1, lines, rest);
}

/// The response that a head and a body make.
pub open spec fn response_of(code: u16, hs: Seq<HeaderView>, body: Seq<u8>) -> ResponseView {
    ResponseView {
        code,
        headers: hs,
        content: if body.len() == 0 {
            None
        } else {
            Some(body)
        },
    }
}

/// A response whose headers declare a length, and no chunked framing, is
/// decoded as its status code, its headers, and the bytes of its body; what
/// follows the body is left aside.
pub proof fn lemma_response_with_length(
    status: Seq<u8>,
    lines: Seq<Seq<u8>>,
    body: Seq<u8>,
    tail: Seq<u8>,
)
    requires
        is_status_line(status),
        are_header_lines(lines),
        ({
            let head = DecoderModel::after_head(parse_status_line(status)->Ok_0, headers_of(lines));
            !head.encoding.chunked() && head.content_len == Some(body.len() as usize)
                && body.len() <= usize::MAX
        }),
    ensures
        ({
            let end = DecoderModel::fresh().feed(head_wire(status, lines) + body + tail);
            &&& end.state == DecoderState::Finished
            &&& end.response() == Some(
                response_of(parse_status_line(status)->Ok_0, headers_of(lines), body),
            )
        }),
{
    let code = parse_status_line(status)->Ok_0;
    let hs = headers_of(lines);
    let head = DecoderModel::after_head(code, hs);
    let rest = body + tail;
    assert(head_wire(status, lines) + body + tail =~= head_wire(status, lines) + rest);
    lemma_head(status, lines, rest);
    lemma_apply_headers(DecoderModel { code: Some(code), ..DecoderModel::fresh() }, hs);
    assert(Seq::<HeaderView>::empty() + hs =~= hs);
    let b = head.begin_body(rest);
    if body.len() == 0 {
        lemma_run_stuck(b);
    } else {
        assert(rest.take(body.len() as int) =~= body);
        assert(Seq::<u8>::empty() + body =~= body);
        lemma_run_step(b);
        lemma_run_stuck(b.step().unwrap());
    }
}

/// A response whose headers declare chunked framing is decoded as its
/// status code, its headers, and the payloads of its chunk records, one
/// after the other.
pub proof fn lemma_response_chunked(
    status: Seq<u8>,
    lines: Seq<Seq<u8>>,
    fields: Seq<Seq<u8>>,
    payloads: Seq<Seq<u8>>,
    last: Seq<u8>,
    tail: Seq<u8>,
)
    requires
        is_status_line(status),
        are_header_lines(lines),
        DecoderModel::after_head(
            parse_status_line(status)->Ok_0,
            headers_of(lines),
        ).encoding.chunked(),
        is_chunked_body(fields, payloads, last),
    ensures
        ({
            let end = DecoderModel::fresh().feed(
                head_wire(status, lines) + chunked_wire(fields, payloads, last, tail),
            );
            &&& end.state == DecoderState::Finished
            &&& end.response() == Some(
                response_of(parse_status_line(status)->Ok_0, headers_of(lines), concat(payloads)),
            )
        }),
{
    let code = parse_status_line(status)->Ok_0;
    let hs = headers_of(lines);
    let head = DecoderModel::after_head(code, hs);
    let rest = chunked_wire(fields, payloads, last, tail);
    lemma_head(status, lines, rest);
    lemma_apply_headers(DecoderModel { code: Some(code), ..DecoderModel::fresh() }, hs);
    assert(Seq::<HeaderView>::empty() + hs =~= hs);
    let b = DecoderModel { state: DecoderState::ChunkedContent, ..head };
    assert(head.begin_body(rest) == b.append(rest)) by {
        assert(b.pending + rest =~= rest);
    }
    lemma_chunked_body(b, fields, payloads, last, tail);
    assert(Seq::<u8>::empty() + concat(payloads) =~= concat(payloads));
}

/// Fragmentation invariance for responses with a declared length: in
/// whatever pieces the bytes of such a response are fed to a fresh decoder,
/// it ends with the response that the bytes spell out.
pub proof fn lemma_response_with_length_in_parts(
    status: Seq<u8>,
    lines: Seq<Seq<u8>>,
    body: Seq<u8>,
    tail: Seq<u8>,
    parts: Seq<Seq<u8>>,
)
    requires
        is_status_line(status),
        are_header_lines(lines),
        ({
            let head = DecoderModel::after_head(parse_status_line(status)->Ok_0, headers_of(lines));
            !head.encoding.chunked() && head.content_len == Some(body.len() as usize)
                && body.len() <= usize::MAX
        }),
        concat(parts) == head_wire(status, lines) + body + tail,
    ensures
        DecoderModel::fresh().feed_all(parts).response() == Some(
            response_of(parse_status_line(status)->Ok_0, headers_of(lines), body),
        ),
{
    lemma_response_with_length(status, lines, body, tail);
    let m = DecoderModel::fresh();
    lemma_first_index_found(m.pending, CR);
    lemma_head_keeps_framing(status, lines, body + tail);
    assert(head_wire(status, lines) + body + tail =~= head_wire(status, lines) + (body + tail));
    lemma_fragmentation_invariance(m, parts);
}

/// Fragmentation invariance for chunked responses: in whatever pieces the
/// bytes of such a response are fed to a fresh decoder, it ends with the
/// response that the bytes spell out.
pub proof fn lemma_response_chunked_in_parts(
    status: Seq<u8>,
    lines: Seq<Seq<u8>>,
    fields: Seq<Seq<u8>>,
    payloads: Seq<Seq<u8>>,
    last: Seq<u8>,
    tail: Seq<u8>,
    parts: Seq<Seq<u8>>,
)
    requires
        is_status_line(status),
        are_header_lines(lines),
        DecoderModel::after_head(
            parse_status_line(status)->Ok_0,
            headers_of(lines),
        ).encoding.chunked(),
        is_chunked_body(fields, payloads, last),
        concat(parts) == head_wire(status, lines) + chunked_wire(fields, payloads, last, tail),
    ensures
        DecoderModel::fresh().feed_all(parts).response() == Some(
            response_of(parse_status_line(status)->Ok_0, headers_of(lines), concat(payloads)),
        ),
{
    lemma_response_chunked(status, lines, fields, payloads, last, tail);
    let m = DecoderModel::fresh();
    lemma_first_index_found(m.pending, CR);
    lemma_head_keeps_framing(status, lines, chunked_wire(fields, payloads, last, tail));
    lemma_fragmentation_invariance(m, parts);
}

/// The decoder that has been fed a whole head carries the length and the
/// encoding that the head declares.
proof fn lemma_head_keeps_framing(status: Seq<u8>, lines: Seq<Seq<u8>>, rest: Seq<u8>)
    requires
        is_status_line(status),
        are_header_lines(lines),
    ensures
        ({
            let head = DecoderModel::after_head(parse_status_line(status)->Ok_0, headers_of(lines));
            let end = DecoderModel::fresh().feed(head_wire(status, lines) + rest);
            (head.content_len is Some || head.encoding.chunked()) ==> !end.unframed()
        }),
{
    let head = DecoderModel::after_head(parse_status_line(status)->Ok_0, headers_of(lines));
    lemma_head(status, lines, rest);
    lemma_run_keeps_framing(head.begin_body(rest));
}

/// Running changes neither the declared length nor the encoding, unless the
/// decoder fails.
proof fn lemma_run_keeps_framing(m: DecoderModel)
    requires
        m.state != DecoderState::Headers,
    ensures
        m.run().state == DecoderState::Error || (m.run().content_len == m.content_len
            && m.run().encoding == m.encoding),
        m.run().state != DecoderState::Headers,
        m.terminal() ==> m.run() == m,
    decreases m.pending.len(),
{
    if m.step() is Some {
        lemma_step_shrinks(m);
        lemma_run_step(m);
        lemma_run_keeps_framing(m.step().unwrap());
    } else {
        lemma_run_stuck(m);
    }
}

} // verus!
