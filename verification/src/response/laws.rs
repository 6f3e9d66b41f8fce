//! What holds of the decoder whatever bytes it is fed, and in whatever
//! pieces.

use vstd::prelude::*;
use vstd::string::StringSliceAdditionalSpecFns;
use crate::headers::first_sep;
use crate::headers::header_name;
use crate::headers::header_value;
use crate::headers::HeaderFault;
use crate::number::lemma_parse_number_bounds;
use crate::number::parse_number;
use crate::response::model::concat;
use crate::response::model::front_line;
use crate::response::model::lemma_run_step;
use crate::response::model::lemma_run_stuck;
use crate::response::model::lemma_step_shrinks;
use crate::response::model::DecoderModel;
use crate::response::model::DecoderState;
use crate::response::model::Fault;
use crate::scan::first_index_of;
use crate::scan::lemma_first_index_extend;
use crate::scan::lemma_first_index_found;
use crate::scan::lemma_first_index_is;
use crate::scan::CR;
use crate::scan::LF;

verus! {

/// A line that is complete at the front of `p` is the line at the front of
/// `p` with more bytes behind it.
pub proof fn lemma_front_line_extend(p: Seq<u8>, b: Seq<u8>)
    requires
        front_line(p) is Some,
    ensures
        front_line(p + b) == Some((front_line(p).unwrap().0, front_line(p).unwrap().1 + b)),
{
    lemma_first_index_found(p, CR);
    lemma_first_index_extend(p, b, CR);
    let i = first_index_of(p, CR).unwrap();
    assert((p + b).take(i) =~= p.take(i));
    assert((p + b).skip(i + 2) =~= p.skip(i + 2) + b);
}

/// Resuming a step of the header phase.
proof fn lemma_step_resume_headers(m: DecoderModel, b: Seq<u8>)
    requires
        m.state == DecoderState::Headers,
        m.step() is Some,
        !m.append(b).run().unframed(),
    ensures
        m.append(b).run() == m.step().unwrap().append(b).run(),
{
    let m2 = m.step().unwrap();
    let mb = m.append(b);
    lemma_front_line_extend(m.pending, b);
    let (line, rest) = front_line(m.pending).unwrap();
    assert(m2 == m.step_line(line, rest));
    assert(mb.step() == Some(mb.step_line(line, rest + b)));
    lemma_run_step(mb);
    let mb2 = mb.step_line(line, rest + b);
    if mb2.unframed() {
        lemma_run_stuck(mb2);
    } else {
        assert(mb2 == m2.append(b));
    }
}

/// Resuming a step of a body of declared length.
proof fn lemma_step_resume_content(m: DecoderModel, b: Seq<u8>)
    requires
        m.state == DecoderState::Content,
        m.step() is Some,
    ensures
        m.append(b).run() == m.step().unwrap().append(b).run(),
{
    let m2 = m.step().unwrap();
    let mb = m.append(b);
    let n = m.content_len.unwrap();
    let need = n - m.content.len();
    if m.pending.len() >= need {
        assert((m.pending + b).take(need) =~= m.pending.take(need));
        assert(mb.step() == Some(m2));
        lemma_run_step(mb);
    } else if b.len() == 0 {
        assert(m.pending + b =~= m.pending);
        assert(m2.pending + b =~= m2.pending);
        lemma_run_step(m);
    } else {
        let m2b = m2.append(b);
        assert(m2.pending + b =~= b);
        let need2 = need - m.pending.len();
        if b.len() >= need2 {
            assert((m.pending + b).take(need) =~= m.pending + b.take(need2));
            assert(m.content + (m.pending + b).take(need) =~= (m.content + m.pending) + b.take(
                need2,
            ));
        } else {
            assert(m.content + (m.pending + b) =~= (m.content + m.pending) + b);
        }
        assert(mb.step() == m2b.step());
        lemma_run_step(mb);
        lemma_run_step(m2b);
    }
}

/// Resuming a step of a chunked body.
proof fn lemma_step_resume_chunked(m: DecoderModel, b: Seq<u8>)
    requires
        m.state == DecoderState::ChunkedContent,
        m.step() is Some,
    ensures
        m.append(b).run() == m.step().unwrap().append(b).run(),
{
    let m2 = m.step().unwrap();
    let mb = m.append(b);
    lemma_front_line_extend(m.pending, b);
    let (field, rest) = front_line(m.pending).unwrap();
    lemma_parse_number_bounds(field, 16, usize::MAX as int);
    match parse_number(field, 16, usize::MAX as int) {
        None => {},
        Some(len) => {
            assert((rest + b).take(len) =~= rest.take(len));
            assert((rest + b).skip(len + 2) =~= rest.skip(len + 2) + b);
        },
    }
    assert(mb.step() == Some(m2.append(b)));
    lemma_run_step(mb);
}

/// A step that was possible stays possible when more bytes stand behind the
/// pending ones, and leads to the same end.
pub proof fn lemma_step_resume(m: DecoderModel, b: Seq<u8>)
    requires
        m.step() is Some,
        !m.append(b).run().unframed(),
    ensures
        m.append(b).run() == m.step().unwrap().append(b).run(),
{
    match m.state {
        DecoderState::Headers => lemma_step_resume_headers(m, b),
        DecoderState::Content => lemma_step_resume_content(m, b),
        DecoderState::ChunkedContent => lemma_step_resume_chunked(m, b),
        DecoderState::Finished => {},
        DecoderState::Error => {},
    }
}

/// Running, then taking more bytes and running again, ends where taking the
/// bytes first and running once ends.
pub proof fn lemma_run_resume(m: DecoderModel, b: Seq<u8>)
    requires
        !m.append(b).run().unframed(),
    ensures
        m.run().append(b).run() == m.append(b).run(),
    decreases m.pending.len(),
{
    if m.step() is Some {
        lemma_step_shrinks(m);
        lemma_step_resume(m, b);
        lemma_run_resume(m.step().unwrap(), b);
        lemma_run_step(m);
    } else {
        lemma_run_stuck(m);
    }
}

/// Two deliveries, one after the other, do what one delivery of both does,
/// unless the response declares neither a length nor chunked framing.
pub proof fn lemma_feed_append(m: DecoderModel, a: Seq<u8>, b: Seq<u8>)
    requires
        !m.feed(a + b).unframed(),
    ensures
        m.feed(a).feed(b) == m.feed(a + b),
{
    if !m.terminal() {
        assert(m.pending + (a + b) =~= (m.pending + a) + b);
    }
    assert(m.append(a).append(b) == m.append(a + b));
    lemma_run_resume(m.append(a), b);
}

/// After running, no step is possible.
pub proof fn lemma_run_settles(m: DecoderModel)
    ensures
        m.run().step() is None,
    decreases m.pending.len(),
{
    if m.step() is Some {
        lemma_step_shrinks(m);
        lemma_run_settles(m.step().unwrap());
        lemma_run_step(m);
    } else {
        lemma_run_stuck(m);
    }
}

/// Fragmentation invariance: a decoder in which no record is complete ends
/// in the same state, and holds the same response, whether it is fed the
/// bytes of `parts` piece by piece or all at once. This is stated of every
/// input but those that end a response that declares neither a length nor
/// chunked framing.
pub proof fn lemma_fragmentation_invariance(m: DecoderModel, parts: Seq<Seq<u8>>)
    requires
        m.step() is None,
        !m.feed(concat(parts)).unframed(),
    ensures
        m.feed_all(parts) == m.feed(concat(parts)),
        m.feed_all(parts).response() == m.feed(concat(parts)).response(),
    decreases parts.len(),
{
    if parts.len() == 0 {
        if !m.terminal() {
            assert(m.pending + concat(parts) =~= m.pending);
        }
        lemma_run_stuck(m);
    } else {
        let head = parts[0];
        let rest = parts.drop_first();
        lemma_feed_append(m, head, concat(rest));
        lemma_run_settles(m.append(head));
        lemma_fragmentation_invariance(m.feed(head), rest);
    }
}

/// Fragmentation invariance for a decoder that has seen no byte.
pub proof fn lemma_fresh_fragmentation_invariance(parts: Seq<Seq<u8>>)
    requires
        !DecoderModel::fresh().feed(concat(parts)).unframed(),
    ensures
        DecoderModel::fresh().feed_all(parts) == DecoderModel::fresh().feed(concat(parts)),
        DecoderModel::fresh().feed_all(parts).response() == DecoderModel::fresh().feed(
            concat(parts),
        ).response(),
{
    lemma_first_index_found(Seq::<u8>::empty(), CR);
    lemma_fragmentation_invariance(DecoderModel::fresh(), parts);
}

/// A line without carriage return, followed by a line end, is the line at
/// the front.
pub proof fn lemma_front_line_of(line: Seq<u8>, after: u8, tail: Seq<u8>)
    requires
        first_index_of(line, CR) is None,
    ensures
        front_line(line + seq![CR, after] + tail) == Some((line, tail)),
{
    let p = line + seq![CR, after] + tail;
    lemma_first_index_found(line, CR);
    assert(p[line.len() as int] == CR);
    assert forall|j: int| 0 <= j < line.len() implies p[j] != CR by {
        assert(p[j] == line[j]);
    }
    lemma_first_index_is(p, CR, line.len() as int);
    assert(p.take(line.len() as int) =~= line);
    assert(p.skip(line.len() as int + 2) =~= tail);
}

/// Steps keep a well-formed decoder well-formed.
pub proof fn lemma_step_wf(m: DecoderModel)
    requires
        m.wf(),
        m.step() is Some,
    ensures
        m.step().unwrap().wf(),
{
    lemma_first_index_found(m.pending, CR);
    if m.state == DecoderState::ChunkedContent {
        let (field, rest) = front_line(m.pending).unwrap();
        lemma_parse_number_bounds(field, 16, usize::MAX as int);
    }
}

/// Running keeps a well-formed decoder well-formed.
pub proof fn lemma_run_wf(m: DecoderModel)
    requires
        m.wf(),
    ensures
        m.run().wf(),
    decreases m.pending.len(),
{
    if m.step() is Some {
        lemma_step_shrinks(m);
        lemma_step_wf(m);
        lemma_run_wf(m.step().unwrap());
        lemma_run_step(m);
    } else {
        lemma_run_stuck(m);
    }
}

/// Every delivery keeps a well-formed decoder well-formed, and leaves it
/// with no record complete among its unconsumed bytes.
pub proof fn lemma_feed_wf(m: DecoderModel, data: Seq<u8>)
    requires
        m.wf(),
    ensures
        m.feed(data).wf(),
        m.feed(data).step() is None,
{
    lemma_run_wf(m.append(data));
    lemma_run_settles(m.append(data));
}

/// A body of declared length `n` is finished exactly when `n` bytes of it
/// have been accumulated: the decoder takes body bytes up to the declared
/// length and no further, stays in `Content` while it holds fewer, and is
/// `Finished` as soon as it holds `n`.
pub proof fn lemma_content_length_exact(m: DecoderModel, data: Seq<u8>)
    requires
        m.wf(),
        m.state == DecoderState::Content,
        m.pending.len() == 0,
    ensures
        ({
            let n = m.content_len.unwrap() as int;
            let r = m.feed(data);
            let room = n - m.content.len();
            &&& r.content == m.content + data.take(if data.len() >= room {
                room
            } else {
                data.len() as int
            })
            &&& r.state == (if data.len() >= room {
                DecoderState::Finished
            } else {
                DecoderState::Content
            })
            &&& (r.state == DecoderState::Finished <==> r.content.len() == n)
            &&& r.content.len() <= n
        }),
{
    let mb = m.append(data);
    assert(m.pending + data =~= data);
    if data.len() == 0 {
        assert(m.content + data.take(0) =~= m.content);
        assert(mb == m);
        lemma_run_stuck(m);
    } else {
        lemma_run_step(mb);
        let m2 = mb.step().unwrap();
        lemma_run_stuck(m2);
        assert(data.take(data.len() as int) =~= data);
    }
}

/// A header line that names `Content-Length` and whose value is no
/// unsigned number is fatal: the decoder that reads it ends in `Error`,
/// holds no response, and stays as it is whatever is fed to it later.
pub proof fn lemma_bad_content_length_is_fatal(
    m: DecoderModel,
    line: Seq<u8>,
    after: u8,
    tail: Seq<u8>,
    later: Seq<u8>,
)
    requires
        m.state == DecoderState::Headers,
        m.code is Some,
        m.pending.len() == 0,
        first_index_of(line, CR) is None,
        first_sep(line) is Some,
        header_name(line) == "Content-Length".spec_bytes(),
        parse_number(header_value(line), 10, usize::MAX as int) is None,
    ensures
        ({
            let r = m.feed(line + seq![CR, after] + tail);
            &&& r.state == DecoderState::Error
            &&& r == DecoderModel::failed(Fault::Header(HeaderFault::BadContentLength)) || r
                == DecoderModel::failed(Fault::HeaderNotText)
            &&& r.response() is None
            &&& r.feed(later) == r
        }),
{
    let wire = line + seq![CR, after] + tail;
    lemma_front_line_of(line, after, tail);
    let mb = m.append(wire);
    assert(m.pending + wire =~= wire);
    assert(mb.step() == Some(mb.step_line(line, tail)));
    lemma_run_step(mb);
    let r = mb.step().unwrap();
    lemma_run_stuck(r);
}

/// One chunk record on the wire: the length field, a line end, the payload,
/// a line end.
pub open spec fn chunk_record(field: Seq<u8>, payload: Seq<u8>) -> Seq<u8> {
    field + seq![CR, LF] + payload + seq![CR, LF]
}

/// `field` is a length field for `payload`: it holds no carriage return and
/// reads, in hexadecimal, as the length of `payload`.
pub open spec fn is_length_field(field: Seq<u8>, payload: Seq<u8>) -> bool {
    first_index_of(field, CR) is None && parse_number(field, 16, usize::MAX as int) == Some(
        payload.len() as int,
    )
}

/// `field` and `payload` make a chunk record that carries data.
pub open spec fn is_chunk(field: Seq<u8>, payload: Seq<u8>) -> bool {
    payload.len() > 0 && is_length_field(field, payload)
}

/// The chunk records of `payloads`, one after the other, each with its
/// length field from `fields`.
pub open spec fn chunk_stream(fields: Seq<Seq<u8>>, payloads: Seq<Seq<u8>>) -> Seq<u8>
    decreases payloads.len(),
{
    if payloads.len() == 0 {
        Seq::empty()
    } else {
        chunk_record(fields[0], payloads[0]) + chunk_stream(
            fields.drop_first(),
            payloads.drop_first(),
        )
    }
}

/// A chunked body on the wire: the records of `payloads`, then the record
/// of length zero, then whatever follows.
pub open spec fn chunked_wire(
    fields: Seq<Seq<u8>>,
    payloads: Seq<Seq<u8>>,
    last: Seq<u8>,
    tail: Seq<u8>,
) -> Seq<u8> {
    chunk_stream(fields, payloads) + chunk_record(last, Seq::empty()) + tail
}

/// `fields` and `payloads` describe the records of a chunked body, and
/// `last` is the length field of the record that ends it.
pub open spec fn is_chunked_body(
    fields: Seq<Seq<u8>>,
    payloads: Seq<Seq<u8>>,
    last: Seq<u8>,
) -> bool {
    &&& fields.len() == payloads.len()
    &&& forall|i: int| 0 <= i < payloads.len() ==> #[trigger] is_chunk(fields[i], payloads[i])
    &&& is_length_field(last, Seq::empty())
}

/// The step that consumes one whole chunk record from the front of the
/// unconsumed bytes.
proof fn lemma_chunk_step(m: DecoderModel, field: Seq<u8>, payload: Seq<u8>, after: Seq<u8>)
    requires
        m.state == DecoderState::ChunkedContent,
        m.pending.len() == 0,
        is_length_field(field, payload),
    ensures
        m.append(chunk_record(field, payload) + after).step() == Some(
            if payload.len() == 0 {
                DecoderModel { state: DecoderState::Finished, pending: Seq::empty(), ..m }
            } else {
                DecoderModel { content: m.content + payload, pending: after, ..m }
            },
        ),
{
    let wire = chunk_record(field, payload) + after;
    let rest = payload + seq![CR, LF] + after;
    assert(wire =~= field + seq![CR, LF] + rest);
    assert(m.pending + wire =~= wire);
    lemma_front_line_of(field, LF, rest);
    assert(rest.take(payload.len() as int) =~= payload);
    assert(rest.skip(payload.len() as int + 2) =~= after);
}

/// Decoding a chunked body gives the payloads of its records, one after the
/// other, and finishes at the record of length zero.
pub proof fn lemma_chunked_body(
    m: DecoderModel,
    fields: Seq<Seq<u8>>,
    payloads: Seq<Seq<u8>>,
    last: Seq<u8>,
    tail: Seq<u8>,
)
    requires
        m.state == DecoderState::ChunkedContent,
        m.pending.len() == 0,
        is_chunked_body(fields, payloads, last),
    ensures
        m.feed(chunked_wire(fields, payloads, last, tail)) == (DecoderModel {
            state: DecoderState::Finished,
            content: m.content + concat(payloads),
            pending: Seq::empty(),
            ..m
        }),
    decreases payloads.len(),
{
    let wire = chunked_wire(fields, payloads, last, tail);
    let mb = m.append(wire);
    if payloads.len() == 0 {
        assert(wire =~= chunk_record(last, Seq::empty()) + tail);
        lemma_chunk_step(m, last, Seq::empty(), tail);
        lemma_run_step(mb);
        lemma_run_stuck(mb.step().unwrap());
        assert(m.content + concat(payloads) =~= m.content);
    } else {
        let fs = fields.drop_first();
        let ps = payloads.drop_first();
        let after = chunked_wire(fs, ps, last, tail);
        assert(is_chunk(fields[0], payloads[0]));
        assert(wire =~= chunk_record(fields[0], payloads[0]) + after);
        lemma_chunk_step(m, fields[0], payloads[0], after);
        lemma_run_step(mb);
        let m1 = DecoderModel { content: m.content + payloads[0], ..m };
        assert(m1.append(after) == mb.step().unwrap()) by {
            assert(m1.pending + after =~= after);
        }
        assert(is_chunked_body(fs, ps, last)) by {
            assert forall|i: int| 0 <= i < ps.len() implies #[trigger] is_chunk(fs[i], ps[i]) by {
                assert(is_chunk(fields[i + 1], payloads[i + 1]));
            }
        }
        lemma_chunked_body(m1, fs, ps, last, tail);
        assert((m.content + payloads[0]) + concat(ps) =~= m.content + concat(payloads));
    }
}

/// Concatenating the payloads of the chunk records reproduces the body,
/// however the records are split across deliveries.
pub proof fn lemma_chunked_body_in_parts(
    m: DecoderModel,
    fields: Seq<Seq<u8>>,
    payloads: Seq<Seq<u8>>,
    last: Seq<u8>,
    tail: Seq<u8>,
    parts: Seq<Seq<u8>>,
)
    requires
        m.state == DecoderState::ChunkedContent,
        m.encoding.chunked(),
        m.pending.len() == 0,
        is_chunked_body(fields, payloads, last),
        concat(parts) == chunked_wire(fields, payloads, last, tail),
    ensures
        m.feed_all(parts).state == DecoderState::Finished,
        m.feed_all(parts).content == m.content + concat(payloads),
{
    lemma_chunked_body(m, fields, payloads, last, tail);
    lemma_first_index_found(m.pending, CR);
    lemma_fragmentation_invariance(m, parts);
}

} // verus!
