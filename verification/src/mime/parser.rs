//! The push-driven event parser: body bytes go in one line per write, and
//! parsing events come out through a handler. The parser tracks the current
//! content type, the active multipart boundary and the stack of enclosing
//! multiparts, and reports byte offsets for every region it opens or
//! closes.
//!
//! The whole behaviour is the spec function [`write_step`]: given the
//! parser's model and one written line, it gives the next model and the
//! exact sequence of events emitted. [`EventParser::write`] follows it
//! precisely, and keeps a ghost log of everything emitted so far.

use vstd::prelude::*;

verus! {

use crate::mime::event::{Event, EventModel, Mime, MimeModel, Multipart, mime_type};
use crate::mime::header::{Header, HeaderModel, Parameter, ParameterModel, bytes_eq, find_param,
    param_lookup, params_model};
use crate::mime::header_buffer::{BufferModel, HeaderBuffer, chop_crlf, is_continuation};
use crate::mime::line_parser::{header, parse_header_model};
use vstd::slice::{slice_subrange, slice_to_vec};

/// A Handler receives parser events
pub trait Handler {
    /// Called once for every event, in the order the events occur
    fn event(&mut self, ev: Event);
}

/// The parser's position in the document
#[derive(PartialEq, Eq, Structural, Clone, Copy, Debug)]
pub enum ParserState {
    /// Nothing was written yet
    Start,
    /// Reading a header block
    Header,
    /// Reading a header block that declared a multipart content type
    MultipartHeader,
    /// Discarding preamble text before the first boundary
    MultipartPreamble,
    /// A boundary was crossed; the next line opens a new part
    PartStart,
    /// Reading body lines
    Body,
}

/// The model of the parser: its state, the running byte offset, the
/// current content type and boundary, the stack of enclosing multiparts,
/// and the header folding buffer
pub struct ParserModel {
    pub state: ParserState,
    pub offset: int,
    pub content_type: MimeModel,
    pub boundary: Option<Seq<u8>>,
    pub stack: Seq<(Multipart, Seq<u8>)>,
    pub buffer: BufferModel,
}

//------ Spec helpers -----------------------------------------------------------

/// `s` begins with `p`
pub open spec fn starts_with(s: Seq<u8>, p: Seq<u8>) -> bool {
    s.len() >= p.len() && s.take(p.len() as int) == p
}

/// The two bytes of a blank line
pub open spec fn crlf_bytes() -> Seq<u8> {
    seq![13u8, 10u8]
}

/// The bytes `--\r\n` that close a final boundary
pub open spec fn close_suffix() -> Seq<u8> {
    seq![45u8, 45u8, 13u8, 10u8]
}

/// The attribute naming the multipart boundary
pub open spec fn boundary_key() -> Seq<u8> {
    seq![98u8, 111u8, 117u8, 110u8, 100u8, 97u8, 114u8, 121u8]  // "boundary"
}

/// Does this line open a new part: it begins with `--<boundary>`?
pub open spec fn opens_boundary(m: ParserModel, buf: Seq<u8>) -> bool {
    match m.boundary {
        Some(b) => starts_with(buf, b),
        None => false,
    }
}

/// Does this line close the multipart: `--<boundary>` with trailing `--`?
pub open spec fn closes_boundary(m: ParserModel, buf: Seq<u8>) -> bool {
    match m.boundary {
        Some(b) => starts_with(buf, b) && buf.len() > b.len() + 2 && buf.len() >= 4 && buf.subrange(
            buf.len() - 4,
            buf.len() as int,
        ) == close_suffix(),
        None => false,
    }
}

/// How a Content-Type header changes the parser: a multipart frame in
/// progress is pushed onto the stack, the content type switches, and for a
/// multipart type the boundary (with its `--` prefix) is taken from the
/// parameters
pub open spec fn apply_content_type(m: ParserModel, mt: Seq<u8>, ps: ParameterModel)
    -> ParserModel {
    let stack1 = match (m.content_type, m.boundary) {
        (MimeModel::Multipart(k), Some(b)) => m.stack.push((k, b)),
        _ => m.stack,
    };
    let ct = crate::mime::event::mime_type_model(mt);
    let boundary = if ct is Multipart {
        match param_lookup(ps, boundary_key()) {
            Some(v) => Some(seq![45u8, 45u8] + v),
            None => None,
        }
    } else {
        m.boundary
    };
    ParserModel { content_type: ct, boundary, stack: stack1, ..m }
}

/// One unfolded header line inside a header block: a blank line ends the
/// block (opening the preamble of a multipart, or the body), any other
/// line must parse as a header; a Content-Type header switches the frame
pub open spec fn header_field_step(m: ParserModel, buf: Seq<u8>, stparam: ParserState) -> Option<
    (ParserModel, Seq<EventModel>),
> {
    if starts_with(buf, crlf_bytes()) {
        if stparam is MultipartHeader {
            Some((ParserModel { state: ParserState::MultipartPreamble, ..m }, seq![]))
        } else {
            Some(
                (
                    ParserModel { state: ParserState::Body, ..m },
                    seq![EventModel::BodyStart { offset: m.offset + 2 }],
                ),
            )
        }
    } else {
        match parse_header_model(buf) {
            None => None,
            Some(h) => {
                let m1 = match h {
                    HeaderModel::ContentType { mime_type, parameters } => apply_content_type(
                        m,
                        mime_type,
                        parameters,
                    ),
                    _ => m,
                };
                let st = if m1.content_type is Multipart {
                    ParserState::MultipartHeader
                } else {
                    stparam
                };
                Some((ParserModel { state: st, ..m1 }, seq![EventModel::Header(h)]))
            },
        }
    }
}

/// One complete logical line: headers while in a header block, boundary
/// search in the preamble, boundaries and body lines in a body. The
/// offset advances by the raw byte count of the line.
pub open spec fn line_step(m: ParserModel, buf: Seq<u8>, blen: int) -> Option<
    (ParserModel, Seq<EventModel>),
> {
    let stepped = match m.state {
        ParserState::Start => Some((m, Seq::<EventModel>::empty())),
        ParserState::Header => header_field_step(m, buf, ParserState::Header),
        ParserState::MultipartHeader => header_field_step(m, buf, ParserState::MultipartHeader),
        ParserState::PartStart => match header_field_step(m, buf, ParserState::Header) {
            None => None,
            Some(r) => Some(
                (r.0, seq![EventModel::PartStart { offset: m.offset }] + r.1),
            ),
        },
        ParserState::MultipartPreamble => if opens_boundary(m, buf) {
            let evs = match m.content_type {
                MimeModel::Multipart(k) => seq![EventModel::MultipartStart(k)],
                _ => Seq::<EventModel>::empty(),
            };
            Some((ParserModel { state: ParserState::PartStart, ..m }, evs))
        } else {
            Some((m, Seq::<EventModel>::empty()))
        },
        ParserState::Body => if closes_boundary(m, buf) {
            let m1 = if m.stack.len() > 0 {
                ParserModel {
                    content_type: MimeModel::Multipart(m.stack.last().0),
                    boundary: Some(m.stack.last().1),
                    stack: m.stack.drop_last(),
                    ..m
                }
            } else {
                m
            };
            Some(
                (
                    ParserModel { state: ParserState::Header, ..m1 },
                    seq![EventModel::PartEnd { offset: m.offset }, EventModel::MultipartEnd],
                ),
            )
        } else if opens_boundary(m, buf) {
            Some(
                (
                    ParserModel { state: ParserState::PartStart, ..m },
                    seq![EventModel::PartEnd { offset: m.offset }],
                ),
            )
        } else {
            Some((m, seq![EventModel::Body(buf)]))
        },
    };
    match stepped {
        None => None,
        Some(r) => Some((ParserModel { offset: r.0.offset + blen, ..r.0 }, r.1)),
    }
}

/// One raw line while a header block is being read: blank lines flush the
/// folding buffer and end the block, continuation lines fold into the
/// buffered line, and any other line flushes the buffered one
pub open spec fn header_write_step(m: ParserModel, buf: Seq<u8>) -> Option<
    (ParserModel, Seq<EventModel>),
> {
    if starts_with(buf, crlf_bytes()) {
        if m.buffer.has_value {
            let m1 = ParserModel {
                buffer: BufferModel { has_value: false, line: seq![], length: 0 },
                ..m
            };
            match line_step(m1, m.buffer.line, m.buffer.length) {
                None => None,
                Some(r1) => match line_step(r1.0, buf, buf.len() as int) {
                    None => None,
                    Some(r2) => Some((r2.0, r1.1 + r2.1)),
                },
            }
        } else {
            line_step(m, buf, buf.len() as int)
        }
    } else if !m.buffer.has_value {
        Some(
            (
                ParserModel {
                    buffer: BufferModel {
                        has_value: true,
                        line: buf,
                        length: buf.len() as int,
                    },
                    ..m
                },
                seq![],
            ),
        )
    } else if is_continuation(buf) {
        Some(
            (
                ParserModel {
                    buffer: BufferModel {
                        has_value: true,
                        line: chop_crlf(m.buffer.line) + buf,
                        length: m.buffer.length + buf.len(),
                    },
                    ..m
                },
                seq![],
            ),
        )
    } else {
        let m1 = ParserModel {
            buffer: BufferModel { has_value: true, line: buf, length: buf.len() as int },
            ..m
        };
        line_step(m1, m.buffer.line, m.buffer.length)
    }
}

/// One write: the first write emits `Start`; header blocks run through the
/// folding buffer; preamble and body lines are handled directly
pub open spec fn write_step(m: ParserModel, buf: Seq<u8>) -> Option<
    (ParserModel, Seq<EventModel>),
> {
    match m.state {
        ParserState::Start => {
            let m1 = ParserModel { state: ParserState::Header, ..m };
            match header_write_step(m1, buf) {
                None => None,
                Some(r) => Some((r.0, seq![EventModel::Start] + r.1)),
            }
        },
        ParserState::Header => header_write_step(m, buf),
        ParserState::MultipartHeader => header_write_step(m, buf),
        ParserState::PartStart => header_write_step(m, buf),
        _ => line_step(m, buf, buf.len() as int),
    }
}

//------ Event counting ----------------------------------------------------------

/// How an event changes the number of open parts
pub open spec fn part_delta(e: EventModel) -> int {
    match e {
        EventModel::PartStart { .. } => 1,
        EventModel::PartEnd { .. } => -1,
        _ => 0,
    }
}

/// How an event changes the number of open multiparts
pub open spec fn multipart_delta(e: EventModel) -> int {
    match e {
        EventModel::MultipartStart(_) => 1,
        EventModel::MultipartEnd => -1,
        _ => 0,
    }
}

/// The number of `PartStart` events minus the number of `PartEnd` events
pub open spec fn open_parts(log: Seq<EventModel>) -> int
    decreases log.len(),
{
    if log.len() == 0 {
        0
    } else {
        open_parts(log.drop_last()) + part_delta(log.last())
    }
}

/// The number of `MultipartStart` events minus `MultipartEnd` events
pub open spec fn open_multiparts(log: Seq<EventModel>) -> int
    decreases log.len(),
{
    if log.len() == 0 {
        0
    } else {
        open_multiparts(log.drop_last()) + multipart_delta(log.last())
    }
}

//------ The parser ---------------------------------------------------------------

/// The models of a list of events, in order
pub open spec fn events_model(v: Seq<Event>) -> Seq<EventModel> {
    v.map_values(|e: Event| e@)
}

/// Dropping the first event drops the first model
pub proof fn lemma_events_model_drop_first(v: Seq<Event>)
    requires
        v.len() > 0,
    ensures
        events_model(v.drop_first()) == events_model(v).drop_first(),
{
    assert forall|i: int| 0 <= i < v.drop_first().len() implies events_model(v.drop_first())[i]
        == events_model(v).drop_first()[i] by {
        assert(v.drop_first()[i] == v[i + 1]);
        assert(events_model(v)[i + 1] == v[i + 1]@);
    }
    assert(events_model(v.drop_first()) =~= events_model(v).drop_first());
}

/// The parsing machine itself: it consumes one line per call and returns
/// the events that line produced, exactly as [`write_step`] prescribes.
pub struct ParserCore {
    /// The parser's position in the document
    pub state: ParserState,
    /// The byte offset of the next line, from the very first write
    pub offset: usize,
    /// The content type of the entity being read; `text/plain` by default
    pub content_type: Mime,
    /// The active boundary, `--` prefix included
    pub boundary: Option<Vec<u8>>,
    /// The enclosing multiparts, innermost last
    pub multipart_stack: Vec<(Multipart, Vec<u8>)>,
    /// The folding buffer for header lines
    pub header_buffer: HeaderBuffer,
    /// Everything emitted so far
    pub emitted: Ghost<Seq<EventModel>>,
    /// The running count of parts opened and not yet closed
    pub part_depth: Ghost<int>,
    /// The running count of multiparts opened and not yet closed
    pub multi_depth: Ghost<int>,
}

impl View for ParserCore {
    type V = ParserModel;

    open spec fn view(&self) -> ParserModel {
        ParserModel {
            state: self.state,
            offset: self.offset as int,
            content_type: self.content_type@,
            boundary: match self.boundary {
                Some(b) => Some(b@),
                None => None,
            },
            stack: self.multipart_stack@.map_values(|e: (Multipart, Vec<u8>)| (e.0, e.1@)),
            buffer: self.header_buffer@,
        }
    }
}

impl ParserCore {
    /// The ghost bookkeeping matches the ghost log, and the folding buffer
    /// is sound
    pub open spec fn wf(&self) -> bool {
        &&& self.part_depth@ == open_parts(self.emitted@)
        &&& self.multi_depth@ == open_multiparts(self.emitted@)
        &&& self.header_buffer.wf()
    }

    /// `Start` and `End` bracket the stream: the log opens with the one
    /// `Start` (emitted by the first write) and holds no `End` — the one
    /// `End` is appended only when the stream is closed
    pub open spec fn bracketed(&self) -> bool {
        &&& self.state is Start <==> self.emitted@.len() == 0
        &&& forall|i: int|
            0 <= i < self.emitted@.len() ==> (((#[trigger] self.emitted@[i]) is Start) <==> i
                == 0)
        &&& forall|i: int| 0 <= i < self.emitted@.len() ==> !((#[trigger] self.emitted@[i]) is End)
    }

    /// A machine ready for the first line of a message
    pub fn new() -> (p: ParserCore)
        ensures
            p.wf(),
            p.bracketed(),
            p@ == (ParserModel {
                state: ParserState::Start,
                offset: 0,
                content_type: MimeModel::Type(default_content_type()),
                boundary: None::<Seq<u8>>,
                stack: Seq::<(Multipart, Seq<u8>)>::empty(),
                buffer: BufferModel { has_value: false, line: seq![], length: 0 },
            }),
            p.emitted@ == Seq::<EventModel>::empty(),
    {
        let text_plain: [u8; 10] = [116, 101, 120, 116, 47, 112, 108, 97, 105, 110];
        assert(text_plain@ =~= default_content_type());
        let p = ParserCore {
            state: ParserState::Start,
            offset: 0,
            content_type: Mime::Type(slice_to_vec(text_plain.as_slice())),
            boundary: None,
            multipart_stack: Vec::new(),
            header_buffer: HeaderBuffer::new(),
            emitted: Ghost(Seq::empty()),
            part_depth: Ghost(0),
            multi_depth: Ghost(0),
        };
        proof {
            assert(p@.stack =~= Seq::<(Multipart, Seq<u8>)>::empty());
        }
        p
    }

    /// Append one event to the output and log it
    fn emit(&mut self, out: &mut Vec<Event>, ev: Event)
        ensures
            final(self).state == old(self).state,
            final(self).offset == old(self).offset,
            final(self).content_type == old(self).content_type,
            final(self).boundary == old(self).boundary,
            final(self).multipart_stack == old(self).multipart_stack,
            final(self).header_buffer == old(self).header_buffer,
            final(self).emitted@ == old(self).emitted@.push(ev@),
            final(self).part_depth@ == old(self).part_depth@ + part_delta(ev@),
            final(self).multi_depth@ == old(self).multi_depth@ + multipart_delta(ev@),
            old(self).wf() ==> final(self).wf(),
            events_model(final(out)@) == events_model(old(out)@).push(ev@),
    {
        proof {
            assert(self.emitted@.push(ev@).drop_last() =~= self.emitted@);
        }
        let ghost log = self.emitted@.push(ev@);
        let ghost pd = self.part_depth@ + part_delta(ev@);
        let ghost md = self.multi_depth@ + multipart_delta(ev@);
        self.emitted = Ghost(log);
        self.part_depth = Ghost(pd);
        self.multi_depth = Ghost(md);
        let ghost ev0 = ev@;
        out.push(ev);
        proof {
            assert(events_model(out@) =~= events_model(old(out)@).push(ev0));
        }
    }

    /// Handle a Content-Type header: push an open multipart frame, switch
    /// the content type, and adopt the declared boundary
    fn apply_content_type_exec(&mut self, mt: &Vec<u8>, ps: &Vec<Parameter>)
        ensures
            final(self)@ == apply_content_type(old(self)@, mt@, params_model(ps@)),
            final(self).state == old(self).state,
            final(self).offset == old(self).offset,
            final(self).header_buffer == old(self).header_buffer,
            final(self).emitted == old(self).emitted,
            final(self).part_depth == old(self).part_depth,
            final(self).multi_depth == old(self).multi_depth,
    {
        let ghost m0 = self@;
        let push_frame = match (&self.content_type, &self.boundary) {
            (Mime::Multipart(_), Some(_)) => true,
            _ => false,
        };
        if push_frame {
            let kind = match &self.content_type {
                Mime::Multipart(k) => *k,
                _ => Multipart::Mixed,
            };
            let b = match &self.boundary {
                Some(b) => slice_to_vec(b.as_slice()),
                None => Vec::new(),
            };
            self.multipart_stack.push((kind, b));
            proof {
                assert(self@.stack =~= m0.stack.push(
                    (m0.content_type->Multipart_0, m0.boundary->0),
                ));
            }
        }
        let ct = mime_type(mt.as_slice());
        let is_multi = match &ct {
            Mime::Multipart(_) => true,
            _ => false,
        };
        self.content_type = ct;
        if is_multi {
            let bkey: [u8; 8] = [98, 111, 117, 110, 100, 97, 114, 121];
            assert(bkey@ =~= boundary_key());
            match find_param(ps, bkey.as_slice()) {
                Some(bv) => {
                    let mut full: Vec<u8> = Vec::new();
                    full.push(45);
                    full.push(45);
                    full.extend_from_slice(bv.as_slice());
                    assert(full@ =~= seq![45u8, 45u8] + bv@);
                    self.boundary = Some(full);
                },
                None => {
                    self.boundary = None;
                },
            }
        }
    }

    /// Does this line begin with the active boundary?
    fn is_open_boundary(&self, buf: &[u8]) -> (r: bool)
        ensures
            r == opens_boundary(self@, buf@),
    {
        match &self.boundary {
            Some(b) => {
                if buf.len() >= b.len() {
                    let r = bytes_eq(slice_subrange(buf, 0, b.len()), b.as_slice());
                    proof {
                        assert(buf@.subrange(0, b@.len() as int) =~= buf@.take(b@.len() as int));
                    }
                    r
                } else {
                    false
                }
            },
            None => false,
        }
    }

    /// Is this line the closing boundary `--<boundary>--`?
    fn is_close_boundary(&self, buf: &[u8]) -> (r: bool)
        ensures
            r == closes_boundary(self@, buf@),
    {
        match &self.boundary {
            Some(b) => {
                if !(buf.len() >= b.len() && buf.len() - b.len() > 2 && buf.len() >= 4) {
                    return false;
                }
                let head = bytes_eq(slice_subrange(buf, 0, b.len()), b.as_slice());
                proof {
                    assert(buf@.subrange(0, b@.len() as int) =~= buf@.take(b@.len() as int));
                }
                if !head {
                    return false;
                }
                let suffix: [u8; 4] = [45, 45, 13, 10];
                assert(suffix@ =~= close_suffix());
                bytes_eq(slice_subrange(buf, buf.len() - 4, buf.len()), suffix.as_slice())
            },
            None => false,
        }
    }

    /// One unfolded header line inside a header block
    fn header_field(&mut self, out: &mut Vec<Event>, buf: &[u8], stparam: ParserState) -> (ok:
        bool)
        requires
            old(self).wf(),
            starts_with(buf@, crlf_bytes()) ==> old(self).offset + 2 <= usize::MAX,
        ensures
            final(self).wf(),
            ok ==> (header_field_step(old(self)@, buf@, stparam) matches Some(r) && final(self)@
                == r.0 && final(self).emitted@ == old(self).emitted@ + r.1 && final(self).part_depth@ == old(self).part_depth@ + open_parts(r.1) && final(self).multi_depth@
                == old(self).multi_depth@ + open_multiparts(r.1) && events_model(final(out)@)
                == events_model(old(out)@) + r.1),
            !ok ==> header_field_step(old(self)@, buf@, stparam) is None && *final(self) == *old(self) && final(out)@ == old(out)@,
    {
        let ghost m0 = self@;
        if buf.len() >= 2 && buf[0] == 13 && buf[1] == 10 {
            assert(buf@.take(2) =~= crlf_bytes());
            if stparam == ParserState::MultipartHeader {
                self.state = ParserState::MultipartPreamble;
                proof {
                    assert(self.emitted@ =~= old(self).emitted@ + Seq::<EventModel>::empty());
                    assert(events_model(out@) =~= events_model(old(out)@) + Seq::<
                        EventModel,
                    >::empty());
                }
            } else {
                let ev = Event::BodyStart { offset: self.offset + 2 };
                self.emit(out, ev);
                self.state = ParserState::Body;
                proof {
                    assert(self.emitted@ =~= old(self).emitted@ + seq![
                        EventModel::BodyStart { offset: m0.offset + 2 },
                    ]);
                    assert(events_model(out@) =~= events_model(old(out)@) + seq![
                        EventModel::BodyStart { offset: m0.offset + 2 },
                    ]);
                    lemma_open_counts_singleton(EventModel::BodyStart { offset: m0.offset + 2 });
                }
            }
            true
        } else {
            assert(!starts_with(buf@, crlf_bytes())) by {
                if buf@.len() >= 2 && buf@.take(2) == crlf_bytes() {
                    assert(buf@[0] == 13 && buf@[1] == 10);
                }
            }
            match header(buf) {
                None => false,
                Some(h) => {
                    let ghost hm = h@;
                    match &h {
                        Header::ContentType { mime_type: mt, parameters } => {
                            self.apply_content_type_exec(mt, parameters);
                        },
                        _ => {},
                    }
                    let is_multi = match &self.content_type {
                        Mime::Multipart(_) => true,
                        _ => false,
                    };
                    self.emit(out, Event::Header(h));
                    if is_multi {
                        self.state = ParserState::MultipartHeader;
                    } else {
                        self.state = stparam;
                    }
                    proof {
                        assert(self.emitted@ =~= old(self).emitted@ + seq![EventModel::Header(hm)]);
                        assert(events_model(out@) =~= events_model(old(out)@) + seq![
                            EventModel::Header(hm),
                        ]);
                        lemma_open_counts_singleton(EventModel::Header(hm));
                    }
                    true
                },
            }
        }
    }

    /// One complete logical line
    #[verifier::rlimit(80)]
    fn handle_line(&mut self, out: &mut Vec<Event>, buf: &[u8], buf_len: usize) -> (ok: bool)
        requires
            old(self).wf(),
            old(self).offset + buf_len <= usize::MAX,
            buf@.len() <= buf_len,
        ensures
            final(self).wf(),
            ok ==> (line_step(old(self)@, buf@, buf_len as int) matches Some(r) && final(self)@
                == r.0 && final(self).emitted@ == old(self).emitted@ + r.1 && final(self).part_depth@ == old(self).part_depth@ + open_parts(r.1) && final(self).multi_depth@
                == old(self).multi_depth@ + open_multiparts(r.1) && events_model(final(out)@)
                == events_model(old(out)@) + r.1),
            !ok ==> line_step(old(self)@, buf@, buf_len as int) is None,
    {
        let ghost m0 = self@;
        let ok = match self.state {
            ParserState::Start => {
                proof {
                    assert(self.emitted@ =~= old(self).emitted@ + Seq::<EventModel>::empty());
                    assert(events_model(out@) =~= events_model(old(out)@) + Seq::<
                        EventModel,
                    >::empty());
                }
                true
            },
            ParserState::Header => self.header_field(out, buf, ParserState::Header),
            ParserState::MultipartHeader => self.header_field(
                out,
                buf,
                ParserState::MultipartHeader,
            ),
            ParserState::PartStart => {
                let ev = Event::PartStart { offset: self.offset };
                self.emit(out, ev);
                let ghost mid = self.emitted@;
                let ghost mid_out = events_model(out@);
                let r = self.header_field(out, buf, ParserState::Header);
                proof {
                    if r {
                        let inner = header_field_step(m0, buf@, ParserState::Header).unwrap();
                        assert(self.emitted@ =~= old(self).emitted@ + (seq![
                            EventModel::PartStart { offset: m0.offset },
                        ] + inner.1)) by {
                            assert(mid =~= old(self).emitted@ + seq![
                                EventModel::PartStart { offset: m0.offset },
                            ]);
                        }
                        assert(events_model(out@) =~= events_model(old(out)@) + (seq![
                            EventModel::PartStart { offset: m0.offset },
                        ] + inner.1)) by {
                            assert(mid_out =~= events_model(old(out)@) + seq![
                                EventModel::PartStart { offset: m0.offset },
                            ]);
                        }
                        lemma_open_counts_singleton(EventModel::PartStart { offset: m0.offset });
                        lemma_open_counts_concat(
                            seq![EventModel::PartStart { offset: m0.offset }],
                            inner.1,
                        );
                    }
                }
                r
            },
            ParserState::MultipartPreamble => {
                if self.is_open_boundary(buf) {
                    let kind = match &self.content_type {
                        Mime::Multipart(k) => Some(*k),
                        _ => None,
                    };
                    match kind {
                        Some(k) => {
                            self.emit(out, Event::MultipartStart(k));
                            proof {
                                assert(self.emitted@ =~= old(self).emitted@ + seq![
                                    EventModel::MultipartStart(k),
                                ]);
                                assert(events_model(out@) =~= events_model(old(out)@) + seq![
                                    EventModel::MultipartStart(k),
                                ]);
                                lemma_open_counts_singleton(EventModel::MultipartStart(k));
                            }
                        },
                        None => {
                            proof {
                                assert(self.emitted@ =~= old(self).emitted@ + Seq::<
                                    EventModel,
                                >::empty());
                                assert(events_model(out@) =~= events_model(old(out)@) + Seq::<
                                    EventModel,
                                >::empty());
                            }
                        },
                    }
                    self.state = ParserState::PartStart;
                } else {
                    proof {
                        assert(self.emitted@ =~= old(self).emitted@ + Seq::<EventModel>::empty());
                        assert(events_model(out@) =~= events_model(old(out)@) + Seq::<
                            EventModel,
                        >::empty());
                    }
                }
                true
            },
            ParserState::Body => {
                if self.is_close_boundary(buf) {
                    self.emit(out, Event::PartEnd { offset: self.offset });
                    self.emit(out, Event::MultipartEnd);
                    if self.multipart_stack.len() > 0 {
                        let frame = self.multipart_stack.pop().unwrap();
                        self.content_type = Mime::Multipart(frame.0);
                        self.boundary = Some(frame.1);
                        proof {
                            assert(self@.stack =~= m0.stack.drop_last());
                        }
                    }
                    self.state = ParserState::Header;
                    proof {
                        assert(self.emitted@ =~= old(self).emitted@ + seq![
                            EventModel::PartEnd { offset: m0.offset },
                            EventModel::MultipartEnd,
                        ]);
                        lemma_open_counts_singleton(EventModel::PartEnd { offset: m0.offset });
                        lemma_open_counts_singleton(EventModel::MultipartEnd);
                        lemma_open_counts_concat(
                            seq![EventModel::PartEnd { offset: m0.offset }],
                            seq![EventModel::MultipartEnd],
                        );
                        assert(seq![EventModel::PartEnd { offset: m0.offset }] + seq![
                            EventModel::MultipartEnd,
                        ] =~= seq![
                            EventModel::PartEnd { offset: m0.offset },
                            EventModel::MultipartEnd,
                        ]);
                        assert(events_model(out@) =~= events_model(old(out)@) + seq![
                            EventModel::PartEnd { offset: m0.offset },
                            EventModel::MultipartEnd,
                        ]);
                    }
                    true
                } else if self.is_open_boundary(buf) {
                    self.emit(out, Event::PartEnd { offset: self.offset });
                    self.state = ParserState::PartStart;
                    proof {
                        assert(self.emitted@ =~= old(self).emitted@ + seq![
                            EventModel::PartEnd { offset: m0.offset },
                        ]);
                        assert(events_model(out@) =~= events_model(old(out)@) + seq![
                            EventModel::PartEnd { offset: m0.offset },
                        ]);
                        lemma_open_counts_singleton(EventModel::PartEnd { offset: m0.offset });
                    }
                    true
                } else {
                    self.emit(out, Event::Body(slice_to_vec(buf)));
                    proof {
                        assert(self.emitted@ =~= old(self).emitted@ + seq![
                            EventModel::Body(buf@),
                        ]);
                        assert(events_model(out@) =~= events_model(old(out)@) + seq![
                            EventModel::Body(buf@),
                        ]);
                        lemma_open_counts_singleton(EventModel::Body(buf@));
                    }
                    true
                }
            },
        };
        if ok {
            self.offset = self.offset + buf_len;
        }
        ok
    }

    /// One raw header-block line, run through the folding buffer
    #[verifier::rlimit(100)]
    #[verifier::spinoff_prover]
    fn handle_header(&mut self, out: &mut Vec<Event>, buf: &[u8]) -> (ok: bool)
        requires
            old(self).wf(),
            old(self).offset + old(self).header_buffer.length + buf@.len() <= usize::MAX,
        ensures
            final(self).wf(),
            ok ==> (header_write_step(old(self)@, buf@) matches Some(r) && final(self)@ == r.0
                && final(self).emitted@ == old(self).emitted@ + r.1 && events_model(final(out)@)
                == events_model(old(out)@) + r.1),
            !ok ==> header_write_step(old(self)@, buf@) is None,
    {
        let ghost m0 = self@;
        if buf.len() >= 2 && buf[0] == 13 && buf[1] == 10 {
            assert(buf@.take(2) =~= crlf_bytes());
            match self.header_buffer.take() {
                Some((stored, slen)) => {
                    if !self.handle_line(out, stored.as_slice(), slen) {
                        return false;
                    }
                    let r = self.handle_line(out, buf, buf.len());
                    proof {
                        if r {
                            let m1 = ParserModel {
                                buffer: BufferModel { has_value: false, line: seq![], length: 0 },
                                ..m0
                            };
                            let r1 = line_step(m1, m0.buffer.line, m0.buffer.length).unwrap();
                            let r2 = line_step(r1.0, buf@, buf@.len() as int).unwrap();
                            assert(self.emitted@ =~= old(self).emitted@ + (r1.1 + r2.1));
                            assert(events_model(out@) =~= events_model(old(out)@) + (r1.1 + r2.1));
                        }
                    }
                    r
                },
                None => self.handle_line(out, buf, buf.len()),
            }
        } else {
            assert(!starts_with(buf@, crlf_bytes())) by {
                if buf@.len() >= 2 && buf@.take(2) == crlf_bytes() {
                    assert(buf@[0] == 13 && buf@[1] == 10);
                }
            }
            if !self.header_buffer.has_value {
                let _ = self.header_buffer.next_line(buf);
                proof {
                    assert(self.emitted@ =~= old(self).emitted@ + Seq::<EventModel>::empty());
                    assert(events_model(out@) =~= events_model(old(out)@) + Seq::<
                        EventModel,
                    >::empty());
                }
                true
            } else if buf.len() > 0 && (buf[0] == 32 || buf[0] == 9) {
                let _ = self.header_buffer.next_line(buf);
                proof {
                    assert(self.emitted@ =~= old(self).emitted@ + Seq::<EventModel>::empty());
                    assert(events_model(out@) =~= events_model(old(out)@) + Seq::<
                        EventModel,
                    >::empty());
                }
                true
            } else {
                match self.header_buffer.next_line(buf) {
                    Some((stored, slen)) => self.handle_line(out, stored.as_slice(), slen),
                    None => {
                        proof {
                            assert(false);
                        }
                        false
                    },
                }
            }
        }
    }

    /// Consume one line of the message and return the events it produced,
    /// exactly as [`write_step`] prescribes; the first line is preceded by
    /// `Start`. The return is `None` when a header line could not be
    /// parsed; the machine is then stuck.
    pub fn write(&mut self, buf: &[u8]) -> (r: Option<Vec<Event>>)
        requires
            old(self).wf(),
            old(self).offset + old(self).header_buffer.length + buf@.len() <= usize::MAX,
        ensures
            final(self).wf(),
            old(self).bracketed() && r is Some ==> final(self).bracketed(),
            r matches Some(events) ==> (write_step(old(self)@, buf@) matches Some(s) && final(self)@ == s.0 && events_model(events@) == s.1 && final(self).emitted@ == old(self).emitted@ + s.1),
            r is None ==> write_step(old(self)@, buf@) is None,
    {
        let ghost m0 = self@;
        proof {
            lemma_stream_bracketed(m0, buf@);
        }
        let mut out: Vec<Event> = Vec::new();
        assert(events_model(out@) =~= Seq::<EventModel>::empty());
        let ok = match self.state {
            ParserState::Start => {
                self.emit(&mut out, Event::Start);
                self.state = ParserState::Header;
                let ghost mid = self.emitted@;
                let ghost mid_out = events_model(out@);
                let r = self.handle_header(&mut out, buf);
                proof {
                    if r {
                        let m1 = ParserModel { state: ParserState::Header, ..m0 };
                        let inner = header_write_step(m1, buf@).unwrap();
                        assert(self.emitted@ =~= old(self).emitted@ + (seq![EventModel::Start]
                            + inner.1)) by {
                            assert(mid =~= old(self).emitted@ + seq![EventModel::Start]);
                        }
                        assert(events_model(out@) =~= seq![EventModel::Start] + inner.1) by {
                            assert(mid_out =~= seq![EventModel::Start]);
                        }
                    }
                }
                r
            },
            ParserState::Header => self.handle_header(&mut out, buf),
            ParserState::MultipartHeader => self.handle_header(&mut out, buf),
            ParserState::PartStart => self.handle_header(&mut out, buf),
            _ => self.handle_line(&mut out, buf, buf.len()),
        };
        if ok {
            Some(out)
        } else {
            None
        }
    }
}

/// EventParser is an event driven email parser: every line written to it
/// produces events that are sent to the handler.
pub struct EventParser<H: Handler> {
    /// The handler that receives every event
    pub handler: H,
    /// The parsing machine
    pub core: ParserCore,
}

impl<H: Handler> EventParser<H> {
    /// The machine's bookkeeping is sound
    pub open spec fn wf(&self) -> bool {
        self.core.wf()
    }

    /// Create a new EventParser. Writing to the EventParser will produce
    /// events that are sent to the handler.
    pub fn new(handler: H) -> (p: EventParser<H>)
        ensures
            p.wf(),
            p.core.bracketed(),
            p.core@ == (ParserModel {
                state: ParserState::Start,
                offset: 0,
                content_type: MimeModel::Type(default_content_type()),
                boundary: None::<Seq<u8>>,
                stack: Seq::<(Multipart, Seq<u8>)>::empty(),
                buffer: BufferModel { has_value: false, line: seq![], length: 0 },
            }),
            p.core.emitted@ == Seq::<EventModel>::empty(),
    {
        EventParser { handler, core: ParserCore::new() }
    }

    /// Write one line of the message; the events it produces go to the
    /// handler, in order. The first write emits `Start`. The return is
    /// false when a header line could not be parsed.
    pub fn write(&mut self, buf: &[u8]) -> (ok: bool)
        requires
            old(self).wf(),
            old(self).core.offset + old(self).core.header_buffer.length + buf@.len()
                <= usize::MAX,
        ensures
            final(self).wf(),
            old(self).core.bracketed() && ok ==> final(self).core.bracketed(),
            ok ==> (write_step(old(self).core@, buf@) matches Some(r) && final(self).core@ == r.0
                && final(self).core.emitted@ == old(self).core.emitted@ + r.1),
            !ok ==> write_step(old(self).core@, buf@) is None,
    {
        match self.core.write(buf) {
            None => false,
            Some(mut events) => {
                let ghost core_now = self.core;
                while events.len() > 0
                    invariant
                        self.core == core_now,
                    decreases events@.len(),
                {
                    let ev = events.remove(0);
                    self.handler.event(ev);
                }
                true
            },
        }
    }

    /// Signal the end of the message: the handler receives the final `End`
    /// event and is handed back, together with the complete log of every
    /// event it ever received
    pub fn end(self) -> (r: (H, Ghost<Seq<EventModel>>))
        ensures
            r.1@ == self.core.emitted@.push(EventModel::End),
    {
        let EventParser { mut handler, core } = self;
        let ghost log = core.emitted@.push(EventModel::End);
        handler.event(Event::End);
        (handler, Ghost(log))
    }
}

/// The default content type of a message: `text/plain`
pub open spec fn default_content_type() -> Seq<u8> {
    seq![116u8, 101u8, 120u8, 116u8, 47u8, 112u8, 108u8, 97u8, 105u8, 110u8]
}

/// The counts of a one-event log are that event's deltas
pub proof fn lemma_open_counts_singleton(e: EventModel)
    ensures
        open_parts(seq![e]) == part_delta(e),
        open_multiparts(seq![e]) == multipart_delta(e),
{
    assert(seq![e].drop_last() =~= Seq::<EventModel>::empty());
    assert(seq![e].last() == e);
    assert(open_parts(Seq::<EventModel>::empty()) == 0);
    assert(open_multiparts(Seq::<EventModel>::empty()) == 0);
}

/// Open-part and open-multipart counts add up over concatenated logs
pub proof fn lemma_open_counts_concat(a: Seq<EventModel>, b: Seq<EventModel>)
    ensures
        open_parts(a + b) == open_parts(a) + open_parts(b),
        open_multiparts(a + b) == open_multiparts(a) + open_multiparts(b),
    decreases b.len(),
{
    if b.len() == 0 {
        assert(a + b =~= a);
    } else {
        lemma_open_counts_concat(a, b.drop_last());
        assert((a + b).drop_last() =~= a + b.drop_last());
        assert((a + b).last() == b.last());
    }
}

/// No event of `evs` is `Start` or `End`
pub open spec fn no_start_end(evs: Seq<EventModel>) -> bool {
    forall|i: int|
        0 <= i < evs.len() ==> !((#[trigger] evs[i]) is Start) && !(evs[i] is End)
}

/// A header-block line emits neither `Start` nor `End`, and never returns
/// the machine to the `Start` state
proof fn lemma_header_field_events(m: ParserModel, buf: Seq<u8>, stparam: ParserState)
    requires
        !(stparam is Start),
    ensures
        header_field_step(m, buf, stparam) matches Some(r) ==> no_start_end(r.1) && !(r.0.state
            is Start),
{
}

/// A logical line emits neither `Start` nor `End`, and never returns the
/// machine to the `Start` state
proof fn lemma_line_step_events(m: ParserModel, buf: Seq<u8>, blen: int)
    requires
        !(m.state is Start),
    ensures
        line_step(m, buf, blen) matches Some(r) ==> no_start_end(r.1) && !(r.0.state is Start),
{
    lemma_header_field_events(m, buf, ParserState::Header);
    lemma_header_field_events(m, buf, ParserState::MultipartHeader);
}

/// A raw header-block line emits neither `Start` nor `End`, and never
/// returns the machine to the `Start` state
proof fn lemma_header_write_events(m: ParserModel, buf: Seq<u8>)
    requires
        !(m.state is Start),
    ensures
        header_write_step(m, buf) matches Some(r) ==> no_start_end(r.1) && !(r.0.state is Start),
{
    lemma_line_step_events(m, buf, buf.len() as int);
    if starts_with(buf, crlf_bytes()) && m.buffer.has_value {
        let m1 = ParserModel {
            buffer: BufferModel { has_value: false, line: seq![], length: 0 },
            ..m
        };
        lemma_line_step_events(m1, m.buffer.line, m.buffer.length);
        match line_step(m1, m.buffer.line, m.buffer.length) {
            Some(r1) => {
                lemma_line_step_events(r1.0, buf, buf.len() as int);
            },
            None => {},
        }
    } else if !starts_with(buf, crlf_bytes()) && m.buffer.has_value && !is_continuation(buf) {
        let m1 = ParserModel {
            buffer: BufferModel { has_value: true, line: buf, length: buf.len() as int },
            ..m
        };
        lemma_line_step_events(m1, m.buffer.line, m.buffer.length);
    }
}

/// `Start` opens the stream and nothing else: the first write emits it
/// first, no later write emits it again, and no write ever emits `End` —
/// only [`EventParser::end`] closes the stream with the one final `End`.
pub proof fn lemma_stream_bracketed(m: ParserModel, buf: Seq<u8>)
    ensures
        write_step(m, buf) matches Some(r) ==> {
            &&& !(r.0.state is Start)
            &&& m.state is Start ==> r.1.len() > 0 && r.1[0] is Start && (forall|i: int|
                1 <= i < r.1.len() ==> !((#[trigger] r.1[i]) is Start) && !(r.1[i] is End))
            &&& !(m.state is Start) ==> no_start_end(r.1)
        },
{
    if m.state is Start {
        let m1 = ParserModel { state: ParserState::Header, ..m };
        lemma_header_write_events(m1, buf);
    } else {
        lemma_header_write_events(m, buf);
        lemma_line_step_events(m, buf, buf.len() as int);
    }
}

/// Does every offset the event reports lie within `[lo, hi]`?
pub open spec fn offset_within(e: EventModel, lo: int, hi: int) -> bool {
    match e {
        EventModel::PartStart { offset } => lo <= offset <= hi,
        EventModel::BodyStart { offset } => lo <= offset <= hi,
        EventModel::PartEnd { offset } => lo <= offset <= hi,
        _ => true,
    }
}

/// Offsets only grow: one logical line advances the running offset by
/// exactly its raw byte count, and every offset its events report lies
/// between the offset before the line and the offset after it. Offsets
/// are therefore monotone over any whole parse.
pub proof fn lemma_line_step_offsets(m: ParserModel, buf: Seq<u8>, blen: int)
    requires
        buf.len() <= blen,
    ensures
        line_step(m, buf, blen) matches Some(r) ==> r.0.offset == m.offset + blen && forall|i: int|
            0 <= i < r.1.len() ==> offset_within(#[trigger] r.1[i], m.offset, m.offset + blen),
{
}

/// An offset within a narrower interval is within a wider one
proof fn lemma_offset_within_widen(e: EventModel, lo: int, hi: int, lo2: int, hi2: int)
    requires
        offset_within(e, lo, hi),
        lo2 <= lo,
        hi <= hi2,
    ensures
        offset_within(e, lo2, hi2),
{
}

/// Offsets only grow over a raw header-block line as well
proof fn lemma_header_write_offsets(m: ParserModel, buf: Seq<u8>)
    requires
        m.buffer.line.len() <= m.buffer.length,
    ensures
        header_write_step(m, buf) matches Some(r) ==> m.offset <= r.0.offset && forall|i: int|
            0 <= i < r.1.len() ==> offset_within(#[trigger] r.1[i], m.offset, r.0.offset),
{
    lemma_line_step_offsets(m, buf, buf.len() as int);
    if starts_with(buf, crlf_bytes()) && m.buffer.has_value {
        let m1 = ParserModel {
            buffer: BufferModel { has_value: false, line: seq![], length: 0 },
            ..m
        };
        lemma_line_step_offsets(m1, m.buffer.line, m.buffer.length);
        match line_step(m1, m.buffer.line, m.buffer.length) {
            Some(r1) => {
                lemma_line_step_offsets(r1.0, buf, buf.len() as int);
                match line_step(r1.0, buf, buf.len() as int) {
                    Some(r2) => {
                        assert forall|i: int| 0 <= i < (r1.1 + r2.1).len() implies offset_within(
                            #[trigger] (r1.1 + r2.1)[i],
                            m.offset,
                            r2.0.offset,
                        ) by {
                            if i < r1.1.len() {
                                assert((r1.1 + r2.1)[i] == r1.1[i]);
                                lemma_offset_within_widen(
                                    r1.1[i],
                                    m1.offset,
                                    r1.0.offset,
                                    m.offset,
                                    r2.0.offset,
                                );
                            } else {
                                assert((r1.1 + r2.1)[i] == r2.1[i - r1.1.len()]);
                                lemma_offset_within_widen(
                                    r2.1[i - r1.1.len()],
                                    r1.0.offset,
                                    r2.0.offset,
                                    m.offset,
                                    r2.0.offset,
                                );
                            }
                        }
                    },
                    None => {},
                }
            },
            None => {},
        }
    } else if !starts_with(buf, crlf_bytes()) && m.buffer.has_value && !is_continuation(buf) {
        let m1 = ParserModel {
            buffer: BufferModel { has_value: true, line: buf, length: buf.len() as int },
            ..m
        };
        lemma_line_step_offsets(m1, m.buffer.line, m.buffer.length);
    }
}

/// Offsets only grow across a whole write: the running offset never
/// decreases, and every offset a write reports lies between the offset
/// before the write and the offset after it. Over a whole parse the
/// reported offsets are therefore monotone.
pub proof fn lemma_write_step_offsets(m: ParserModel, buf: Seq<u8>)
    requires
        m.buffer.line.len() <= m.buffer.length,
    ensures
        write_step(m, buf) matches Some(r) ==> m.offset <= r.0.offset && forall|i: int|
            0 <= i < r.1.len() ==> offset_within(#[trigger] r.1[i], m.offset, r.0.offset),
{
    lemma_line_step_offsets(m, buf, buf.len() as int);
    if m.state is Start {
        let m1 = ParserModel { state: ParserState::Header, ..m };
        lemma_header_write_offsets(m1, buf);
    } else {
        lemma_header_write_offsets(m, buf);
    }
}

/// Whenever as many parts and multiparts have been closed as were opened
/// (in particular after a well-formed multipart document was fully
/// consumed and ended cleanly), the emitted event log balances: it holds
/// exactly as many `PartEnd` events as `PartStart` events, and exactly as
/// many `MultipartEnd` events as `MultipartStart` events.
pub proof fn lemma_events_balanced(p: ParserCore)
    requires
        p.wf(),
        p.part_depth@ == 0,
        p.multi_depth@ == 0,
    ensures
        open_parts(p.emitted@) == 0,
        open_multiparts(p.emitted@) == 0,
{
}

} // verus!
