//! Wraps the parsing machine and the aggregator to parse whole messages:
//! body lines go in, a [`Message`] overview comes out at the end, equal by
//! contract to the fold of the aggregation rule over the exact event
//! stream the lines produced. The parser is also a [`Sink`], so a session
//! can write a message body straight into it.

use vstd::prelude::*;

verus! {

use crate::handler::Sink;
use crate::mime::event::{Event, EventModel};
use crate::mime::message::Message;
use crate::mime::message_handler::{MessageHandler, agg_fold, fresh_agg, lemma_agg_fold_push};
use crate::mime::parser::{Handler, ParserCore, ParserState, events_model,
    lemma_events_model_drop_first, write_step};

/// Wraps an event parser to parse messages
pub struct MessageParser {
    /// The parsing machine, feeding the aggregator below
    pub core: ParserCore,
    /// The aggregator that files every part as it closes
    pub handler: MessageHandler,
    /// Everything accepted so far
    pub received: Ghost<Seq<u8>>,
    /// Set once a line could not be parsed; the overview is then no
    /// longer claimed
    pub stuck: bool,
}

impl MessageParser {
    /// The machine's bookkeeping is sound, and the aggregator holds
    /// exactly the fold of the aggregation rule over every event the
    /// machine has emitted
    pub open spec fn wf(&self) -> bool {
        &&& self.core.wf()
        &&& !self.stuck ==> self.handler@ == agg_fold(fresh_agg(), self.core.emitted@)
    }

    /// A parser for a fresh message
    pub fn new() -> (p: MessageParser)
        ensures
            p.wf(),
            p.core.bracketed(),
            !p.stuck,
            p.received@ == Seq::<u8>::empty(),
            p.core@.state == ParserState::Start,
            p.core.emitted@ == Seq::<EventModel>::empty(),
    {
        let p = MessageParser {
            core: ParserCore::new(),
            handler: MessageHandler::new(),
            received: Ghost(Seq::empty()),
            stuck: false,
        };
        p
    }

    /// Write one line of the message; false when a header line could not
    /// be parsed or the message has grown past the offset space. On
    /// success the machine follows [`write_step`] and the aggregator
    /// absorbs exactly the events of that step, in order.
    #[verifier::rlimit(60)]
    pub fn write(&mut self, buf: &[u8]) -> (ok: bool)
        requires
            old(self).wf(),
        ensures
            final(self).wf(),
            old(self).core.bracketed() && ok ==> final(self).core.bracketed(),
            ok ==> final(self).received@ == old(self).received@ + buf@ && final(self).stuck
                == old(self).stuck && (write_step(old(self).core@, buf@) matches Some(r) && final(self).core@ == r.0 && final(self).core.emitted@ == old(self).core.emitted@ + r.1),
            !ok ==> final(self).received@ == old(self).received@,
    {
        if self.core.offset > usize::MAX - buf.len() {
            return false;
        }
        if self.core.header_buffer.length > usize::MAX - buf.len() - self.core.offset {
            return false;
        }
        let ghost emitted0 = self.core.emitted@;
        match self.core.write(buf) {
            None => {
                self.stuck = true;
                false
            },
            Some(mut events) => {
                let ghost delta = events_model(events@);
                let ghost mut j: int = 0;
                let ghost core_now = self.core;
                let ghost rec0 = self.received@;
                proof {
                    assert(emitted0 + delta.take(0) =~= emitted0);
                }
                while events.len() > 0
                    invariant
                        self.core == core_now,
                        self.received@ == rec0,
                        self.stuck == old(self).stuck,
                        core_now.emitted@ == emitted0 + delta,
                        0 <= j <= delta.len(),
                        events_model(events@) == delta.skip(j),
                        !old(self).stuck ==> self.handler@ == agg_fold(
                            fresh_agg(),
                            emitted0 + delta.take(j),
                        ),
                    decreases events@.len(),
                {
                    let ghost events0 = events@;
                    proof {
                        assert(events_model(events0).len() == events0.len());
                        assert(delta.skip(j).len() == delta.len() - j);
                        assert(j < delta.len());
                    }
                    let ev = events.remove(0);
                    proof {
                        assert(ev == events0[0]);
                        assert(ev@ == delta[j]) by {
                            assert(events_model(events0)[0] == events0[0]@);
                            assert(delta.skip(j)[0] == delta[j]);
                        }
                        assert(events@ =~= events0.drop_first());
                        lemma_events_model_drop_first(events0);
                        assert(events_model(events@) =~= delta.skip(j + 1)) by {
                            assert(events_model(events0).drop_first() =~= delta.skip(j).drop_first());
                            assert(delta.skip(j).drop_first() =~= delta.skip(j + 1));
                        }
                    }
                    self.handler.event(ev);
                    proof {
                        lemma_agg_fold_push(fresh_agg(), emitted0 + delta.take(j), delta[j]);
                        assert((emitted0 + delta.take(j)).push(delta[j]) =~= emitted0 + delta.take(
                            j + 1,
                        ));
                        j = j + 1;
                    }
                }
                proof {
                    assert(delta.skip(j).len() == 0);
                    assert(j == delta.len());
                    assert(emitted0 + delta.take(j) =~= emitted0 + delta);
                }
                let ghost rec = self.received@ + buf@;
                self.received = Ghost(rec);
                true
            },
        }
    }

    /// Signal the end of a message: unless a line was refused along the
    /// way, the returned overview is exactly the aggregation rule folded
    /// over every emitted event, closed by `End`.
    pub fn end(self) -> (m: Message)
        requires
            self.wf(),
        ensures
            !self.stuck ==> m@ == agg_fold(
                fresh_agg(),
                self.core.emitted@.push(EventModel::End),
            ).message,
    {
        let MessageParser { core, mut handler, .. } = self;
        handler.event(Event::End);
        proof {
            lemma_agg_fold_push(fresh_agg(), core.emitted@, EventModel::End);
        }
        handler.get_message()
    }
}

/// A message parser is a byte sink: the session can hand it body lines
/// directly while receiving a message
impl Sink for MessageParser {
    open spec fn contents(&self) -> Seq<u8> {
        self.received@
    }

    open spec fn inv(&self) -> bool {
        self.wf()
    }

    fn append(&mut self, line: &[u8]) -> (ok: bool) {
        self.write(line)
    }
}

} // verus!
