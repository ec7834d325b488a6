//! The push channel's wire format: a stream of server-sent events, parsed
//! line by line however the stream is cut into chunks.
use vstd::prelude::*;
use vstd::string::StringExecFns;

use crate::text::{has_prefix, same_text, strip_prefix, trim, trim_end, trim_space};

verus! {

/// One event: its type and its data.
#[derive(Debug, Clone, PartialEq)]
pub struct SseEvent {
    pub event_type: String,
    pub data: String,
}

/// The model of a parser: the event being gathered, and the start of a line
/// whose end has not arrived yet.
pub struct ParserView {
    pub event_type: Seq<char>,
    pub data: Seq<char>,
    pub partial: Seq<char>,
}

/// The model of an event.
pub open spec fn event_view(e: SseEvent) -> (Seq<char>, Seq<char>) {
    (e.event_type@, e.data@)
}

/// The event that a line completes, if any: a blank line ends the event
/// gathered so far, when it has data. Its type is `message` unless an
/// `event:` line said otherwise.
pub open spec fn line_event(p: ParserView, line: Seq<char>) -> Option<(Seq<char>, Seq<char>)> {
    if line.len() == 0 && p.data.len() > 0 {
        Some(
            (
                if p.event_type.len() == 0 {
                    "message"@
                } else {
                    p.event_type
                },
                p.data,
            ),
        )
    } else {
        None
    }
}

/// The parser after a complete line. A blank line starts a new event;
/// `event:` sets the type and `data:` adds a line of data, both without
/// surrounding white space; comments (`:`) and other fields, `id:` among
/// them, change nothing.
pub open spec fn after_line(p: ParserView, line: Seq<char>) -> ParserView {
    if line.len() == 0 {
        ParserView { event_type: Seq::empty(), data: Seq::empty(), partial: p.partial }
    } else if has_prefix(line, ":"@) {
        p
    } else if has_prefix(line, "event:"@) {
        ParserView { event_type: trim_space(line.subrange(6, line.len() as int)), ..p }
    } else if has_prefix(line, "data:"@) {
        let value = trim_space(line.subrange(5, line.len() as int));
        ParserView {
            data: if p.data.len() > 0 {
                p.data + "\n"@ + value
            } else {
                value
            },
            ..p
        }
    } else {
        p
    }
}

/// The parser, and the events completed, after the text `t`. A line ends at
/// a line feed; carriage returns before it are dropped.
pub open spec fn after_text(p: ParserView, t: Seq<char>) -> (ParserView, Seq<(Seq<char>, Seq<char>)>)
    decreases t.len(),
{
    if t.len() == 0 {
        (p, Seq::empty())
    } else {
        let (q, events) = after_text(p, t.drop_last());
        let c = t.last();
        if c == '\n' {
            let line = trim_end(q.partial, '\r');
            let next = after_line(ParserView { partial: Seq::empty(), ..q }, line);
            match line_event(q, line) {
                Some(e) => (next, events.push(e)),
                None => (next, events),
            }
        } else {
            (ParserView { partial: q.partial.push(c), ..q }, events)
        }
    }
}

/// Cutting the stream into chunks changes nothing: reading `a` and then `b`
/// leaves the parser as reading `a + b` does, with the same events in the
/// same order.
pub proof fn lemma_chunks_do_not_matter(p: ParserView, a: Seq<char>, b: Seq<char>)
    ensures
        after_text(p, a + b) == {
            let (q, e1) = after_text(p, a);
            let (r, e2) = after_text(q, b);
            (r, e1 + e2)
        },
    decreases b.len(),
{
    if b.len() == 0 {
        assert(a + b =~= a);
        let (q, e1) = after_text(p, a);
        assert(e1 + Seq::<(Seq<char>, Seq<char>)>::empty() =~= e1);
    } else {
        let b0 = b.drop_last();
        lemma_chunks_do_not_matter(p, a, b0);
        assert((a + b).drop_last() =~= a + b0);
        assert((a + b).last() == b.last());
        let (q, e1) = after_text(p, a);
        let (r0, e2) = after_text(q, b0);
        let (x, ex) = after_text(p, a + b);
        let (y, ey) = after_text(q, b);
        assert(x == y);
        assert(ex =~= e1 + ey);
    }
}

/// An incremental parser of server-sent events.
#[derive(Debug)]
pub struct SseParser {
    event_type: String,
    data: String,
    partial: String,
}

impl View for SseParser {
    type V = ParserView;

    closed spec fn view(&self) -> ParserView {
        ParserView { event_type: self.event_type@, data: self.data@, partial: self.partial@ }
    }
}

impl SseParser {
    /// A parser at the start of a stream.
    pub fn new() -> (r: SseParser)
        ensures
            r@ == (ParserView { event_type: Seq::empty(), data: Seq::empty(), partial: Seq::empty() }),
    {
        SseParser { event_type: String::new(), data: String::new(), partial: String::new() }
    }

    /// Reads one complete line, and returns the event it completes, if any.
    pub fn feed_line(&mut self, line: &str) -> (r: Option<SseEvent>)
        ensures
            final(self)@ == after_line(old(self)@, line@),
            match r {
                Some(e) => line_event(old(self)@, line@) == Some(event_view(e)),
                None => line_event(old(self)@, line@) is None,
            },
    {
        if line.unicode_len() == 0 {
            if self.data.as_str().unicode_len() != 0 {
                let event_type = if self.event_type.as_str().unicode_len() == 0 {
                    "message".to_owned()
                } else {
                    self.event_type.clone()
                };
                let data = self.data.clone();
                self.event_type = String::new();
                self.data = String::new();
                return Some(SseEvent { event_type, data });
            }
            self.event_type = String::new();
            assert(self.data@ =~= Seq::<char>::empty());
            return None;
        }
        if same_text(line.substring_char(0, 1), ":") {
            proof {
                reveal_strlit(":");
                assert(line@.subrange(0, 1) =~= ":"@);
            }
            return None;
        }
        proof {
            reveal_strlit(":");
        }
        if let Some(value) = strip_prefix(line, "event:") {
            proof {
                reveal_strlit("event:");
            }
            self.event_type = trim(value).to_owned();
        } else if let Some(value) = strip_prefix(line, "data:") {
            proof {
                reveal_strlit("data:");
            }
            if self.data.as_str().unicode_len() != 0 {
                self.data.append("\n");
            }
            self.data.append(trim(value));
        }
        None
    }

    /// Reads the next chunk of the stream, and returns the events that it
    /// completes, in order. A line cut between two chunks is kept until its
    /// end arrives.
    pub fn feed(&mut self, chunk: &str) -> (r: Vec<SseEvent>)
        ensures
            (final(self)@, r@.map_values(|e: SseEvent| event_view(e))) == after_text(old(self)@, chunk@),
    {
        let mut events: Vec<SseEvent> = Vec::new();
        let ghost start = self@;
        for c in it: chunk.chars()
            invariant
                it.seq() == chunk@,
                (self@, events@.map_values(|e: SseEvent| event_view(e))) == after_text(
                    start,
                    chunk@.subrange(0, it.index() as int),
                ),
        {
            let ghost i = it.index();
            assert(chunk@.subrange(0, i + 1).drop_last() =~= chunk@.subrange(0, i as int));
            if c == '\n' {
                let line = trim_end_char_owned(&self.partial, '\r');
                self.partial = String::new();
                let ghost before = events@;
                match self.feed_line(line.as_str()) {
                    Some(e) => {
                        events.push(e);
                        assert(events@.map_values(|e: SseEvent| event_view(e)) =~= before.map_values(
                            |e: SseEvent| event_view(e),
                        ).push(event_view(events@.last())));
                    },
                    None => {},
                }
            } else {
                self.partial.push(c);
            }
        }
        assert(chunk@.subrange(0, chunk@.len() as int) =~= chunk@);
        events
    }
}

/// A copy of `s` without the copies of `c` at its end.
fn trim_end_char_owned(s: &String, c: char) -> (r: String)
    ensures
        r@ == trim_end(s@, c),
{
    crate::text::trim_end_char(s.as_str(), c).to_owned()
}

/// Whether an event is a state change notification, the only kind the
/// client acts on.
pub fn is_state_event(e: &SseEvent) -> (r: bool)
    ensures
        r == (e.event_type@ == "state"@),
{
    same_text(e.event_type.as_str(), "state")
}

} // verus!
