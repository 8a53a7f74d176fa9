//! From the bytes of an answer to its events.
use std::collections::VecDeque;

use vstd::prelude::*;
use vstd::utf8::{decode_utf8, valid_utf8};

use crate::backend::anthropic_sse::{
    fresh_parser, AnthropicCompatSseParser, AnthropicParserView,
};
use crate::backend::error::{said, Error, ErrorView};
use crate::backend::factory::{Backend, Speaks};
use crate::backend::ndjson::{first_json_line, law_line_is_stable, split_line};
use crate::backend::ollama::{events_or_error, ollama_text_events, OllamaParser};
use crate::backend::openai_sse::{
    error_of, openai_text_events, queue_after, OpenAiCompatSseParser,
};
use crate::backend::opencode_go::ProtocolBackend;
use crate::backend::sse::{
    data_of, extract_sse_data, first_frame, law_frame_is_stable, lines, split_frame,
};
use crate::json::parsed_json;
use crate::text::{blank, is_blank, opt_text, trim_text, trimmed};
use crate::types::{stream_view, StreamEvent, StreamView};

verus! {

/// What `String::from_utf8_lossy` makes of bytes.
pub uninterp spec fn lossy_text(bytes: Seq<u8>) -> Seq<char>;

/// `String::from_utf8_lossy`: bytes as text. What is UTF-8 is read as such; for the rest, what
/// stands in for it is not said here.
#[verifier::external_body]
fn text_of_bytes(bytes: &[u8]) -> (r: String)
    ensures
        r@ == lossy_text(bytes@),
        valid_utf8(bytes@) ==> r@ == decode_utf8(bytes@),
{
    String::from_utf8_lossy(bytes).into_owned()
}

/// Reads the pieces of an answer one by one.
pub trait EventParser: Sized {
    /// What the parser knows.
    type Known;

    /// What the parser knows.
    spec fn known(&self) -> Self::Known;

    /// What a parser knows after one piece of an answer, and the events that it hands out or what
    /// went wrong.
    spec fn fed(known: Self::Known, data: Seq<char>) -> (
        Self::Known,
        Result<Seq<StreamView>, ErrorView>,
    );

    /// Takes in one piece of an answer.
    fn feed(&mut self, data: &str) -> (r: Result<Vec<StreamEvent>, Error>)
        ensures
            (final(self).known(), events_or_error(r)) == Self::fed(old(self).known(), data@),
    ;
}

impl EventParser for AnthropicCompatSseParser {
    type Known = AnthropicParserView;

    open spec fn known(&self) -> AnthropicParserView {
        self@
    }

    open spec fn fed(known: AnthropicParserView, data: Seq<char>) -> (
        AnthropicParserView,
        Result<Seq<StreamView>, ErrorView>,
    ) {
        let step = known.after_text(data, parsed_json(data));
        match step.error {
            Some(e) => (step.parser, Err(e)),
            None => (
                AnthropicParserView { queue: Seq::empty(), ..step.parser },
                Ok(step.parser.queue),
            ),
        }
    }

    fn feed(&mut self, data: &str) -> (r: Result<Vec<StreamEvent>, Error>) {
        match self.fill_buffer(data) {
            Ok(()) => Ok(self.take_events()),
            Err(e) => Err(e),
        }
    }
}

impl EventParser for OpenAiCompatSseParser {
    type Known = Seq<StreamView>;

    open spec fn known(&self) -> Seq<StreamView> {
        self@
    }

    open spec fn fed(known: Seq<StreamView>, data: Seq<char>) -> (
        Seq<StreamView>,
        Result<Seq<StreamView>, ErrorView>,
    ) {
        let events = openai_text_events(data, parsed_json(data));
        let after = queue_after(known, events);
        match error_of(events) {
            Some(e) => (after, Err(e)),
            None => (Seq::empty(), Ok(after)),
        }
    }

    fn feed(&mut self, data: &str) -> (r: Result<Vec<StreamEvent>, Error>) {
        match self.fill_buffer(data) {
            Ok(()) => Ok(self.take_events()),
            Err(e) => Err(e),
        }
    }
}

impl EventParser for OllamaParser {
    type Known = ();

    open spec fn known(&self) -> () {
        ()
    }

    open spec fn fed(known: (), data: Seq<char>) -> ((), Result<Seq<StreamView>, ErrorView>) {
        ((), ollama_text_events(data, parsed_json(data)))
    }

    fn feed(&mut self, data: &str) -> (r: Result<Vec<StreamEvent>, Error>) {
        self.parse_chunk(data)
    }
}

/// How an answer is cut into pieces.
#[derive(Clone, Copy, Debug, PartialEq, Eq, Structural)]
pub enum Framing {
    /// Server-sent events.
    Sse,
    /// Lines of JSON.
    Lines,
}

/// The first complete piece of a text, if it holds data, and what follows it.
pub open spec fn first_piece(framing: Framing, text: Seq<char>) -> Option<
    (Option<Seq<char>>, Seq<char>),
> {
    match framing {
        Framing::Lines => match first_json_line(text) {
            Some((line, rest)) => Some(
                (
                    if line.len() == 0 {
                        None
                    } else {
                        Some(line)
                    },
                    rest,
                ),
            ),
            None => None,
        },
        Framing::Sse => match first_frame(text) {
            Some((frame, rest)) => Some((data_of(lines(frame)), rest)),
            None => None,
        },
    }
}

/// The data in what is left when an answer ends, if there are any.
pub open spec fn last_piece(framing: Framing, text: Seq<char>) -> Option<Seq<char>> {
    if is_blank(text) {
        None
    } else {
        match framing {
            Framing::Lines => Some(trimmed(text)),
            Framing::Sse => data_of(lines(text)),
        }
    }
}

/// The first complete piece of a text, if it holds data, and what follows it.
fn split_piece(framing: Framing, text: &str) -> (r: Option<(Option<String>, String)>)
    ensures
        match r {
            Some((data, rest)) => first_piece(framing, text@) == Some((opt_text(data), rest@)),
            None => first_piece(framing, text@) is None,
        },
{
    match framing {
        Framing::Lines => match split_line(text) {
            Some((line, rest)) => if line.as_str().is_empty() {
                Some((None, rest))
            } else {
                Some((Some(line), rest))
            },
            None => None,
        },
        Framing::Sse => match split_frame(text) {
            Some((frame, rest)) => match extract_sse_data(frame.as_str()) {
                Some(data) => Some((Some(data.to_owned()), rest)),
                None => Some((None, rest)),
            },
            None => None,
        },
    }
}

/// The data in what is left when an answer ends, if there are any.
fn split_last(framing: Framing, text: &str) -> (r: Option<String>)
    ensures
        opt_text(r) == last_piece(framing, text@),
{
    if blank(text) {
        return None;
    }
    match framing {
        Framing::Lines => Some(trim_text(text).to_owned()),
        Framing::Sse => match extract_sse_data(text) {
            Some(data) => Some(data.to_owned()),
            None => None,
        },
    }
}

/// Text that follows a complete piece does not change that piece, and a piece takes some text.
pub proof fn law_piece_is_stable(framing: Framing, text: Seq<char>, more: Seq<char>)
    ensures
        match first_piece(framing, text) {
            Some((data, rest)) => {
                &&& first_piece(framing, text + more) == Some((data, rest + more))
                &&& rest.len() < text.len()
            },
            None => true,
        },
{
    match framing {
        Framing::Lines => {
            if first_json_line(text) is Some {
                law_line_is_stable(text, more);
            }
        },
        Framing::Sse => {
            if first_frame(text) is Some {
                law_frame_is_stable(text, more);
            }
        },
    }
}

/// What comes next from an answer.
pub enum Next {
    /// An event.
    Event(StreamEvent),
    /// Something went wrong; more may follow.
    Failed(Error),
    /// Nothing, until more bytes come.
    NeedBytes,
    /// Nothing any more.
    Ended,
}

/// What a [`Next`] says.
#[verifier::ext_equal]
pub enum NextView {
    Event(StreamView),
    Failed(ErrorView),
    NeedBytes,
    Ended,
}

impl Next {
    pub open spec fn view(self) -> NextView {
        match self {
            Next::Event(e) => NextView::Event(e@),
            Next::Failed(e) => NextView::Failed(e@),
            Next::NeedBytes => NextView::NeedBytes,
            Next::Ended => NextView::Ended,
        }
    }
}

/// The events of an answer, as its bytes come in.
pub struct EventStream<P> {
    framing: Framing,
    parser: P,
    buffer: String,
    queue: VecDeque<StreamEvent>,
}

/// What an [`EventStream`] knows: the text that was not cut into pieces yet, and the events that
/// were not handed out yet.
#[verifier::ext_equal]
pub struct EventStreamView<K> {
    pub framing: Framing,
    pub parser: K,
    pub buffer: Seq<char>,
    pub queue: Seq<StreamView>,
}

impl<K> EventStreamView<K> {
    /// The stream with more text.
    pub open spec fn with_text(self, text: Seq<char>) -> EventStreamView<K> {
        EventStreamView { buffer: self.buffer + text, ..self }
    }

    /// The stream without the first event that waits.
    pub open spec fn popped(self) -> EventStreamView<K> {
        EventStreamView { queue: self.queue.drop_first(), ..self }
    }

    /// The stream after the text up to `rest` was cut off.
    pub open spec fn cut(self, rest: Seq<char>) -> EventStreamView<K> {
        EventStreamView { buffer: rest, ..self }
    }

    /// The stream after a piece was taken in.
    pub open spec fn taken(self, parser: K, rest: Seq<char>, queue: Seq<StreamView>) -> EventStreamView<K> {
        EventStreamView { framing: self.framing, parser, buffer: rest, queue }
    }
}

/// The stream after the next thing was handed out, and that thing: events that wait first, then
/// what the next complete piece with data yields.
pub open spec fn next_of<P: EventParser>(s: EventStreamView<P::Known>) -> (
    EventStreamView<P::Known>,
    NextView,
)
    decreases s.buffer.len(),
{
    proof {
        law_piece_is_stable(s.framing, s.buffer, Seq::empty());
    }
    if s.queue.len() > 0 {
        (s.popped(), NextView::Event(s.queue[0]))
    } else {
        match first_piece(s.framing, s.buffer) {
            None => (s, NextView::NeedBytes),
            Some((None, rest)) => next_of::<P>(s.cut(rest)),
            Some((Some(data), rest)) => {
                let (parser, events) = P::fed(s.parser, data);
                match events {
                    Ok(queue) => next_of::<P>(s.taken(parser, rest, queue)),
                    Err(e) => (s.taken(parser, rest, s.queue), NextView::Failed(e)),
                }
            },
        }
    }
}

/// The stream after its bytes have ended and it was asked for more, and what that leads to: what
/// is left is read as a last piece.
pub open spec fn end_of<P: EventParser>(s: EventStreamView<P::Known>) -> (
    EventStreamView<P::Known>,
    NextView,
) {
    match last_piece(s.framing, s.buffer) {
        None => (s, NextView::Ended),
        Some(data) => {
            let (parser, events) = P::fed(s.parser, data);
            match events {
                Ok(more) => if s.queue.len() + more.len() == 0 {
                    (s.taken(parser, Seq::empty(), s.queue + more), NextView::Ended)
                } else {
                    next_of::<P>(s.taken(parser, Seq::empty(), s.queue + more))
                },
                Err(e) => (s.taken(parser, Seq::empty(), s.queue), NextView::Failed(e)),
            }
        },
    }
}

/// Everything that can be handed out before more bytes are needed, and the stream after that.
pub open spec fn drained<P: EventParser>(s: EventStreamView<P::Known>) -> (
    EventStreamView<P::Known>,
    Seq<NextView>,
)
    decreases s.buffer.len(), s.queue.len(),
{
    proof {
        law_piece_is_stable(s.framing, s.buffer, Seq::empty());
    }
    if s.queue.len() > 0 {
        let (end, more) = drained::<P>(s.popped());
        (end, seq![NextView::Event(s.queue[0])] + more)
    } else {
        match first_piece(s.framing, s.buffer) {
            None => (s, Seq::empty()),
            Some((None, rest)) => drained::<P>(s.cut(rest)),
            Some((Some(data), rest)) => {
                let (parser, events) = P::fed(s.parser, data);
                match events {
                    Ok(queue) => drained::<P>(s.taken(parser, rest, queue)),
                    Err(e) => {
                        let (end, more) = drained::<P>(s.taken(parser, rest, s.queue));
                        (end, seq![NextView::Failed(e)] + more)
                    },
                }
            },
        }
    }
}

/// A stream to which no bytes came.
pub open spec fn fresh_stream<K>(framing: Framing, parser: K) -> EventStreamView<K> {
    EventStreamView { framing, parser, buffer: Seq::empty(), queue: Seq::empty() }
}

/// The events of an answer that comes as server-sent events.
pub fn create_sse_event_stream<P: EventParser>(parser: P) -> (r: EventStream<P>)
    ensures
        r@ == fresh_stream(Framing::Sse, parser.known()),
{
    EventStream::new(Framing::Sse, parser)
}

/// The events of an answer that comes as lines of JSON.
pub fn create_ndjson_event_stream<P: EventParser>(parser: P) -> (r: EventStream<P>)
    ensures
        r@ == fresh_stream(Framing::Lines, parser.known()),
{
    EventStream::new(Framing::Lines, parser)
}

impl<P: EventParser> EventStream<P> {
    pub closed spec fn view(self) -> EventStreamView<P::Known> {
        EventStreamView {
            framing: self.framing,
            parser: self.parser.known(),
            buffer: self.buffer@,
            queue: stream_view(self.queue@),
        }
    }

    /// A stream to which no bytes came.
    fn new(framing: Framing, parser: P) -> (r: EventStream<P>)
        ensures
            r@ == fresh_stream(framing, parser.known()),
    {
        let r = EventStream { framing, parser, buffer: String::new(), queue: VecDeque::new() };
        assert(r@.queue =~= Seq::empty());
        r
    }

    /// Takes in text.
    pub fn push_text(&mut self, text: &str)
        ensures
            final(self)@ == old(self)@.with_text(text@),
    {
        self.buffer.append(text);
    }

    /// Takes in bytes.
    pub fn push_bytes(&mut self, bytes: &[u8])
        ensures
            final(self)@ == old(self)@.with_text(lossy_text(bytes@)),
            valid_utf8(bytes@) ==> final(self)@ == old(self)@.with_text(decode_utf8(bytes@)),
    {
        let text = text_of_bytes(bytes);
        self.push_text(text.as_str());
    }

    fn enqueue(&mut self, events: Vec<StreamEvent>)
        ensures
            final(self)@ == (EventStreamView {
                queue: old(self)@.queue + stream_view(events@),
                ..old(self)@
            }),
    {
        let ghost before = self@;
        let ghost all = stream_view(events@);
        for event in it: events
            invariant
                all == it.seq().map_values(|e: StreamEvent| e@),
                self@ == (EventStreamView {
                    queue: before.queue + all.take(it.index() as int),
                    ..before
                }),
        {
            let ghost mid = self@;
            self.queue.push_back(event);
            assert(stream_view(self.queue@) =~= mid.queue.push(event@));
            assert(all.take(it.index() + 1) =~= all.take(it.index() as int).push(event@));
            assert(self@.queue =~= before.queue + all.take(it.index() + 1));
        }
        assert(all.take(all.len() as int) =~= all);
    }

    /// Hands out the next thing.
    pub fn next(&mut self) -> (r: Next)
        ensures
            (final(self)@, r@) == next_of::<P>(old(self)@),
    {
        let mut left: usize = self.buffer.as_str().unicode_len();
        loop
            invariant
                left == self@.buffer.len(),
                next_of::<P>(self@) == next_of::<P>(old(self)@),
            decreases left,
        {
            proof {
                law_piece_is_stable(self@.framing, self@.buffer, Seq::empty());
            }
            let ghost before = self@;
            if let Some(event) = self.queue.pop_front() {
                assert(stream_view(self.queue@) =~= before.queue.drop_first());
                return Next::Event(event);
            }
            assert(before.queue.len() == 0);
            assert(self@ =~= before);
            match split_piece(self.framing, self.buffer.as_str()) {
                None => {
                    return Next::NeedBytes;
                },
                Some((data, rest)) => {
                    self.buffer = rest;
                    match data {
                        None => {},
                        Some(data) => match self.parser.feed(data.as_str()) {
                            Ok(events) => {
                                self.enqueue(events);
                                assert(self@.queue =~= stream_view(events@));
                            },
                            Err(e) => {
                                return Next::Failed(e);
                            },
                        },
                    }
                },
            }
            left = self.buffer.as_str().unicode_len();
        }
    }

    /// Hands out the next thing after the bytes have ended. What is left is read as a last piece;
    /// once nothing is left the stream has ended.
    pub fn finish(&mut self) -> (r: Next)
        ensures
            (final(self)@, r@) == end_of::<P>(old(self)@),
    {
        match split_last(self.framing, self.buffer.as_str()) {
            None => Next::Ended,
            Some(data) => {
                self.buffer = String::new();
                assert(self.buffer@ =~= Seq::empty());
                match self.parser.feed(data.as_str()) {
                    Ok(events) => {
                        self.enqueue(events);
                        if self.queue.len() == 0 {
                            Next::Ended
                        } else {
                            self.next()
                        }
                    },
                    Err(e) => Next::Failed(e),
                }
            },
        }
    }
}

/// The error when the bytes of an answer cannot be read.
pub fn read_error(words: &str) -> (r: Error)
    ensures
        r@ == said("Stream read error: "@ + words@),
{
    let mut s = "Stream read error: ".to_owned();
    s.append(words);
    Error::msg(s.as_str())
}

/// What can be handed out is what comes next, and then what can be handed out after that.
pub proof fn law_drained_is_next_by_next<P: EventParser>(s: EventStreamView<P::Known>)
    ensures
        ({
            let (after, next) = next_of::<P>(s);
            let (end, more) = drained::<P>(after);
            drained::<P>(s) == if next is NeedBytes {
                (after, Seq::<NextView>::empty())
            } else {
                (end, seq![next] + more)
            }
        }),
    decreases s.buffer.len(), s.queue.len(),
{
    law_piece_is_stable(s.framing, s.buffer, Seq::empty());
    if s.queue.len() == 0 {
        match first_piece(s.framing, s.buffer) {
            None => {},
            Some((None, rest)) => {
                law_drained_is_next_by_next::<P>(s.cut(rest));
            },
            Some((Some(data), rest)) => {
                let (parser, events) = P::fed(s.parser, data);
                if let Ok(queue) = events {
                    law_drained_is_next_by_next::<P>(s.taken(parser, rest, queue));
                }
            },
        }
    }
}

/// How a text is cut into chunks does not matter: the events are the same, and so is the stream
/// afterwards, whether all of it comes at once or some of it later.
pub proof fn law_chunks_do_not_matter<P: EventParser>(
    s: EventStreamView<P::Known>,
    more: Seq<char>,
)
    ensures
        ({
            let (mid, first) = drained::<P>(s);
            let (end, second) = drained::<P>(mid.with_text(more));
            drained::<P>(s.with_text(more)) == (end, first + second)
        }),
    decreases s.buffer.len(), s.queue.len(),
{
    law_piece_is_stable(s.framing, s.buffer, more);
    let long = s.with_text(more);
    if s.queue.len() > 0 {
        let t = s.popped();
        law_chunks_do_not_matter::<P>(t, more);
        assert(t.with_text(more) =~= long.popped());
        lemma_lead(NextView::Event(s.queue[0]), drained::<P>(t).1, drained::<P>(
            drained::<P>(t).0.with_text(more),
        ).1);
    } else {
        match first_piece(s.framing, s.buffer) {
            None => {
                assert(Seq::<NextView>::empty() + drained::<P>(long).1 =~= drained::<P>(long).1);
            },
            Some((None, rest)) => {
                let t = s.cut(rest);
                law_chunks_do_not_matter::<P>(t, more);
                assert(t.with_text(more) =~= long.cut(rest + more));
            },
            Some((Some(data), rest)) => {
                let (parser, events) = P::fed(s.parser, data);
                match events {
                    Ok(queue) => {
                        let t = s.taken(parser, rest, queue);
                        law_chunks_do_not_matter::<P>(t, more);
                        assert(t.with_text(more) =~= long.taken(parser, rest + more, queue));
                    },
                    Err(e) => {
                        let t = s.taken(parser, rest, s.queue);
                        law_chunks_do_not_matter::<P>(t, more);
                        assert(t.with_text(more) =~= long.taken(parser, rest + more, s.queue));
                        lemma_lead(NextView::Failed(e), drained::<P>(t).1, drained::<P>(
                            drained::<P>(t).0.with_text(more),
                        ).1);
                    },
                }
            },
        }
    }
}

proof fn lemma_lead(lead: NextView, first: Seq<NextView>, second: Seq<NextView>)
    ensures
        seq![lead] + (first + second) == (seq![lead] + first) + second,
{
    assert(seq![lead] + (first + second) =~= (seq![lead] + first) + second);
}

/// A stream that reads the answers of one protocol or another.
pub enum AnyStream {
    Anthropic(EventStream<AnthropicCompatSseParser>),
    OpenAi(EventStream<OpenAiCompatSseParser>),
    Ollama(EventStream<OllamaParser>),
}

impl AnyStream {
    /// Whether the stream is the fresh one of the given protocol.
    pub open spec fn is_fresh_for(self, speaks: Speaks) -> bool {
        match speaks {
            Speaks::Anthropic => self matches AnyStream::Anthropic(s) && s@ == fresh_stream(
                Framing::Sse,
                fresh_parser(),
            ),
            Speaks::OpenAi { .. } => self matches AnyStream::OpenAi(s) && s@ == fresh_stream(
                Framing::Sse,
                Seq::<StreamView>::empty(),
            ),
            Speaks::Ollama => self matches AnyStream::Ollama(s) && s@ == fresh_stream(
                Framing::Lines,
                (),
            ),
        }
    }

    /// The stream that reads the answers of a backend.
    pub fn for_backend(backend: &Backend) -> (r: AnyStream)
        ensures
            r.is_fresh_for(backend@.speaks()),
    {
        let anthropic = match backend {
            Backend::Vertex(_) => true,
            Backend::Anthropic(_) => true,
            Backend::OpenCodeGo(b) => matches!(b.backend, ProtocolBackend::Anthropic(_)),
            Backend::Ollama(_) => {
                return AnyStream::Ollama(create_ndjson_event_stream(OllamaParser::new()));
            },
            _ => false,
        };
        if anthropic {
            AnyStream::Anthropic(create_sse_event_stream(AnthropicCompatSseParser::new()))
        } else {
            AnyStream::OpenAi(create_sse_event_stream(OpenAiCompatSseParser::new()))
        }
    }

    /// Takes in bytes.
    pub fn push_bytes(&mut self, bytes: &[u8])
        ensures
            match (*old(self), *final(self)) {
                (AnyStream::Anthropic(s), AnyStream::Anthropic(t)) => {
                    &&& t@ == s@.with_text(lossy_text(bytes@))
                    &&& valid_utf8(bytes@) ==> t@ == s@.with_text(decode_utf8(bytes@))
                },
                (AnyStream::OpenAi(s), AnyStream::OpenAi(t)) => {
                    &&& t@ == s@.with_text(lossy_text(bytes@))
                    &&& valid_utf8(bytes@) ==> t@ == s@.with_text(decode_utf8(bytes@))
                },
                (AnyStream::Ollama(s), AnyStream::Ollama(t)) => {
                    &&& t@ == s@.with_text(lossy_text(bytes@))
                    &&& valid_utf8(bytes@) ==> t@ == s@.with_text(decode_utf8(bytes@))
                },
                _ => false,
            },
    {
        match self {
            AnyStream::Anthropic(s) => s.push_bytes(bytes),
            AnyStream::OpenAi(s) => s.push_bytes(bytes),
            AnyStream::Ollama(s) => s.push_bytes(bytes),
        }
    }

    /// Hands out the next thing.
    pub fn next(&mut self) -> (r: Next)
        ensures
            match (*old(self), *final(self)) {
                (AnyStream::Anthropic(s), AnyStream::Anthropic(t)) => (t@, r@) == next_of::<
                    AnthropicCompatSseParser,
                >(s@),
                (AnyStream::OpenAi(s), AnyStream::OpenAi(t)) => (t@, r@) == next_of::<
                    OpenAiCompatSseParser,
                >(s@),
                (AnyStream::Ollama(s), AnyStream::Ollama(t)) => (t@, r@) == next_of::<
                    OllamaParser,
                >(s@),
                _ => false,
            },
    {
        match self {
            AnyStream::Anthropic(s) => s.next(),
            AnyStream::OpenAi(s) => s.next(),
            AnyStream::Ollama(s) => s.next(),
        }
    }

    /// Hands out the next thing after the bytes have ended.
    pub fn finish(&mut self) -> (r: Next)
        ensures
            match (*old(self), *final(self)) {
                (AnyStream::Anthropic(s), AnyStream::Anthropic(t)) => (t@, r@) == end_of::<
                    AnthropicCompatSseParser,
                >(s@),
                (AnyStream::OpenAi(s), AnyStream::OpenAi(t)) => (t@, r@) == end_of::<
                    OpenAiCompatSseParser,
                >(s@),
                (AnyStream::Ollama(s), AnyStream::Ollama(t)) => (t@, r@) == end_of::<
                    OllamaParser,
                >(s@),
                _ => false,
            },
    {
        match self {
            AnyStream::Anthropic(s) => s.finish(),
            AnyStream::OpenAi(s) => s.finish(),
            AnyStream::Ollama(s) => s.finish(),
        }
    }
}

} // verus!
