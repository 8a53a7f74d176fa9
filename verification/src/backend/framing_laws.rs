//! What the pieces of an answer hold.
use vstd::prelude::*;

use crate::backend::anthropic_sse::{
    fresh_parser, AnthropicCompatSseParser, AnthropicParserView,
};
use crate::backend::error::ErrorView;
use crate::backend::factory::Speaks;
use crate::backend::ollama::{ollama_text_events, OllamaParser};
use crate::backend::openai_sse::{openai_text_events, OpenAiCompatSseParser};
use crate::backend::sse::{data_of, first_frame, first_line, line_end, lines};
use crate::backend::stream::{
    drained, end_of, first_piece, fresh_stream, last_piece, AnyStream, EventParser,
    EventStreamView, Framing, NextView,
};
use crate::json::parsed_json;
use crate::text::{
    holds_at, is_blank, is_white_space, lemma_first_occurrence, trim_end, trim_start, trimmed,
};
use crate::types::StreamView;

verus! {

/// Whether a text is a single line.
pub open spec fn one_line(s: Seq<char>) -> bool {
    forall|i: int| 0 <= i < s.len() ==> #[trigger] s[i] != '\n'
}

/// Whether a text neither begins nor ends with white space.
pub open spec fn is_tight(s: Seq<char>) -> bool {
    s.len() > 0 && !is_white_space(s[0]) && !is_white_space(s.last())
}

/// A frame with the given data.
pub open spec fn frame_of(data: Seq<char>) -> Seq<char> {
    "data: "@ + data + "\n\n"@
}

proof fn lemma_line_ends(line: Seq<char>, rest: Seq<char>)
    requires
        one_line(line),
    ensures
        line_end(line) == line.len(),
        line_end(line + "\n"@ + rest) == line.len(),
    decreases line.len(),
{
    reveal_strlit("\n");
    let whole = line + "\n"@ + rest;
    if line.len() == 0 {
        assert(whole[0] == '\n');
    } else {
        let tail = line.drop_first();
        assert forall|i: int| 0 <= i < tail.len() implies #[trigger] tail[i] != '\n' by {
            assert(tail[i] == line[i + 1]);
        }
        lemma_line_ends(tail, rest);
        assert(whole[0] == line[0]);
        assert(whole.drop_first() =~= tail + "\n"@ + rest);
    }
}

proof fn lemma_single_line(line: Seq<char>)
    requires
        one_line(line),
    ensures
        data_of(lines(line)) == if holds_at(line, "data: "@, 0) {
            Some(line.skip(6))
        } else {
            None
        },
{
    reveal_strlit("data: ");
    lemma_line_ends(line, Seq::empty());
    reveal_with_fuel(data_of, 3);
    if line.len() > 0 {
        assert(lines(line) =~= seq![line]);
        assert(lines(line).drop_first() =~= Seq::empty());
    }
}

proof fn lemma_two_lines(line: Seq<char>, next: Seq<char>)
    requires
        one_line(line),
        !holds_at(line, "data: "@, 0),
    ensures
        data_of(lines(line + "\n"@ + next)) == data_of(lines(next)),
{
    reveal_strlit("\n");
    reveal_strlit("data: ");
    let whole = line + "\n"@ + next;
    lemma_line_ends(line, next);
    assert(whole.skip(line.len() as int + 1) =~= next);
    let first = first_line(whole);
    assert(lines(whole) == seq![first] + lines(next));
    assert(lines(whole)[0] == first);
    assert(lines(whole).drop_first() =~= lines(next));
    if holds_at(first, "data: "@, 0) {
        assert(line.subrange(0, 6) =~= first.subrange(0, 6));
        assert(holds_at(line, "data: "@, 0));
    }
}

proof fn lemma_frame_found(frame: Seq<char>, rest: Seq<char>)
    requires
        forall|i: int| 0 <= i < frame.len() - 1 ==> !(#[trigger] frame[i] == '\n' && frame[i + 1] == '\n'),
        frame.len() > 0 ==> frame.last() != '\n',
    ensures
        first_frame(frame + "\n\n"@ + rest) == Some((frame, rest)),
{
    reveal_strlit("\n\n");
    let whole = frame + "\n\n"@ + rest;
    let n = frame.len() as int;
    assert(whole.subrange(n, n + 2) =~= "\n\n"@);
    assert(holds_at(whole, "\n\n"@, n));
    assert forall|j: int| 0 <= j < n implies !#[trigger] holds_at(whole, "\n\n"@, j) by {
        if holds_at(whole, "\n\n"@, j) {
            let part = whole.subrange(j, j + 2);
            assert(part[0] == '\n' && part[1] == '\n');
            assert(whole[j] == '\n' && whole[j + 1] == '\n');
            assert(frame[j] == '\n');
            if j < n - 1 {
                assert(frame[j + 1] == '\n');
            }
        }
    }
    lemma_first_occurrence(whole, "\n\n"@, n);
    assert(whole.take(n) =~= frame);
    assert(whole.skip(n + 2) =~= rest);
}

/// The data of a server-sent event are what follows "data: " in its line, to the last character;
/// what follows the frame is what is left.
pub proof fn law_frame_holds_its_data(data: Seq<char>, rest: Seq<char>)
    requires
        one_line(data),
    ensures
        first_piece(Framing::Sse, frame_of(data) + rest) == Some((Some(data), rest)),
{
    reveal_strlit("data: ");
    let frame = "data: "@ + data;
    assert(one_line(frame)) by {
        assert forall|i: int| 0 <= i < frame.len() implies #[trigger] frame[i] != '\n' by {
            if i >= 6 {
                assert(frame[i] == data[i - 6]);
            }
        }
    }
    lemma_frame_found(frame, rest);
    assert(frame_of(data) + rest =~= frame + "\n\n"@ + rest);
    lemma_single_line(frame);
    assert(frame.subrange(0, 6) =~= "data: "@);
    assert(frame.skip(6) =~= data);
}

/// A line before the data, such as one that names the event, makes no difference, and a frame with
/// no other line holds no data.
pub proof fn law_other_lines_are_skipped(line: Seq<char>, data: Seq<char>, rest: Seq<char>)
    requires
        line.len() > 0,
        one_line(line),
        one_line(data),
        !holds_at(line, "data: "@, 0),
    ensures
        first_piece(Framing::Sse, line + "\n"@ + frame_of(data) + rest) == Some(
            (Some(data), rest),
        ),
        first_piece(Framing::Sse, line + "\n\n"@ + rest) == Some((None::<Seq<char>>, rest)),
{
    reveal_strlit("data: ");
    reveal_strlit("\n");
    let last = "data: "@ + data;
    let frame = line + "\n"@ + last;
    assert(one_line(last)) by {
        assert forall|i: int| 0 <= i < last.len() implies #[trigger] last[i] != '\n' by {
            if i >= 6 {
                assert(last[i] == data[i - 6]);
            }
        }
    }
    let n = line.len() as int;
    assert forall|i: int| 0 <= i < frame.len() - 1 implies !(#[trigger] frame[i] == '\n'
        && frame[i + 1] == '\n') by {
        if i < n {
            assert(frame[i] == line[i]);
        } else if i == n {
            assert(frame[i + 1] == last[0]);
        } else {
            assert(frame[i] == last[i - n - 1]);
        }
    }
    assert(frame.last() == last.last());
    assert(last.last() == last[last.len() - 1]);
    lemma_frame_found(frame, rest);
    assert(line + "\n"@ + frame_of(data) + rest =~= frame + "\n\n"@ + rest);
    lemma_two_lines(line, last);
    lemma_single_line(last);
    assert(last.subrange(0, 6) =~= "data: "@);
    assert(last.skip(6) =~= data);
    assert(line.last() == line[n - 1]);
    lemma_frame_found(line, rest);
    lemma_single_line(line);
}

proof fn lemma_tight(s: Seq<char>)
    requires
        is_tight(s),
    ensures
        trimmed(s) == s,
        !is_blank(s),
{
    assert(trim_start(s) == s);
    assert(trim_end(s) == s);
    assert(!is_white_space(s[0]));
}

/// A line of JSON is what comes before the line feed; what follows that is what is left. A line of
/// white space holds nothing.
pub proof fn law_line_holds_its_data(line: Seq<char>, rest: Seq<char>)
    requires
        one_line(line),
    ensures
        is_tight(line) ==> first_piece(Framing::Lines, line + "\n"@ + rest) == Some(
            (Some(line), rest),
        ),
        is_blank(line) ==> first_piece(Framing::Lines, line + "\n"@ + rest) == Some(
            (None::<Seq<char>>, rest),
        ),
{
    reveal_strlit("\n");
    let whole = line + "\n"@ + rest;
    let n = line.len() as int;
    assert(whole.subrange(n, n + 1) =~= "\n"@);
    assert(holds_at(whole, "\n"@, n));
    assert forall|j: int| 0 <= j < n implies !#[trigger] holds_at(whole, "\n"@, j) by {
        if holds_at(whole, "\n"@, j) {
            assert(whole.subrange(j, j + 1)[0] == '\n');
            assert(whole[j] == line[j]);
        }
    }
    lemma_first_occurrence(whole, "\n"@, n);
    assert(whole.take(n) =~= line);
    assert(whole.skip(n + 1) =~= rest);
    if is_tight(line) {
        lemma_tight(line);
    }
    if is_blank(line) {
        lemma_blank_is_nothing(line);
    }
}

proof fn lemma_blank_is_nothing(s: Seq<char>)
    requires
        is_blank(s),
    ensures
        trim_start(s).len() == 0,
        trimmed(s).len() == 0,
    decreases s.len(),
{
    if s.len() > 0 {
        assert(is_white_space(s[0]));
        assert forall|i: int| 0 <= i < s.drop_first().len() implies is_white_space(
            #[trigger] s.drop_first()[i],
        ) by {
            assert(is_white_space(s[i + 1]));
        }
        lemma_blank_is_nothing(s.drop_first());
    }
}

/// What is left when an answer ends is read although nothing ends it; white space is nothing.
pub proof fn law_last_piece_is_read(data: Seq<char>)
    requires
        one_line(data),
    ensures
        last_piece(Framing::Sse, "data: "@ + data) == Some(data),
        is_tight(data) ==> last_piece(Framing::Lines, data) == Some(data),
        is_blank(data) ==> last_piece(Framing::Lines, data) is None && last_piece(
            Framing::Sse,
            data,
        ) is None,
{
    reveal_strlit("data: ");
    let line = "data: "@ + data;
    assert(one_line(line)) by {
        assert forall|i: int| 0 <= i < line.len() implies #[trigger] line[i] != '\n' by {
            if i >= 6 {
                assert(line[i] == data[i - 6]);
            }
        }
    }
    assert(!is_white_space(line[0]));
    lemma_single_line(line);
    assert(line.subrange(0, 6) =~= "data: "@);
    assert(line.skip(6) =~= data);
    if is_tight(data) {
        lemma_tight(data);
    }
}

/// Events as what comes next.
pub open spec fn as_next(events: Seq<StreamView>) -> Seq<NextView> {
    events.map_values(|e: StreamView| NextView::Event(e))
}

proof fn lemma_queue_first<P: EventParser>(s: EventStreamView<P::Known>)
    ensures
        ({
            let rest = EventStreamView { queue: Seq::<StreamView>::empty(), ..s };
            drained::<P>(s) == (drained::<P>(rest).0, as_next(s.queue) + drained::<P>(rest).1)
        }),
    decreases s.queue.len(),
{
    let rest = EventStreamView { queue: Seq::<StreamView>::empty(), ..s };
    if s.queue.len() == 0 {
        assert(s =~= rest);
        assert(as_next(s.queue) + drained::<P>(rest).1 =~= drained::<P>(rest).1);
    } else {
        let t = s.popped();
        lemma_queue_first::<P>(t);
        assert(EventStreamView { queue: Seq::<StreamView>::empty(), ..t } =~= rest);
        assert(seq![NextView::Event(s.queue[0])] + (as_next(t.queue) + drained::<P>(rest).1)
            =~= as_next(s.queue) + drained::<P>(rest).1);
    }
}

/// A stream hands the data of each frame, or each line, to the parser once and in order: first
/// comes what the parser makes of the first, then what comes from the rest.
pub proof fn law_each_piece_is_fed<P: EventParser>(
    s: EventStreamView<P::Known>,
    data: Seq<char>,
    rest: Seq<char>,
)
    requires
        one_line(data),
        s.queue.len() == 0,
        match s.framing {
            Framing::Sse => s.buffer == frame_of(data) + rest,
            Framing::Lines => is_tight(data) && s.buffer == data + "\n"@ + rest,
        },
    ensures
        ({
            let (parser, events) = P::fed(s.parser, data);
            let left = EventStreamView { parser, buffer: rest, ..s };
            let came = match events {
                Ok(queue) => as_next(queue),
                Err(e) => seq![NextView::Failed(e)],
            };
            drained::<P>(s) == (drained::<P>(left).0, came + drained::<P>(left).1)
        }),
{
    match s.framing {
        Framing::Sse => law_frame_holds_its_data(data, rest),
        Framing::Lines => law_line_holds_its_data(data, rest),
    }
    let (parser, events) = P::fed(s.parser, data);
    let left = EventStreamView { parser, buffer: rest, ..s };
    crate::backend::stream::law_piece_is_stable(s.framing, s.buffer, Seq::empty());
    match events {
        Ok(queue) => {
            let t = s.taken(parser, rest, queue);
            lemma_queue_first::<P>(t);
            assert(EventStreamView { queue: Seq::<StreamView>::empty(), ..t } =~= left);
        },
        Err(e) => {
            assert(s.taken(parser, rest, s.queue) =~= left);
        },
    }
}

/// When the bytes have ended, what is left is handed to the parser as a last piece, and the first
/// that the parser makes of it comes next; the rest waits. Where nothing is left, that is the end.
pub proof fn law_end_is_fed<P: EventParser>(s: EventStreamView<P::Known>, data: Seq<char>)
    requires
        one_line(data),
        s.queue.len() == 0,
    ensures
        (s.framing is Sse && s.buffer == "data: "@ + data) || (s.framing is Lines && is_tight(data)
            && s.buffer == data) ==> {
            let (parser, events) = P::fed(s.parser, data);
            let (after, next) = end_of::<P>(s);
            &&& after.parser == parser
            &&& after.buffer.len() == 0
            &&& match events {
                Err(e) => next == NextView::Failed(e),
                Ok(queue) => if queue.len() == 0 {
                    next is Ended
                } else {
                    next == NextView::Event(queue[0]) && after.queue == queue.drop_first()
                },
            }
        },
        s.buffer == data && is_blank(data) ==> end_of::<P>(s) == (s, NextView::Ended),
{
    law_last_piece_is_read(data);
    let (parser, events) = P::fed(s.parser, data);
    if let Ok(queue) = events {
        assert(s.queue + queue =~= queue);
    }
}

/// A line ends with a line feed, or with a carriage return and a line feed; neither belongs to it. A
/// line that nothing ends is all there is.
pub proof fn law_ends_of_lines(line: Seq<char>, rest: Seq<char>)
    requires
        one_line(line),
    ensures
        first_line(line + seq!['\n'] + rest) == if line.len() > 0 && line[line.len() - 1] == '\r' {
            line.take(line.len() - 1)
        } else {
            line
        },
        first_line(line) == line,
{
    let text = line + seq!['\n'] + rest;
    lemma_line_ends_at(text, line.len() as int);
    lemma_line_ends_at(line, line.len() as int);
    assert(text.take(line.len() as int) =~= line);
    assert(line.take(line.len() as int) =~= line);
    if line.len() > 0 {
        assert(text.take(line.len() - 1) =~= line.take(line.len() - 1));
    }
}

proof fn lemma_line_ends_at(text: Seq<char>, end: int)
    requires
        0 <= end <= text.len(),
        end < text.len() ==> text[end] == '\n',
        forall|i: int| 0 <= i < end ==> #[trigger] text[i] != '\n',
    ensures
        line_end(text) == end,
    decreases end,
{
    if end > 0 {
        assert(text[0] != '\n');
        let rest = text.drop_first();
        assert forall|i: int| 0 <= i < end - 1 implies #[trigger] rest[i] != '\n' by {
            assert(rest[i] == text[i + 1]);
        }
        lemma_line_ends_at(rest, end - 1);
    }
}

/// A parser hands out all events that wait and all that a piece leads to, in order, and keeps none of
/// them; where the piece is wrong, it keeps those that wait.
pub proof fn law_all_events_are_handed_out(
    waiting: Seq<StreamView>,
    p: AnthropicParserView,
    data: Seq<char>,
)
    ensures
        match openai_text_events(data, parsed_json(data)) {
            Ok(more) => <OpenAiCompatSseParser as EventParser>::fed(waiting, data) == (
                Seq::<StreamView>::empty(),
                Ok::<Seq<StreamView>, ErrorView>(waiting + more),
            ),
            Err(e) => <OpenAiCompatSseParser as EventParser>::fed(waiting, data) == (
                waiting,
                Err::<Seq<StreamView>, ErrorView>(e),
            ),
        },
        ({
            let step = p.after_text(data, parsed_json(data));
            let (q, events) = <AnthropicCompatSseParser as EventParser>::fed(p, data);
            &&& q.tool_use == step.parser.tool_use
            &&& q.signatures == step.parser.signatures
            &&& q.input_tokens == step.parser.input_tokens
            &&& match step.error {
                Some(e) => events == Err::<Seq<StreamView>, ErrorView>(e) && q.queue
                    == step.parser.queue,
                None => events == Ok::<Seq<StreamView>, ErrorView>(step.parser.queue)
                    && q.queue.len() == 0,
            }
        }),
        <OllamaParser as EventParser>::fed((), data).1 == ollama_text_events(
            data,
            parsed_json(data),
        ),
{
}

/// A stream begins without text and without events, with a parser that knows nothing yet; more text
/// is put behind what is there.
pub proof fn law_streams_begin_empty<K>(
    framing: Framing,
    parser: K,
    s: EventStreamView<K>,
    text: Seq<char>,
)
    ensures
        ({
            let f = fresh_stream(framing, parser);
            &&& f.framing == framing
            &&& f.parser == parser
            &&& f.buffer.len() == 0
            &&& f.queue.len() == 0
        }),
        fresh_parser().tool_use == Set::<u64>::empty(),
        fresh_parser().signatures == Map::<u64, Seq<char>>::empty(),
        fresh_parser().input_tokens == 0,
        fresh_parser().queue.len() == 0,
        s.with_text(text) == (EventStreamView { buffer: s.buffer + text, ..s }),
{
}

/// Each protocol has its own stream: server-sent events but for Ollama, which sends lines.
pub proof fn law_stream_of_a_protocol(stream: AnyStream, speaks: Speaks)
    requires
        stream.is_fresh_for(speaks),
    ensures
        match (speaks, stream) {
            (Speaks::Anthropic, AnyStream::Anthropic(s)) => {
                &&& s@.framing is Sse
                &&& s@.buffer.len() == 0
                &&& s@.queue.len() == 0
                &&& s@.parser == fresh_parser()
            },
            (Speaks::OpenAi { .. }, AnyStream::OpenAi(s)) => {
                &&& s@.framing is Sse
                &&& s@.buffer.len() == 0
                &&& s@.queue.len() == 0
                &&& s@.parser.len() == 0
            },
            (Speaks::Ollama, AnyStream::Ollama(s)) => {
                &&& s@.framing is Lines
                &&& s@.buffer.len() == 0
                &&& s@.queue.len() == 0
            },
            _ => false,
        },
{
}

} // verus!
