//! Reading answers in the OpenAI Chat Completions protocol.
use vstd::prelude::*;

use crate::backend::anthropic_sse::{failure, token_count, tokens};
use crate::backend::error::{
    said, said_because, truncation_message, truncation_words, Error, ErrorView,
};
use crate::json::{items_view, lemma_items_view, parsed_json, Json, JsonView};
use crate::text::{decimal, push_decimal, same_text};
use crate::types::{stream_view, StreamEvent, StreamView};

verus! {

/// A piece of text, where there is one that is not empty.
pub open spec fn some_text(j: JsonView) -> Option<Seq<char>> {
    match j.text() {
        Some(s) if s.len() > 0 => Some(s),
        _ => None,
    }
}

/// The events of one call in a piece of an answer: its beginning where it is named, and its
/// arguments where there are any.
pub open spec fn call_events(call: JsonView) -> Seq<StreamView> {
    let function = call.field("function"@);
    match call.field("index"@).uint() {
        Some(index) if function is Object => {
            (match function.field("name"@).text() {
                Some(name) => seq![
                    StreamView::ToolUseStart { id: "tool_"@ + decimal(index as nat), name },
                ],
                None => Seq::empty(),
            }) + (match some_text(function.field("arguments"@)) {
                Some(arguments) => seq![StreamView::ToolUseDelta(arguments)],
                None => Seq::empty(),
            })
        },
        _ => Seq::empty(),
    }
}

/// The events of several calls, in order.
pub open spec fn calls_events(calls: Seq<JsonView>) -> Seq<StreamView>
    decreases calls.len(),
{
    if calls.len() == 0 {
        Seq::empty()
    } else {
        calls_events(calls.drop_last()) + call_events(calls.last())
    }
}

/// The thought, the text and the calls in a piece of an answer.
pub open spec fn delta_events(delta: JsonView) -> Seq<StreamView> {
    (match some_text(delta.field("reasoning_content"@)) {
        Some(t) => seq![StreamView::ThinkingDelta(t)],
        None => Seq::empty(),
    }) + (match some_text(delta.field("content"@)) {
        Some(t) => seq![StreamView::TextDelta(t)],
        None => Seq::empty(),
    }) + (match delta.field("tool_calls"@) {
        JsonView::Array(calls) => calls_events(calls),
        _ => Seq::empty(),
    })
}

/// What the answer cost, where that is known.
pub open spec fn usage_events(
    input_tokens: u32,
    output_tokens: u32,
    stop_reason: Seq<char>,
) -> Seq<StreamView> {
    if input_tokens > 0 || output_tokens > 0 {
        seq![StreamView::Usage { input_tokens, output_tokens, stop_reason }]
    } else {
        Seq::empty()
    }
}

/// The events of one piece of an answer, or the error that it ends with.
pub open spec fn openai_events(j: JsonView) -> Result<Seq<StreamView>, ErrorView> {
    let choice = j.field("choices"@).item(0);
    let finish = choice.field("finish_reason"@).text();
    let input = tokens(j.field("usage"@).field("prompt_tokens"@));
    let output = tokens(j.field("usage"@).field("completion_tokens"@));
    if finish == Some("tool_calls"@) {
        Ok(seq![StreamView::ToolUseDone] + usage_events(input, output, "tool_calls"@))
    } else if finish == Some("length"@) {
        Err(said(truncation_words(input, output)))
    } else {
        let no_choices = match j.field("choices"@) {
            JsonView::Array(s) => s.len() == 0,
            _ => true,
        };
        let usage = if finish is Some || no_choices {
            usage_events(
                input,
                output,
                match finish {
                    Some(f) => f,
                    None => "stop"@,
                },
            )
        } else {
            Seq::empty()
        };
        Ok(delta_events(choice.field("delta"@)) + usage)
    }
}

/// The events of one piece of an answer that was read as `read`.
pub open spec fn openai_text_events(
    data: Seq<char>,
    read: Result<JsonView, Seq<char>>,
) -> Result<Seq<StreamView>, ErrorView> {
    if data == "[DONE]"@ {
        Ok(seq![StreamView::Done])
    } else {
        match read {
            Ok(j) => openai_events(j),
            Err(e) => Err(said_because("Failed to parse SSE data: "@ + data, e)),
        }
    }
}

/// The queue with the events behind it; on an error the queue stays as it was.
pub open spec fn queue_after(
    queue: Seq<StreamView>,
    events: Result<Seq<StreamView>, ErrorView>,
) -> Seq<StreamView> {
    match events {
        Ok(more) => queue + more,
        Err(_) => queue,
    }
}

/// The error, if there is one.
pub open spec fn error_of(events: Result<Seq<StreamView>, ErrorView>) -> Option<ErrorView> {
    match events {
        Ok(_) => None,
        Err(e) => Some(e),
    }
}

/// Reads the pieces of an answer one by one.
pub struct OpenAiCompatSseParser {
    pub event_buffer: Vec<StreamEvent>,
}

impl OpenAiCompatSseParser {
    /// The events that were not handed out yet.
    pub closed spec fn view(self) -> Seq<StreamView> {
        stream_view(self.event_buffer@)
    }

    /// A parser to which nothing was given.
    pub fn new() -> (r: OpenAiCompatSseParser)
        ensures
            r@ == Seq::<StreamView>::empty(),
    {
        let r = OpenAiCompatSseParser { event_buffer: Vec::new() };
        assert(r@ =~= Seq::<StreamView>::empty());
        r
    }

    fn queue(&mut self, event: StreamEvent)
        ensures
            final(self)@ == old(self)@.push(event@),
    {
        self.event_buffer.push(event);
        assert(self@ =~= old(self)@.push(event@));
    }

    fn queue_usage(&mut self, input_tokens: u32, output_tokens: u32, stop_reason: &str)
        ensures
            final(self)@ == old(self)@ + usage_events(input_tokens, output_tokens, stop_reason@),
    {
        if input_tokens > 0 || output_tokens > 0 {
            self.queue(
                StreamEvent::Usage {
                    input_tokens,
                    output_tokens,
                    stop_reason: stop_reason.to_owned(),
                },
            );
        }
        assert(self@ =~= old(self)@ + usage_events(input_tokens, output_tokens, stop_reason@));
    }

    fn queue_call(&mut self, call: &Json)
        ensures
            final(self)@ == old(self)@ + call_events(call@),
    {
        let ghost before = self@;
        if let Some(index) = call.field("index").as_u64() {
            let function = call.field("function");
            if function.is_object() {
                if let Some(name) = function.field("name").as_str() {
                    let mut id = "tool_".to_owned();
                    push_decimal(&mut id, index);
                    self.queue(StreamEvent::ToolUseStart { id, name: name.to_owned() });
                }
                if let Some(arguments) = function.field("arguments").as_str() {
                    if !arguments.is_empty() {
                        self.queue(StreamEvent::ToolUseDelta(arguments.to_owned()));
                    }
                }
            }
        }
        assert(self@ =~= before + call_events(call@));
    }

    fn queue_delta(&mut self, delta: &Json)
        ensures
            final(self)@ == old(self)@ + delta_events(delta@),
    {
        let ghost before = self@;
        if let Some(t) = delta.field("reasoning_content").as_str() {
            if !t.is_empty() {
                self.queue(StreamEvent::ThinkingDelta(t.to_owned()));
            }
        }
        if let Some(t) = delta.field("content").as_str() {
            if !t.is_empty() {
                self.queue(StreamEvent::TextDelta(t.to_owned()));
            }
        }
        let ghost lead = self@;
        if let Some(calls) = delta.field("tool_calls").as_array() {
            let ghost all = items_view(calls@);
            let mut i: usize = 0;
            proof {
                lemma_items_view(calls@);
                assert(self@ =~= lead + calls_events(all.take(0)));
            }
            while i < calls.len()
                invariant
                    i <= calls.len(),
                    all == items_view(calls@),
                    all.len() == calls.len(),
                    self@ == lead + calls_events(all.take(i as int)),
                decreases calls.len() - i,
            {
                self.queue_call(&calls[i]);
                proof {
                    lemma_items_view(calls@);
                    assert(all.take(i + 1).drop_last() =~= all.take(i as int));
                    assert(all.take(i + 1).last() == calls@[i as int]@);
                    assert(self@ =~= lead + calls_events(all.take(i + 1)));
                }
                i += 1;
            }
            assert(all.take(i as int) =~= all);
        }
        assert(self@ =~= before + delta_events(delta@));
    }

    /// Takes in one piece of an answer.
    pub fn absorb(&mut self, j: &Json) -> (r: Result<(), Error>)
        ensures
            final(self)@ == queue_after(old(self)@, openai_events(j@)),
            failure(r) == error_of(openai_events(j@)),
    {
        let ghost before = self@;
        let choice = j.field("choices").item(0);
        let finish = choice.field("finish_reason").as_str();
        let input: u32 = token_count(j.field("usage").field("prompt_tokens"));
        let output: u32 = token_count(j.field("usage").field("completion_tokens"));
        let stop_reason = match finish {
            Some(f) => f,
            None => "stop",
        };
        if finish.is_some() && same_text(stop_reason, "tool_calls") {
            self.queue(StreamEvent::ToolUseDone);
            self.queue_usage(input, output, "tool_calls");
            assert(self@ =~= queue_after(before, openai_events(j@)));
            return Ok(());
        }
        if finish.is_some() && same_text(stop_reason, "length") {
            return Err(Error::msg(truncation_message(input, output).as_str()));
        }
        self.queue_delta(choice.field("delta"));
        let no_choices = match j.field("choices").as_array() {
            Some(items) => {
                proof {
                    lemma_items_view(items@);
                }
                items.len() == 0
            },
            None => true,
        };
        if finish.is_some() || no_choices {
            self.queue_usage(input, output, stop_reason);
        }
        assert(self@ =~= queue_after(before, openai_events(j@)));
        Ok(())
    }

    /// Takes in one piece of an answer as it came over the wire.
    pub fn fill_buffer(&mut self, data: &str) -> (r: Result<(), Error>)
        ensures
            final(self)@ == queue_after(
                old(self)@,
                openai_text_events(data@, parsed_json(data@)),
            ),
            failure(r) == error_of(openai_text_events(data@, parsed_json(data@))),
    {
        if same_text(data, "[DONE]") {
            self.queue(StreamEvent::Done);
            assert(self@ =~= old(self)@ + seq![StreamView::Done]);
            return Ok(());
        }
        match Json::parse(data) {
            Ok(j) => self.absorb(&j),
            Err(e) => {
                let mut words = "Failed to parse SSE data: ".to_owned();
                words.append(data);
                Err(Error::because(words, e))
            },
        }
    }

    /// Hands out the events that were not handed out yet.
    pub fn take_events(&mut self) -> (r: Vec<StreamEvent>)
        ensures
            stream_view(r@) == old(self)@,
            final(self)@ == Seq::<StreamView>::empty(),
    {
        let mut events: Vec<StreamEvent> = Vec::new();
        events.append(&mut self.event_buffer);
        assert(stream_view(events@) =~= old(self)@);
        assert(self@ =~= Seq::<StreamView>::empty());
        events
    }

    /// Takes in one piece of an answer, unless it is empty, and hands out the next event.
    pub fn parse(&mut self, data: &str) -> (r: Result<Option<StreamEvent>, Error>)
        ensures
            ({
                let events = if data@.len() == 0 {
                    Ok(Seq::empty())
                } else {
                    openai_text_events(data@, parsed_json(data@))
                };
                let queue = queue_after(old(self)@, events);
                match r {
                    Err(e) => error_of(events) == Some(e@) && final(self)@ == queue,
                    Ok(None) => events is Ok && queue.len() == 0 && final(self)@ == queue,
                    Ok(Some(event)) => {
                        &&& events is Ok
                        &&& queue.len() > 0
                        &&& event@ == queue[0]
                        &&& final(self)@ == queue.drop_first()
                    },
                }
            }),
    {
        if data.is_empty() {
            assert(self@ =~= self@ + Seq::empty());
        } else {
            match self.fill_buffer(data) {
                Ok(()) => {},
                Err(e) => return Err(e),
            }
        }
        if self.event_buffer.len() > 0 {
            let ghost before = self@;
            let event = self.event_buffer.remove(0);
            assert(self@ =~= before.drop_first());
            return Ok(Some(event));
        }
        Ok(None)
    }
}

} // verus!
