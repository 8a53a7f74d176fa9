//! Reading answers in the Anthropic Messages protocol.
use std::collections::{HashMap, HashSet};

use vstd::prelude::*;

use crate::backend::error::{said, said_because, BackendError, BackendErrorView, Error, ErrorView};
use crate::json::{low32, lower32, parsed_json, Json, JsonView};
use crate::text::same_text;
use crate::types::{stream_view, StreamEvent, StreamView};

verus! {

broadcast use vstd::std_specs::hash::group_hash_axioms;

/// What the parser knows: which blocks are calls, the signatures collected so far, the tokens of
/// the request, and the events that were not handed out yet.
#[verifier::ext_equal]
pub struct AnthropicParserView {
    pub tool_use: Set<u64>,
    pub signatures: Map<u64, Seq<char>>,
    pub input_tokens: u32,
    pub queue: Seq<StreamView>,
}

/// What taking in a piece of an answer leads to.
#[verifier::ext_equal]
pub struct AnthropicStep {
    pub parser: AnthropicParserView,
    pub error: Option<ErrorView>,
}

impl AnthropicParserView {
    pub open spec fn ok(self) -> AnthropicStep {
        AnthropicStep { parser: self, error: None }
    }

    pub open spec fn fails(self, words: Seq<char>) -> AnthropicStep {
        AnthropicStep { parser: self, error: Some(said(words)) }
    }

    pub open spec fn queued(self, event: StreamView) -> AnthropicParserView {
        AnthropicParserView { queue: self.queue.push(event), ..self }
    }

    /// The answer begins; the tokens of the request are reported.
    pub open spec fn message_start(self, j: JsonView) -> AnthropicStep {
        match j.field("message"@).field("usage"@).field("input_tokens"@).uint() {
            Some(n) => AnthropicParserView { input_tokens: low32(n), ..self }.ok(),
            None => self.fails("message_start missing 'input_tokens'"@),
        }
    }

    /// A block begins.
    pub open spec fn block_start(self, j: JsonView) -> AnthropicStep {
        let block = j.field("content_block"@);
        let index = j.field("index"@).uint();
        match block.field("type"@).text() {
            None => self.fails("content_block_start missing 'type'"@),
            Some(kind) => if kind == "tool_use"@ {
                match index {
                    None => self.fails("content_block_start missing 'index'"@),
                    Some(i) => {
                        let noted = AnthropicParserView { tool_use: self.tool_use.insert(i), ..self };
                        match (block.field("id"@).text(), block.field("name"@).text()) {
                            (None, _) => noted.fails("tool_use content_block_start missing 'id'"@),
                            (Some(_), None) => noted.fails(
                                "tool_use content_block_start missing 'name'"@,
                            ),
                            (Some(id), Some(name)) => noted.queued(
                                StreamView::ToolUseStart { id, name },
                            ).ok(),
                        }
                    },
                }
            } else if kind == "thinking"@ || kind == "redacted_thinking"@ {
                match index {
                    None => self.fails("content_block_start missing 'index'"@),
                    Some(i) => {
                        let noted = AnthropicParserView {
                            signatures: self.signatures.insert(i, Seq::empty()),
                            ..self
                        };
                        match block.field("data"@).text() {
                            Some(data) if kind == "redacted_thinking"@ => noted.queued(
                                StreamView::ThinkingDelta(data),
                            ).ok(),
                            _ => noted.ok(),
                        }
                    },
                }
            } else {
                self.ok()
            },
        }
    }

    /// A block goes on.
    pub open spec fn block_delta(self, j: JsonView) -> AnthropicStep {
        let delta = j.field("delta"@);
        match delta.field("type"@).text() {
            None => self.fails("content_block_delta missing 'type'"@),
            Some(kind) => if kind == "input_json_delta"@ {
                match delta.field("partial_json"@).text() {
                    Some(chunk) => self.queued(StreamView::ToolUseDelta(chunk)).ok(),
                    None => self.fails("input_json_delta missing 'partial_json'"@),
                }
            } else if kind == "thinking_delta"@ {
                self.queued(
                    StreamView::ThinkingDelta(or_empty(delta.field("thinking"@).text())),
                ).ok()
            } else if kind == "signature_delta"@ {
                match (j.field("index"@).uint(), delta.field("signature"@).text()) {
                    (None, _) => self.fails("content_block_delta missing 'index'"@),
                    (Some(_), None) => self.fails(
                        "signature_delta missing or invalid 'signature' field"@,
                    ),
                    (Some(i), Some(chunk)) => AnthropicParserView {
                        signatures: self.signatures.insert(i, self.signature(i) + chunk),
                        ..self
                    }.ok(),
                }
            } else {
                self.queued(StreamView::TextDelta(or_empty(delta.field("text"@).text()))).ok()
            },
        }
    }

    /// The signature collected so far for a block.
    pub open spec fn signature(self, i: u64) -> Seq<char> {
        if self.signatures.contains_key(i) {
            self.signatures[i]
        } else {
            Seq::empty()
        }
    }

    /// A block ends.
    pub open spec fn block_stop(self, j: JsonView) -> AnthropicStep {
        match j.field("index"@).uint() {
            None => self.fails("content_block_stop missing 'index'"@),
            Some(i) => {
                let calls = if self.tool_use.contains(i) {
                    AnthropicParserView { tool_use: self.tool_use.remove(i), ..self }.queued(
                        StreamView::ToolUseDone,
                    )
                } else {
                    self
                };
                if self.signatures.contains_key(i) {
                    AnthropicParserView { signatures: self.signatures.remove(i), ..calls }.queued(
                        StreamView::ThinkingSignature(self.signatures[i]),
                    ).ok()
                } else {
                    calls.ok()
                }
            },
        }
    }

    /// The answer ends; why it does and what it cost is reported.
    pub open spec fn message_delta(self, j: JsonView) -> AnthropicStep {
        match j.field("delta"@).field("stop_reason"@).text() {
            None => self.fails("message_delta missing 'stop_reason'"@),
            Some(stop_reason) => {
                let output_tokens = tokens(j.field("usage"@).field("output_tokens"@));
                if stop_reason == "max_tokens"@ {
                    AnthropicStep {
                        parser: self,
                        error: Some(
                            ErrorView::Backend(
                                BackendErrorView::MaxTokensExceeded {
                                    input_tokens: self.input_tokens,
                                    output_tokens,
                                },
                            ),
                        ),
                    }
                } else if stop_reason == "refusal"@ || stop_reason == "content_filter"@ {
                    AnthropicStep {
                        parser: self,
                        error: Some(ErrorView::Backend(BackendErrorView::Refusal)),
                    }
                } else {
                    self.queued(
                        StreamView::Usage {
                            input_tokens: self.input_tokens,
                            output_tokens,
                            stop_reason,
                        },
                    ).ok()
                }
            },
        }
    }

    /// The parser after one piece of an answer, by its type.
    pub open spec fn after(self, j: JsonView) -> AnthropicStep {
        match j.field("type"@).text() {
            None => self.fails("SSE event missing 'type' field"@),
            Some(kind) => if kind == "message_start"@ {
                self.message_start(j)
            } else if kind == "content_block_start"@ {
                self.block_start(j)
            } else if kind == "content_block_delta"@ {
                self.block_delta(j)
            } else if kind == "content_block_stop"@ {
                self.block_stop(j)
            } else if kind == "message_delta"@ {
                self.message_delta(j)
            } else if kind == "message_stop"@ {
                self.queued(StreamView::Done).ok()
            } else {
                self.ok()
            },
        }
    }

    /// The parser after a piece of text that was read as `read`.
    pub open spec fn after_text(
        self,
        data: Seq<char>,
        read: Result<JsonView, Seq<char>>,
    ) -> AnthropicStep {
        match read {
            Ok(j) => self.after(j),
            Err(e) => AnthropicStep {
                parser: self,
                error: Some(said_because("Failed to parse SSE data: "@ + data, e)),
            },
        }
    }
}

/// A text, or none.
pub open spec fn or_empty(t: Option<Seq<char>>) -> Seq<char> {
    match t {
        Some(s) => s,
        None => Seq::empty(),
    }
}

/// A number of tokens; 0 where there is none.
pub open spec fn tokens(j: JsonView) -> u32 {
    match j.uint() {
        Some(n) => low32(n),
        None => 0,
    }
}

/// A number of tokens; 0 where there is none.
pub fn token_count(j: &Json) -> (r: u32)
    ensures
        r == tokens(j@),
{
    match j.as_u64() {
        Some(n) => lower32(n),
        None => 0,
    }
}

/// What went wrong, if anything did.
pub open spec fn failure(r: Result<(), Error>) -> Option<ErrorView> {
    match r {
        Ok(_) => None,
        Err(e) => Some(e@),
    }
}

/// A text of a JSON value, or none.
fn text_or_empty(j: &Json) -> (r: String)
    ensures
        r@ == or_empty(j@.text()),
{
    match j.as_str() {
        Some(s) => s.to_owned(),
        None => String::new(),
    }
}

/// Reads the pieces of an answer one by one.
pub struct AnthropicCompatSseParser {
    tool_use_indices: HashSet<u64>,
    thinking_signatures: HashMap<u64, String>,
    input_tokens: u32,
    pub event_buffer: Vec<StreamEvent>,
}

/// A parser to which nothing was given.
pub open spec fn fresh_parser() -> AnthropicParserView {
    AnthropicParserView {
        tool_use: Set::empty(),
        signatures: Map::empty(),
        input_tokens: 0,
        queue: Seq::empty(),
    }
}

impl AnthropicCompatSseParser {
    pub closed spec fn view(self) -> AnthropicParserView {
        AnthropicParserView {
            tool_use: self.tool_use_indices@,
            signatures: self.thinking_signatures@.map_values(|s: String| s@),
            input_tokens: self.input_tokens,
            queue: stream_view(self.event_buffer@),
        }
    }

    /// A parser to which nothing was given.
    pub fn new() -> (r: AnthropicCompatSseParser)
        ensures
            r@ == fresh_parser(),
    {
        let r = AnthropicCompatSseParser {
            tool_use_indices: HashSet::new(),
            thinking_signatures: HashMap::new(),
            input_tokens: 0,
            event_buffer: Vec::new(),
        };
        assert(r@ =~= fresh_parser());
        r
    }

    fn queue(&mut self, event: StreamEvent)
        ensures
            final(self)@ == old(self)@.queued(event@),
    {
        self.event_buffer.push(event);
        assert(stream_view(self.event_buffer@) =~= old(self)@.queue.push(event@));
        assert(self@ =~= old(self)@.queued(event@));
    }

    fn note_signature(&mut self, index: u64, signature: String)
        ensures
            final(self)@ == (AnthropicParserView {
                signatures: old(self)@.signatures.insert(index, signature@),
                ..old(self)@
            }),
    {
        let _ = self.thinking_signatures.insert(index, signature);
        assert(self@.signatures =~= old(self)@.signatures.insert(index, signature@));
    }

    fn block_start(&mut self, j: &Json) -> (r: Result<(), Error>)
        ensures
            (AnthropicStep { parser: final(self)@, error: failure(r) }) == old(self)@.block_start(
                j@,
            ),
    {
        let block = j.field("content_block");
        let kind = match block.field("type").as_str() {
            Some(k) => k,
            None => return Err(Error::msg("content_block_start missing 'type'")),
        };
        if same_text(kind, "tool_use") {
            let index: u64 = match j.field("index").as_u64() {
                Some(i) => i,
                None => return Err(Error::msg("content_block_start missing 'index'")),
            };
            let ghost before = self@;
            let _ = self.tool_use_indices.insert(index);
            assert(self@ =~= AnthropicParserView {
                tool_use: before.tool_use.insert(index),
                ..before
            });
            let id = match block.field("id").as_str() {
                Some(s) => s.to_owned(),
                None => return Err(Error::msg("tool_use content_block_start missing 'id'")),
            };
            let name = match block.field("name").as_str() {
                Some(s) => s.to_owned(),
                None => return Err(Error::msg("tool_use content_block_start missing 'name'")),
            };
            self.queue(StreamEvent::ToolUseStart { id, name });
            return Ok(());
        }
        let redacted = same_text(kind, "redacted_thinking");
        if redacted || same_text(kind, "thinking") {
            let index: u64 = match j.field("index").as_u64() {
                Some(i) => i,
                None => return Err(Error::msg("content_block_start missing 'index'")),
            };
            self.note_signature(index, String::new());
            if redacted {
                if let Some(data) = block.field("data").as_str() {
                    self.queue(StreamEvent::ThinkingDelta(data.to_owned()));
                }
            }
        }
        Ok(())
    }

    fn block_delta(&mut self, j: &Json) -> (r: Result<(), Error>)
        ensures
            (AnthropicStep { parser: final(self)@, error: failure(r) }) == old(self)@.block_delta(
                j@,
            ),
    {
        let delta = j.field("delta");
        let kind = match delta.field("type").as_str() {
            Some(k) => k,
            None => return Err(Error::msg("content_block_delta missing 'type'")),
        };
        if same_text(kind, "input_json_delta") {
            match delta.field("partial_json").as_str() {
                Some(chunk) => self.queue(StreamEvent::ToolUseDelta(chunk.to_owned())),
                None => return Err(Error::msg("input_json_delta missing 'partial_json'")),
            }
        } else if same_text(kind, "thinking_delta") {
            self.queue(StreamEvent::ThinkingDelta(text_or_empty(delta.field("thinking"))));
        } else if same_text(kind, "signature_delta") {
            let index: u64 = match j.field("index").as_u64() {
                Some(i) => i,
                None => return Err(Error::msg("content_block_delta missing 'index'")),
            };
            let chunk = match delta.field("signature").as_str() {
                Some(s) => s,
                None => return Err(
                    Error::msg("signature_delta missing or invalid 'signature' field"),
                ),
            };
            let ghost before = self@;
            let mut signature = match self.thinking_signatures.remove(&index) {
                Some(s) => s,
                None => String::new(),
            };
            assert(signature@ =~= before.signature(index));
            signature.append(chunk);
            self.note_signature(index, signature);
            assert(self@.signatures =~= before.signatures.insert(
                index,
                before.signature(index) + chunk@,
            ));
        } else {
            self.queue(StreamEvent::TextDelta(text_or_empty(delta.field("text"))));
        }
        Ok(())
    }

    fn block_stop(&mut self, j: &Json) -> (r: Result<(), Error>)
        ensures
            (AnthropicStep { parser: final(self)@, error: failure(r) }) == old(self)@.block_stop(
                j@,
            ),
    {
        let ghost start = self@;
        let index: u64 = match j.field("index").as_u64() {
            Some(i) => i,
            None => return Err(Error::msg("content_block_stop missing 'index'")),
        };
        if self.tool_use_indices.remove(&index) {
            assert(self@ =~= AnthropicParserView {
                tool_use: start.tool_use.remove(index),
                ..start
            });
            self.queue(StreamEvent::ToolUseDone);
        } else {
            assert(self@ =~= start);
        }
        let ghost mid = self@;
        match self.thinking_signatures.remove(&index) {
            Some(signature) => {
                assert(signature@ == start.signatures[index]);
                assert(self@ =~= AnthropicParserView {
                    signatures: mid.signatures.remove(index),
                    ..mid
                });
                self.queue(StreamEvent::ThinkingSignature(signature));
            },
            None => {
                assert(self@ =~= mid);
            },
        }
        Ok(())
    }

    fn message_delta(&mut self, j: &Json) -> (r: Result<(), Error>)
        ensures
            (AnthropicStep { parser: final(self)@, error: failure(r) }) == old(
                self,
            )@.message_delta(j@),
    {
        let stop_reason = match j.field("delta").field("stop_reason").as_str() {
            Some(s) => s,
            None => return Err(Error::msg("message_delta missing 'stop_reason'")),
        };
        let output_tokens: u32 = token_count(j.field("usage").field("output_tokens"));
        if same_text(stop_reason, "max_tokens") {
            return Err(
                Error::Backend(
                    BackendError::MaxTokensExceeded {
                        input_tokens: self.input_tokens,
                        output_tokens,
                    },
                ),
            );
        }
        if same_text(stop_reason, "refusal") || same_text(stop_reason, "content_filter") {
            return Err(Error::Backend(BackendError::Refusal));
        }
        self.queue(
            StreamEvent::Usage {
                input_tokens: self.input_tokens,
                output_tokens,
                stop_reason: stop_reason.to_owned(),
            },
        );
        Ok(())
    }

    /// Takes in one piece of an answer.
    pub fn absorb(&mut self, j: &Json) -> (r: Result<(), Error>)
        ensures
            (AnthropicStep { parser: final(self)@, error: failure(r) }) == old(self)@.after(j@),
    {
        let kind = match j.field("type").as_str() {
            Some(k) => k,
            None => return Err(Error::msg("SSE event missing 'type' field")),
        };
        if same_text(kind, "message_start") {
            match j.field("message").field("usage").field("input_tokens").as_u64() {
                Some(n) => {
                    self.input_tokens = lower32(n);
                    Ok(())
                },
                None => Err(Error::msg("message_start missing 'input_tokens'")),
            }
        } else if same_text(kind, "content_block_start") {
            self.block_start(j)
        } else if same_text(kind, "content_block_delta") {
            self.block_delta(j)
        } else if same_text(kind, "content_block_stop") {
            self.block_stop(j)
        } else if same_text(kind, "message_delta") {
            self.message_delta(j)
        } else if same_text(kind, "message_stop") {
            self.queue(StreamEvent::Done);
            Ok(())
        } else {
            Ok(())
        }
    }

    /// Takes in one piece of an answer as it came over the wire.
    pub fn fill_buffer(&mut self, data: &str) -> (r: Result<(), Error>)
        ensures
            (AnthropicStep { parser: final(self)@, error: failure(r) }) == old(self)@.after_text(
                data@,
                parsed_json(data@),
            ),
    {
        match Json::parse(data) {
            Ok(j) => self.absorb(&j),
            Err(e) => {
                let mut words = "Failed to parse SSE data: ".to_owned();
                words.append(data);
                Err(Error::because(words, e))
            },
        }
    }

    /// Hands out the events that were not handed out yet.
    pub fn take_events(&mut self) -> (r: Vec<StreamEvent>)
        ensures
            stream_view(r@) == old(self)@.queue,
            final(self)@ == (AnthropicParserView { queue: Seq::empty(), ..old(self)@ }),
    {
        let mut events: Vec<StreamEvent> = Vec::new();
        let ghost before = self@;
        events.append(&mut self.event_buffer);
        assert(stream_view(events@) =~= before.queue);
        assert(self@ =~= AnthropicParserView { queue: Seq::empty(), ..before });
        events
    }

    /// Takes in one piece of an answer, unless it is empty, and hands out the next event.
    pub fn parse(&mut self, data: &str) -> (r: Result<Option<StreamEvent>, Error>)
        ensures
            ({
                let step = if data@.len() == 0 {
                    old(self)@.ok()
                } else {
                    old(self)@.after_text(data@, parsed_json(data@))
                };
                match r {
                    Err(e) => step.error == Some(e@) && final(self)@ == step.parser,
                    Ok(None) => step.error is None && step.parser.queue.len() == 0 && final(self)@
                        == step.parser,
                    Ok(Some(event)) => {
                        &&& step.error is None
                        &&& step.parser.queue.len() > 0
                        &&& event@ == step.parser.queue[0]
                        &&& final(self)@ == (AnthropicParserView {
                            queue: step.parser.queue.drop_first(),
                            ..step.parser
                        })
                    },
                }
            }),
    {
        if !data.is_empty() {
            match self.fill_buffer(data) {
                Ok(()) => {},
                Err(e) => return Err(e),
            }
        }
        if self.event_buffer.len() > 0 {
            let ghost before = self@;
            let event = self.event_buffer.remove(0);
            assert(stream_view(self.event_buffer@) =~= before.queue.drop_first());
            assert(self@ =~= AnthropicParserView {
                queue: before.queue.drop_first(),
                ..before
            });
            return Ok(Some(event));
        }
        Ok(None)
    }
}

/// Reads a single piece of an answer on its own.
pub fn parse_sse_data(data: &str) -> (r: Result<Option<StreamEvent>, Error>)
    ensures
        ({
            let step = if data@.len() == 0 {
                fresh_parser().ok()
            } else {
                fresh_parser().after_text(data@, parsed_json(data@))
            };
            match r {
                Err(e) => step.error == Some(e@),
                Ok(None) => step.error is None && step.parser.queue.len() == 0,
                Ok(Some(event)) => step.error is None && step.parser.queue.len() > 0 && event@
                    == step.parser.queue[0],
            }
        }),
{
    let mut parser = AnthropicCompatSseParser::new();
    parser.parse(data)
}

} // verus!
