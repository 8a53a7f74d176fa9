//! Asking Ollama and reading its answers.
use vstd::prelude::*;

use crate::backend::anthropic_sse::{token_count, tokens};
use crate::backend::chat::{chat_messages, messages_to_json, Dialect};
use crate::backend::error::{said_because, BackendError, BackendErrorView, Error, ErrorView};
use crate::backend::openai_sse::{some_text, usage_events};
use crate::backend::wire::{
    function_json, functions_to_json, headers_view, push_header, str_json, HttpRequest, HttpView,
};
use crate::config::OllamaConfig;
use crate::json::{
    items_view, json_text, lemma_items_view, parsed_json, Json, JsonView,
};
use crate::text::{decimal, push_decimal, same_text};
use crate::types::{
    messages_view, stream_view, thinking_enabled, Message, MessageView, RequestConfig, RequestView,
    StreamEvent, StreamView, ToolDefinitionView,
};

verus! {

/// An error that Ollama backends name.
pub open spec fn other(words: Seq<char>) -> ErrorView {
    ErrorView::Backend(BackendErrorView::Other(words))
}

/// The arguments of a call: JSON as text, given as JSON or as text; none where there are none.
pub open spec fn ollama_arguments(arguments: JsonView) -> Seq<char> {
    if arguments is Object {
        json_text(arguments)
    } else {
        match arguments.text() {
            Some(s) => s,
            None => "{}"@,
        }
    }
}

/// The events of the call in place `i`, which has to have a name.
pub open spec fn ollama_call(call: JsonView, i: nat) -> Result<Seq<StreamView>, ErrorView> {
    let function = call.field("function"@);
    match some_text(function.field("name"@)) {
        None => Err(
            other(
                "Malformed tool call at index "@ + decimal(i)
                    + ": missing or empty function name"@,
            ),
        ),
        Some(name) => Ok(
            seq![
                StreamView::ToolUseStart {
                    id: match some_text(call.field("id"@)) {
                        Some(id) => id,
                        None => "tool_"@ + decimal(i),
                    },
                    name,
                },
                StreamView::ToolUseDelta(ollama_arguments(function.field("arguments"@))),
                StreamView::ToolUseDone,
            ],
        ),
    }
}

/// The events of several calls, in order; the first malformed call is an error.
pub open spec fn ollama_calls(calls: Seq<JsonView>) -> Result<Seq<StreamView>, ErrorView>
    decreases calls.len(),
{
    if calls.len() == 0 {
        Ok(Seq::empty())
    } else {
        match ollama_calls(calls.drop_last()) {
            Err(e) => Err(e),
            Ok(events) => match ollama_call(calls.last(), (calls.len() - 1) as nat) {
                Err(e) => Err(e),
                Ok(more) => Ok(events + more),
            },
        }
    }
}

/// The events of a line of an answer, or the error that it stands for.
pub open spec fn ollama_events(j: JsonView) -> Result<Seq<StreamView>, ErrorView> {
    let message = j.field("message"@);
    let lead = (match some_text(message.field("content"@)) {
        Some(t) => seq![StreamView::TextDelta(t)],
        None => Seq::empty(),
    }) + (match some_text(message.field("thinking"@)) {
        Some(t) => seq![StreamView::ThinkingDelta(t)],
        None => Seq::empty(),
    });
    let calls = match message.field("tool_calls"@) {
        JsonView::Array(s) => ollama_calls(s),
        _ => Ok(Seq::empty()),
    };
    let end = if j.field("done"@) == JsonView::Bool(true) {
        usage_events(
            tokens(j.field("prompt_eval_count"@)),
            tokens(j.field("eval_count"@)),
            match j.field("done_reason"@).text() {
                Some(s) => s,
                None => "stop"@,
            },
        ).push(StreamView::Done)
    } else {
        Seq::empty()
    };
    match j.field("error"@).text() {
        Some(words) => Err(other("Ollama error: "@ + words)),
        None => match calls {
            Err(e) => Err(e),
            Ok(events) => Ok(lead + events + end),
        },
    }
}

/// The events of a line of an answer that was read as `read`.
pub open spec fn ollama_text_events(
    data: Seq<char>,
    read: Result<JsonView, Seq<char>>,
) -> Result<Seq<StreamView>, ErrorView> {
    match read {
        Ok(j) => ollama_events(j),
        Err(e) => Err(said_because("Failed to parse NDJSON line: "@ + data, e)),
    }
}

/// The events, or what went wrong.
pub open spec fn events_or_error(r: Result<Vec<StreamEvent>, Error>) -> Result<
    Seq<StreamView>,
    ErrorView,
> {
    match r {
        Ok(v) => Ok(stream_view(v@)),
        Err(e) => Err(e@),
    }
}

fn push_event(events: &mut Vec<StreamEvent>, event: StreamEvent)
    ensures
        stream_view(final(events)@) == stream_view(old(events)@).push(event@),
{
    events.push(event);
    assert(stream_view(events@) =~= stream_view(old(events)@).push(event@));
}

/// Reads the lines of an answer one by one.
#[derive(Debug, PartialEq, Eq)]
pub struct OllamaParser;

impl OllamaParser {
    /// A parser; it keeps nothing from one line to the next.
    pub fn new() -> (r: OllamaParser)
        ensures
            r == OllamaParser,
    {
        OllamaParser
    }

    fn push_call(events: &mut Vec<StreamEvent>, call: &Json, i: usize) -> (r: Result<(), Error>)
        ensures
            match ollama_call(call@, i as nat) {
                Ok(more) => r is Ok && stream_view(final(events)@) == stream_view(old(events)@)
                    + more,
                Err(e) => r matches Err(x) && x@ == e,
            },
    {
        let ghost before = stream_view(events@);
        let function = call.field("function");
        let name = match function.field("name").as_str() {
            Some(n) => if n.is_empty() {
                String::new()
            } else {
                n.to_owned()
            },
            None => String::new(),
        };
        if name.as_str().is_empty() {
            let mut words = "Malformed tool call at index ".to_owned();
            push_decimal(&mut words, i as u64);
            words.append(": missing or empty function name");
            return Err(Error::Backend(BackendError::Other(words)));
        }
        let mut id = String::new();
        if let Some(s) = call.field("id").as_str() {
            id.append(s);
        }
        if id.as_str().is_empty() {
            id.append("tool_");
            push_decimal(&mut id, i as u64);
        }
        proof {
            assert(id@ =~= match some_text(call@.field("id"@)) {
                Some(s) => s,
                None => "tool_"@ + decimal(i as nat),
            });
        }
        let arguments = function.field("arguments");
        let arguments = if arguments.is_object() {
            arguments.to_text()
        } else {
            match arguments.as_str() {
                Some(s) => s.to_owned(),
                None => "{}".to_owned(),
            }
        };
        push_event(events, StreamEvent::ToolUseStart { id, name });
        push_event(events, StreamEvent::ToolUseDelta(arguments));
        push_event(events, StreamEvent::ToolUseDone);
        assert(stream_view(events@) =~= before + ollama_call(call@, i as nat)->Ok_0);
        Ok(())
    }

    /// The events of a line of an answer.
    pub fn events_of(&mut self, j: &Json) -> (r: Result<Vec<StreamEvent>, Error>)
        ensures
            events_or_error(r) == ollama_events(j@),
    {
        let mut events: Vec<StreamEvent> = Vec::new();
        if let Some(words) = j.field("error").as_str() {
            let mut s = "Ollama error: ".to_owned();
            s.append(words);
            return Err(Error::Backend(BackendError::Other(s)));
        }
        let message = j.field("message");
        if let Some(t) = message.field("content").as_str() {
            if !t.is_empty() {
                push_event(&mut events, StreamEvent::TextDelta(t.to_owned()));
            }
        }
        if let Some(t) = message.field("thinking").as_str() {
            if !t.is_empty() {
                push_event(&mut events, StreamEvent::ThinkingDelta(t.to_owned()));
            }
        }
        let ghost lead = stream_view(events@);
        let ghost mut called: Seq<StreamView> = Seq::empty();
        if let Some(calls) = message.field("tool_calls").as_array() {
            let ghost all = items_view(calls@);
            let mut i: usize = 0;
            proof {
                lemma_items_view(calls@);
                assert(lead =~= lead + Seq::empty());
                assert(all.take(0) =~= Seq::empty());
            }
            while i < calls.len()
                invariant
                    i <= calls.len(),
                    all == items_view(calls@),
                    all.len() == calls.len(),
                    ollama_calls(all.take(i as int)) == Ok::<Seq<StreamView>, ErrorView>(called),
                    stream_view(events@) == lead + called,
                    message@.field("tool_calls"@) == JsonView::Array(all),
                    j@.field("error"@).text() is None,
                    message@ == j@.field("message"@),
                decreases calls.len() - i,
            {
                proof {
                    lemma_items_view(calls@);
                    assert(all.take(i + 1).drop_last() =~= all.take(i as int));
                    assert(all.take(i + 1).last() == calls@[i as int]@);
                }
                match Self::push_call(&mut events, &calls[i], i) {
                    Ok(()) => {},
                    Err(e) => {
                        proof {
                            lemma_calls_stop(all, i + 1);
                        }
                        return Err(e);
                    },
                }
                proof {
                    let more = ollama_call(calls@[i as int]@, i as nat)->Ok_0;
                    assert(lead + called + more =~= lead + (called + more));
                    called = called + more;
                }
                i += 1;
            }
            assert(all.take(i as int) =~= all);
        } else {
            assert(lead =~= lead + called);
        }
        let ghost body = stream_view(events@);
        if let Some(true) = j.field("done").as_bool() {
            let input: u32 = token_count(j.field("prompt_eval_count"));
            let output: u32 = token_count(j.field("eval_count"));
            let stop_reason = match j.field("done_reason").as_str() {
                Some(s) => s.to_owned(),
                None => "stop".to_owned(),
            };
            if input > 0 || output > 0 {
                push_event(
                    &mut events,
                    StreamEvent::Usage {
                        input_tokens: input,
                        output_tokens: output,
                        stop_reason,
                    },
                );
            }
            push_event(&mut events, StreamEvent::Done);
        }
        proof {
            let want = ollama_events(j@);
            assert(stream_view(events@) =~= want->Ok_0);
        }
        Ok(events)
    }

    /// The events of a line of an answer as it came over the wire.
    pub fn parse_chunk(&mut self, data: &str) -> (r: Result<Vec<StreamEvent>, Error>)
        ensures
            events_or_error(r) == ollama_text_events(data@, parsed_json(data@)),
    {
        match Json::parse(data) {
            Ok(j) => self.events_of(&j),
            Err(e) => {
                let mut words = "Failed to parse NDJSON line: ".to_owned();
                words.append(data);
                Err(Error::because(words, e))
            },
        }
    }
}

proof fn lemma_calls_stop(calls: Seq<JsonView>, k: int)
    requires
        0 <= k <= calls.len(),
        ollama_calls(calls.take(k)) is Err,
    ensures
        ollama_calls(calls) == ollama_calls(calls.take(k)),
    decreases calls.len() - k,
{
    if k < calls.len() {
        assert(calls.take(k + 1).drop_last() =~= calls.take(k));
        lemma_calls_stop(calls, k + 1);
    } else {
        assert(calls.take(k) =~= calls);
    }
}

/// Ollama, in the cloud or on a machine of one's own.
#[derive(Debug, PartialEq, Eq)]
pub struct OllamaBackend {
    pub api_key: String,
    pub endpoint: String,
}

/// The body of a request.
pub open spec fn ollama_body(messages: Seq<MessageView>, request: RequestView) -> JsonView {
    let limit = map!["num_predict"@ => JsonView::UInt(request.max_tokens as u64)];
    let options = if thinking_enabled(request.thinking) {
        limit.insert("thinking"@, JsonView::Bool(true))
    } else {
        limit
    };
    let base = map![
        "model"@ => str_json(request.model),
        "messages"@ => JsonView::Array(chat_messages(Dialect::Ollama, messages)),
        "stream"@ => JsonView::Bool(true),
        "options"@ => JsonView::Object(options),
    ];
    JsonView::Object(
        if request.tools.len() == 0 {
            base
        } else {
            base.insert(
                "tools"@,
                JsonView::Array(
                    request.tools.map_values(|t: ToolDefinitionView| function_json(t)),
                ),
            )
        },
    )
}

/// The request that is sent; a key is sent where there is one.
pub open spec fn ollama_request(
    endpoint: Seq<char>,
    api_key: Seq<char>,
    messages: Seq<MessageView>,
    request: RequestView,
) -> HttpView {
    let plain = seq![("content-type"@, "application/json"@)];
    HttpView {
        url: endpoint,
        headers: if api_key.len() == 0 {
            plain
        } else {
            plain.push(("authorization"@, "Bearer "@ + api_key))
        },
        body: ollama_body(messages, request),
    }
}

impl OllamaBackend {
    /// The backend that a configuration describes; the cloud needs a key.
    pub fn new(config: &OllamaConfig) -> (r: Result<OllamaBackend, Error>)
        ensures
            match r {
                Ok(b) => {
                    &&& !(config.base_url@ == "https://ollama.com/api/chat"@
                        && config.api_key@.len() == 0)
                    &&& b.api_key@ == config.api_key@
                    &&& b.endpoint@ == config.base_url@
                },
                Err(e) => {
                    &&& config.base_url@ == "https://ollama.com/api/chat"@
                    &&& config.api_key@.len() == 0
                    &&& e@ == other(
                        "API key is required for Ollama Cloud. Set it in your config, or set base_url to your self-hosted endpoint."@,
                    )
                },
            },
    {
        if same_text(config.base_url.as_str(), "https://ollama.com/api/chat")
            && config.api_key.as_str().is_empty() {
            return Err(
                Error::Backend(
                    BackendError::Other(
                        "API key is required for Ollama Cloud. Set it in your config, or set base_url to your self-hosted endpoint.".to_owned(),
                    ),
                ),
            );
        }
        Ok(
            OllamaBackend {
                api_key: config.api_key.clone(),
                endpoint: config.base_url.clone(),
            },
        )
    }

    /// The body of a request.
    pub fn build_request_body(&self, messages: &[Message], config: &RequestConfig) -> (r: Json)
        ensures
            r@ == ollama_body(messages_view(messages@), config@),
    {
        let mut options = Json::object().with("num_predict", Json::UInt(config.max_tokens as u64));
        if config.thinks() {
            options = options.with("thinking", Json::Bool(true));
        }
        let mut body = Json::object().with("model", Json::str(config.model.as_str())).with(
            "messages",
            messages_to_json(Dialect::Ollama, messages),
        ).with("stream", Json::Bool(true)).with("options", options);
        if config.tools.len() > 0 {
            body = body.with("tools", functions_to_json(&config.tools));
        }
        body
    }

    /// The request that is sent.
    pub fn prepare(&self, messages: &[Message], config: &RequestConfig) -> (r: HttpRequest)
        ensures
            r@ == ollama_request(
                self.endpoint@,
                self.api_key@,
                messages_view(messages@),
                config@,
            ),
    {
        let body = self.build_request_body(messages, config);
        let mut headers: Vec<(String, String)> = Vec::new();
        push_header(&mut headers, "content-type", "application/json");
        assert(headers_view(headers@) =~= seq![("content-type"@, "application/json"@)]);
        if !self.api_key.as_str().is_empty() {
            let mut value = "Bearer ".to_owned();
            value.append(self.api_key.as_str());
            push_header(&mut headers, "authorization", value.as_str());
        }
        HttpRequest { url: self.endpoint.clone(), headers, body }
    }
}

} // verus!
