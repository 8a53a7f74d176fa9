//! What goes over the wire: requests, their headers, and conversations as JSON.
use vstd::prelude::*;
use vstd::utf8::*;

use crate::json::{items_view, lemma_items_push, Json, JsonView};
use crate::types::{tools_view, BlockView, ContentBlock, Role, ToolDefinition, ToolDefinitionView};

verus! {

/// A request as it is sent.
#[derive(Debug, PartialEq)]
pub struct HttpRequest {
    pub url: String,
    pub headers: Vec<(String, String)>,
    pub body: Json,
}

/// What a [`HttpRequest`] says.
#[verifier::ext_equal]
pub struct HttpView {
    pub url: Seq<char>,
    pub headers: Seq<(Seq<char>, Seq<char>)>,
    pub body: JsonView,
}

impl HttpRequest {
    pub open spec fn view(self) -> HttpView {
        HttpView { url: self.url@, headers: headers_view(self.headers@), body: self.body@ }
    }
}

/// What each of several headers says: its name and its value.
pub open spec fn headers_view(s: Seq<(String, String)>) -> Seq<(Seq<char>, Seq<char>)> {
    s.map_values(|h: (String, String)| (h.0@, h.1@))
}

/// Adds a header.
pub fn push_header(headers: &mut Vec<(String, String)>, name: &str, value: &str)
    ensures
        headers_view(final(headers)@) == headers_view(old(headers)@).push((name@, value@)),
{
    headers.push((name.to_owned(), value.to_owned()));
    assert(headers_view(headers@) =~= headers_view(old(headers)@).push((name@, value@)));
}

/// Whether a text can be the value of a header: none of its bytes is a control character other
/// than the tab.
pub open spec fn is_header_value(s: Seq<char>) -> bool {
    forall|i: int|
        0 <= i < encode_utf8(s).len() ==> {
            let b = #[trigger] encode_utf8(s)[i];
            b == 9 || (b >= 32 && b != 127)
        }
}

/// `reqwest::header::HeaderValue::from_str`: accepts a text exactly when each of its bytes is a
/// tab, or at least 32 and not 127, and has one thing to say of all others.
#[verifier::external_body]
pub(crate) fn check_header_value(s: &str) -> (r: Result<(), String>)
    ensures
        r is Ok == is_header_value(s@),
        r matches Err(e) ==> e@ == "failed to parse header value"@,
{
    match reqwest::header::HeaderValue::from_str(s) {
        Ok(_) => Ok(()),
        Err(e) => Err(e.to_string()),
    }
}

/// The form in which `Debug` shows a text: in quotes, with escapes.
pub uninterp spec fn debug_form(s: Seq<char>) -> Seq<char>;

/// `Debug` of `str`: the text in quotes, with escapes.
#[verifier::external_body]
pub(crate) fn debug_text(s: &str) -> (r: String)
    ensures
        r@ == debug_form(s@),
{
    format!("{s:?}")
}

/// A speaker on the wire.
pub open spec fn role_name(role: Role) -> Seq<char> {
    match role {
        Role::User => "user"@,
        Role::Assistant => "assistant"@,
    }
}

/// A speaker on the wire.
pub fn role_text(role: Role) -> (r: &'static str)
    ensures
        r@ == role_name(role),
{
    match role {
        Role::User => "user",
        Role::Assistant => "assistant",
    }
}

/// A text in JSON.
pub open spec fn str_json(s: Seq<char>) -> JsonView {
    JsonView::Str(s)
}

/// A text block on the wire.
pub open spec fn text_json(text: Seq<char>) -> JsonView {
    JsonView::Object(map!["type"@ => str_json("text"@), "text"@ => str_json(text)])
}

/// A block on the wire.
pub open spec fn block_json(block: BlockView) -> JsonView {
    match block {
        BlockView::Text(text) => text_json(text),
        BlockView::ToolUse { id, name, input } => JsonView::Object(
            map![
                "type"@ => str_json("tool_use"@),
                "id"@ => str_json(id),
                "name"@ => str_json(name),
                "input"@ => input,
            ],
        ),
        BlockView::ToolResult { tool_use_id, content, is_error } => JsonView::Object(
            map![
                "type"@ => str_json("tool_result"@),
                "tool_use_id"@ => str_json(tool_use_id),
                "content"@ => str_json(content),
                "is_error"@ => JsonView::Bool(is_error),
            ],
        ),
        BlockView::Thinking { text, signature } => JsonView::Object(
            map![
                "type"@ => str_json("thinking"@),
                "thinking"@ => str_json(text),
                "signature"@ => str_json(signature),
            ],
        ),
        BlockView::RedactedThinking { data } => JsonView::Object(
            map!["type"@ => str_json("redacted_thinking"@), "data"@ => str_json(data)],
        ),
    }
}

/// A text block on the wire.
pub fn text_to_json(text: &str) -> (r: Json)
    ensures
        r@ == text_json(text@),
{
    Json::object().with("type", Json::str("text")).with("text", Json::str(text))
}

/// A block on the wire.
pub fn block_to_json(block: &ContentBlock) -> (r: Json)
    ensures
        r@ == block_json(block@),
{
    match block {
        ContentBlock::Text(text) => text_to_json(text.as_str()),
        ContentBlock::ToolUse { id, name, input } => Json::object().with(
            "type",
            Json::str("tool_use"),
        ).with("id", Json::str(id.as_str())).with("name", Json::str(name.as_str())).with(
            "input",
            input.duplicate(),
        ),
        ContentBlock::ToolResult { tool_use_id, content, is_error } => Json::object().with(
            "type",
            Json::str("tool_result"),
        ).with("tool_use_id", Json::str(tool_use_id.as_str())).with(
            "content",
            Json::str(content.as_str()),
        ).with("is_error", Json::Bool(*is_error)),
        ContentBlock::Thinking { text, signature } => Json::object().with(
            "type",
            Json::str("thinking"),
        ).with("thinking", Json::str(text.as_str())).with(
            "signature",
            Json::str(signature.as_str()),
        ),
        ContentBlock::RedactedThinking { data } => Json::object().with(
            "type",
            Json::str("redacted_thinking"),
        ).with("data", Json::str(data.as_str())),
    }
}

/// A tool in the Anthropic protocol.
pub open spec fn tool_json(tool: ToolDefinitionView) -> JsonView {
    JsonView::Object(
        map![
            "name"@ => str_json(tool.name),
            "description"@ => str_json(tool.description),
            "input_schema"@ => tool.input_schema,
        ],
    )
}

/// A tool in the OpenAI protocol.
pub open spec fn function_json(tool: ToolDefinitionView) -> JsonView {
    JsonView::Object(
        map![
            "type"@ => str_json("function"@),
            "function"@ => JsonView::Object(
                map![
                    "name"@ => str_json(tool.name),
                    "description"@ => str_json(tool.description),
                    "parameters"@ => tool.input_schema,
                ],
            ),
        ],
    )
}

/// Tools in the Anthropic protocol.
pub fn tools_to_json(tools: &Vec<ToolDefinition>) -> (r: Json)
    ensures
        r@ == JsonView::Array(
            tools_view(tools@).map_values(|t: ToolDefinitionView| tool_json(t)),
        ),
{
    let ghost want = tools_view(tools@).map_values(|t: ToolDefinitionView| tool_json(t));
    let mut items: Vec<Json> = Vec::new();
    let mut i: usize = 0;
    assert(items_view(items@) =~= want.take(0));
    while i < tools.len()
        invariant
            i <= tools.len(),
            want == tools_view(tools@).map_values(|t: ToolDefinitionView| tool_json(t)),
            items_view(items@) == want.take(i as int),
        decreases tools.len() - i,
    {
        let j = Json::object().with("name", Json::str(tools[i].name.as_str())).with(
            "description",
            Json::str(tools[i].description.as_str()),
        ).with("input_schema", tools[i].input_schema.duplicate());
        proof {
            lemma_items_push(items@, j);
            assert(j@ == want[i as int]);
            assert(want.take(i + 1) =~= want.take(i as int).push(j@));
        }
        items.push(j);
        i += 1;
    }
    assert(want.take(i as int) =~= want);
    Json::array(items)
}

/// Tools in the OpenAI protocol.
pub fn functions_to_json(tools: &Vec<ToolDefinition>) -> (r: Json)
    ensures
        r@ == JsonView::Array(
            tools_view(tools@).map_values(|t: ToolDefinitionView| function_json(t)),
        ),
{
    let ghost want = tools_view(tools@).map_values(|t: ToolDefinitionView| function_json(t));
    let mut items: Vec<Json> = Vec::new();
    let mut i: usize = 0;
    assert(items_view(items@) =~= want.take(0));
    while i < tools.len()
        invariant
            i <= tools.len(),
            want == tools_view(tools@).map_values(|t: ToolDefinitionView| function_json(t)),
            items_view(items@) == want.take(i as int),
        decreases tools.len() - i,
    {
        let function = Json::object().with("name", Json::str(tools[i].name.as_str())).with(
            "description",
            Json::str(tools[i].description.as_str()),
        ).with("parameters", tools[i].input_schema.duplicate());
        let j = Json::object().with("type", Json::str("function")).with("function", function);
        proof {
            lemma_items_push(items@, j);
            assert(j@ == want[i as int]);
            assert(want.take(i + 1) =~= want.take(i as int).push(j@));
        }
        items.push(j);
        i += 1;
    }
    assert(want.take(i as int) =~= want);
    Json::array(items)
}

} // verus!
