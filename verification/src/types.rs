//! The vocabulary of conversations: messages, requests, and the events that flow between a
//! backend, an agent and whoever watches it.
use vstd::prelude::*;

use crate::json::{Json, JsonView};
use crate::text::texts;

verus! {

/// Who speaks.
#[derive(Clone, Copy, Debug, PartialEq, Eq, Structural)]
pub enum Role {
    User,
    Assistant,
}

/// One piece of a message.
#[derive(Debug, PartialEq)]
pub enum ContentBlock {
    Text(String),
    ToolUse { id: String, name: String, input: Json },
    ToolResult { tool_use_id: String, content: String, is_error: bool },
    Thinking { text: String, signature: String },
    RedactedThinking { data: String },
}

/// What a [`ContentBlock`] says.
#[verifier::ext_equal]
pub enum BlockView {
    Text(Seq<char>),
    ToolUse { id: Seq<char>, name: Seq<char>, input: JsonView },
    ToolResult { tool_use_id: Seq<char>, content: Seq<char>, is_error: bool },
    Thinking { text: Seq<char>, signature: Seq<char> },
    RedactedThinking { data: Seq<char> },
}

impl ContentBlock {
    pub open spec fn view(self) -> BlockView {
        match self {
            ContentBlock::Text(t) => BlockView::Text(t@),
            ContentBlock::ToolUse { id, name, input } => BlockView::ToolUse {
                id: id@,
                name: name@,
                input: input@,
            },
            ContentBlock::ToolResult { tool_use_id, content, is_error } => BlockView::ToolResult {
                tool_use_id: tool_use_id@,
                content: content@,
                is_error,
            },
            ContentBlock::Thinking { text, signature } => BlockView::Thinking {
                text: text@,
                signature: signature@,
            },
            ContentBlock::RedactedThinking { data } => BlockView::RedactedThinking { data: data@ },
        }
    }

    /// A block that says the same.
    pub fn duplicate(&self) -> (r: ContentBlock)
        ensures
            r@ == self@,
    {
        match self {
            ContentBlock::Text(t) => ContentBlock::Text(t.clone()),
            ContentBlock::ToolUse { id, name, input } => ContentBlock::ToolUse {
                id: id.clone(),
                name: name.clone(),
                input: input.duplicate(),
            },
            ContentBlock::ToolResult { tool_use_id, content, is_error } => {
                ContentBlock::ToolResult {
                    tool_use_id: tool_use_id.clone(),
                    content: content.clone(),
                    is_error: *is_error,
                }
            },
            ContentBlock::Thinking { text, signature } => ContentBlock::Thinking {
                text: text.clone(),
                signature: signature.clone(),
            },
            ContentBlock::RedactedThinking { data } => ContentBlock::RedactedThinking {
                data: data.clone(),
            },
        }
    }
}

/// What each of several blocks says.
pub open spec fn blocks_view(s: Seq<ContentBlock>) -> Seq<BlockView> {
    s.map_values(|b: ContentBlock| b@)
}

/// The texts among blocks, in order.
pub open spec fn text_blocks(s: Seq<BlockView>) -> Seq<Seq<char>>
    decreases s.len(),
{
    if s.len() == 0 {
        Seq::empty()
    } else {
        match s.last() {
            BlockView::Text(t) => text_blocks(s.drop_last()).push(t),
            _ => text_blocks(s.drop_last()),
        }
    }
}

/// The texts among blocks, in order.
pub fn texts_of_blocks(content: &Vec<ContentBlock>) -> (r: Vec<String>)
    ensures
        texts(r@) == text_blocks(blocks_view(content@)),
{
    let mut parts: Vec<String> = Vec::new();
    let mut i: usize = 0;
    while i < content.len()
        invariant
            i <= content.len(),
            texts(parts@) == text_blocks(blocks_view(content@.take(i as int))),
        decreases content.len() - i,
    {
        let ghost next = blocks_view(content@.take(i + 1));
        assert(next.drop_last() =~= blocks_view(content@.take(i as int)));
        assert(next.last() == content@[i as int]@);
        let ghost before = parts@;
        match &content[i] {
            ContentBlock::Text(t) => {
                parts.push(t.clone());
                assert(texts(parts@) =~= texts(before).push(t@));
            },
            _ => {},
        }
        i += 1;
    }
    assert(content@.take(i as int) =~= content@);
    parts
}

/// Blocks that say the same.
pub fn duplicate_blocks(blocks: &Vec<ContentBlock>) -> (r: Vec<ContentBlock>)
    ensures
        blocks_view(r@) == blocks_view(blocks@),
{
    let mut out: Vec<ContentBlock> = Vec::new();
    let mut i: usize = 0;
    while i < blocks.len()
        invariant
            i <= blocks.len(),
            out.len() == i,
            forall|k: int| 0 <= k < i ==> (#[trigger] out@[k])@ == blocks@[k]@,
        decreases blocks.len() - i,
    {
        out.push(blocks[i].duplicate());
        i += 1;
    }
    assert(blocks_view(out@) =~= blocks_view(blocks@));
    out
}

/// One message of a conversation.
#[derive(Debug, PartialEq)]
pub struct Message {
    pub role: Role,
    pub content: Vec<ContentBlock>,
}

/// What a [`Message`] says.
#[verifier::ext_equal]
pub struct MessageView {
    pub role: Role,
    pub content: Seq<BlockView>,
}

/// A message made of one text.
pub open spec fn text_message(role: Role, text: Seq<char>) -> MessageView {
    MessageView { role, content: seq![BlockView::Text(text)] }
}

impl Message {
    pub open spec fn view(self) -> MessageView {
        MessageView { role: self.role, content: blocks_view(self.content@) }
    }

    /// A message made of one text.
    pub fn text(role: Role, text: String) -> (r: Message)
        ensures
            r@ == text_message(role, text@),
    {
        let r = Message { role, content: vec![ContentBlock::Text(text)] };
        assert(r@ =~= text_message(role, text@));
        r
    }

    /// A message that says the same.
    pub fn duplicate(&self) -> (r: Message)
        ensures
            r@ == self@,
    {
        Message { role: self.role, content: duplicate_blocks(&self.content) }
    }
}

/// What each of several messages says.
pub open spec fn messages_view(s: Seq<Message>) -> Seq<MessageView> {
    s.map_values(|m: Message| m@)
}

/// Messages that say the same.
pub fn duplicate_messages(messages: &[Message]) -> (r: Vec<Message>)
    ensures
        messages_view(r@) == messages_view(messages@),
{
    let mut out: Vec<Message> = Vec::new();
    let mut i: usize = 0;
    while i < messages.len()
        invariant
            i <= messages.len(),
            out.len() == i,
            forall|k: int| 0 <= k < i ==> (#[trigger] out@[k])@ == messages@[k]@,
        decreases messages.len() - i,
    {
        out.push(messages[i].duplicate());
        i += 1;
    }
    assert(messages_view(out@) =~= messages_view(messages@));
    out
}

/// What a backend streams while it answers.
#[derive(Debug, PartialEq)]
pub enum StreamEvent {
    TextDelta(String),
    ThinkingDelta(String),
    ThinkingSignature(String),
    ToolUseStart { id: String, name: String },
    ToolUseDelta(String),
    ToolUseDone,
    Usage { input_tokens: u32, output_tokens: u32, stop_reason: String },
    Done,
}

/// What a [`StreamEvent`] says.
#[verifier::ext_equal]
pub enum StreamView {
    TextDelta(Seq<char>),
    ThinkingDelta(Seq<char>),
    ThinkingSignature(Seq<char>),
    ToolUseStart { id: Seq<char>, name: Seq<char> },
    ToolUseDelta(Seq<char>),
    ToolUseDone,
    Usage { input_tokens: u32, output_tokens: u32, stop_reason: Seq<char> },
    Done,
}

impl StreamEvent {
    pub open spec fn view(self) -> StreamView {
        match self {
            StreamEvent::TextDelta(t) => StreamView::TextDelta(t@),
            StreamEvent::ThinkingDelta(t) => StreamView::ThinkingDelta(t@),
            StreamEvent::ThinkingSignature(t) => StreamView::ThinkingSignature(t@),
            StreamEvent::ToolUseStart { id, name } => StreamView::ToolUseStart {
                id: id@,
                name: name@,
            },
            StreamEvent::ToolUseDelta(t) => StreamView::ToolUseDelta(t@),
            StreamEvent::ToolUseDone => StreamView::ToolUseDone,
            StreamEvent::Usage { input_tokens, output_tokens, stop_reason } => StreamView::Usage {
                input_tokens,
                output_tokens,
                stop_reason: stop_reason@,
            },
            StreamEvent::Done => StreamView::Done,
        }
    }
}

/// What each of several stream events says.
pub open spec fn stream_view(s: Seq<StreamEvent>) -> Seq<StreamView> {
    s.map_values(|e: StreamEvent| e@)
}

/// What an agent reports to whoever watches it.
#[derive(Debug, PartialEq)]
pub enum AgentEvent {
    TokenReceived(String),
    ThinkingReceived(String),
    ResponseComplete(String),
    ToolUseReceived { id: String, name: String, input: Json, index: usize },
    ToolConfirmationRequired { id: String, name: String, input: Json, index: usize },
    ToolResult { name: String, content: String, is_error: bool, index: usize },
    Error(String),
    Retrying(String),
    Usage { input_tokens: u32, output_tokens: u32, stop_reason: String },
    SubAgentUsage { input_tokens: u32, output_tokens: u32 },
    Interrupted { partial_text: String },
    Warn(String),
    CompactionComplete { summary: String },
    AutoCompactTriggered { current_tokens: u32, threshold: u32 },
    BashCommandComplete,
}

/// What an [`AgentEvent`] says.
#[verifier::ext_equal]
pub enum EventView {
    TokenReceived(Seq<char>),
    ThinkingReceived(Seq<char>),
    ResponseComplete(Seq<char>),
    ToolUseReceived { id: Seq<char>, name: Seq<char>, input: JsonView, index: nat },
    ToolConfirmationRequired { id: Seq<char>, name: Seq<char>, input: JsonView, index: nat },
    ToolResult { name: Seq<char>, content: Seq<char>, is_error: bool, index: nat },
    Error(Seq<char>),
    Retrying(Seq<char>),
    Usage { input_tokens: u32, output_tokens: u32, stop_reason: Seq<char> },
    SubAgentUsage { input_tokens: u32, output_tokens: u32 },
    Interrupted { partial_text: Seq<char> },
    Warn(Seq<char>),
    CompactionComplete { summary: Seq<char> },
    AutoCompactTriggered { current_tokens: u32, threshold: u32 },
    BashCommandComplete,
}

impl AgentEvent {
    pub open spec fn view(self) -> EventView {
        match self {
            AgentEvent::TokenReceived(t) => EventView::TokenReceived(t@),
            AgentEvent::ThinkingReceived(t) => EventView::ThinkingReceived(t@),
            AgentEvent::ResponseComplete(t) => EventView::ResponseComplete(t@),
            AgentEvent::ToolUseReceived { id, name, input, index } => EventView::ToolUseReceived {
                id: id@,
                name: name@,
                input: input@,
                index: index as nat,
            },
            AgentEvent::ToolConfirmationRequired { id, name, input, index } => {
                EventView::ToolConfirmationRequired {
                    id: id@,
                    name: name@,
                    input: input@,
                    index: index as nat,
                }
            },
            AgentEvent::ToolResult { name, content, is_error, index } => EventView::ToolResult {
                name: name@,
                content: content@,
                is_error,
                index: index as nat,
            },
            AgentEvent::Error(t) => EventView::Error(t@),
            AgentEvent::Retrying(t) => EventView::Retrying(t@),
            AgentEvent::Usage { input_tokens, output_tokens, stop_reason } => EventView::Usage {
                input_tokens,
                output_tokens,
                stop_reason: stop_reason@,
            },
            AgentEvent::SubAgentUsage { input_tokens, output_tokens } => EventView::SubAgentUsage {
                input_tokens,
                output_tokens,
            },
            AgentEvent::Interrupted { partial_text } => EventView::Interrupted {
                partial_text: partial_text@,
            },
            AgentEvent::Warn(t) => EventView::Warn(t@),
            AgentEvent::CompactionComplete { summary } => EventView::CompactionComplete {
                summary: summary@,
            },
            AgentEvent::AutoCompactTriggered { current_tokens, threshold } => {
                EventView::AutoCompactTriggered { current_tokens, threshold }
            },
            AgentEvent::BashCommandComplete => EventView::BashCommandComplete,
        }
    }
}

/// What each of several agent events says.
pub open spec fn events_view(s: Seq<AgentEvent>) -> Seq<EventView> {
    s.map_values(|e: AgentEvent| e@)
}

/// How a user answers when asked whether a tool may run.
#[derive(Clone, Copy, Debug, PartialEq, Eq, Structural)]
pub enum ConfirmationResponse {
    Approved,
    Rejected,
}

/// How extended thinking is asked for.
#[derive(Clone, Copy, Debug, PartialEq, Eq, Structural)]
pub enum ThinkingMode {
    Budget { tokens: u32 },
    Adaptive,
}

/// Whether the thinking is shown.
#[derive(Clone, Copy, Debug, PartialEq, Eq, Structural)]
pub enum ThinkingDisplay {
    Summarized,
    Omitted,
}

/// Extended thinking.
#[derive(Clone, Copy, Debug, PartialEq, Eq, Structural)]
pub struct ThinkingConfig {
    pub enabled: bool,
    pub mode: ThinkingMode,
    pub display: Option<ThinkingDisplay>,
}

/// Whether extended thinking is asked for at all.
pub open spec fn thinking_enabled(thinking: Option<ThinkingConfig>) -> bool {
    thinking matches Some(t) && t.enabled
}

/// A tool as the model sees it.
#[derive(Debug, PartialEq)]
pub struct ToolDefinition {
    pub name: String,
    pub description: String,
    pub input_schema: Json,
}

/// What a [`ToolDefinition`] says.
#[verifier::ext_equal]
pub struct ToolDefinitionView {
    pub name: Seq<char>,
    pub description: Seq<char>,
    pub input_schema: JsonView,
}

impl ToolDefinition {
    pub open spec fn view(self) -> ToolDefinitionView {
        ToolDefinitionView {
            name: self.name@,
            description: self.description@,
            input_schema: self.input_schema@,
        }
    }

    /// A definition that says the same.
    pub fn duplicate(&self) -> (r: ToolDefinition)
        ensures
            r@ == self@,
    {
        ToolDefinition {
            name: self.name.clone(),
            description: self.description.clone(),
            input_schema: self.input_schema.duplicate(),
        }
    }
}

/// What each of several tool definitions says.
pub open spec fn tools_view(s: Seq<ToolDefinition>) -> Seq<ToolDefinitionView> {
    s.map_values(|t: ToolDefinition| t@)
}

/// Definitions that say the same.
pub fn duplicate_tools(tools: &Vec<ToolDefinition>) -> (r: Vec<ToolDefinition>)
    ensures
        tools_view(r@) == tools_view(tools@),
{
    let mut out: Vec<ToolDefinition> = Vec::new();
    let mut i: usize = 0;
    while i < tools.len()
        invariant
            i <= tools.len(),
            out.len() == i,
            forall|k: int| 0 <= k < i ==> (#[trigger] out@[k])@ == tools@[k]@,
        decreases tools.len() - i,
    {
        out.push(tools[i].duplicate());
        i += 1;
    }
    assert(tools_view(out@) =~= tools_view(tools@));
    out
}

/// How a request to a backend is to be made.
#[derive(Debug, PartialEq)]
pub struct RequestConfig {
    pub model: String,
    pub max_tokens: u32,
    pub tools: Vec<ToolDefinition>,
    pub thinking: Option<ThinkingConfig>,
}

/// What a [`RequestConfig`] says.
#[verifier::ext_equal]
pub struct RequestView {
    pub model: Seq<char>,
    pub max_tokens: u32,
    pub tools: Seq<ToolDefinitionView>,
    pub thinking: Option<ThinkingConfig>,
}

impl RequestConfig {
    pub open spec fn view(self) -> RequestView {
        RequestView {
            model: self.model@,
            max_tokens: self.max_tokens,
            tools: tools_view(self.tools@),
            thinking: self.thinking,
        }
    }

    /// Whether extended thinking is asked for.
    pub fn thinks(&self) -> (r: bool)
        ensures
            r == thinking_enabled(self@.thinking),
    {
        match &self.thinking {
            Some(t) => t.enabled,
            None => false,
        }
    }
}

} // verus!
