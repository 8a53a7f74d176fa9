//! What the model answers, as it comes in.
use vstd::prelude::*;

use crate::agent::effects::{effects_view, emit, Effect, EffectView};
use crate::types::{
    blocks_view, AgentEvent, BlockView, ContentBlock, EventView, StreamEvent, StreamView,
};

verus! {

/// A call of a tool as the model streams it.
#[derive(Debug, PartialEq, Eq)]
pub struct PendingToolCall {
    pub id: String,
    pub name: String,
    pub input_json: String,
}

/// What a [`PendingToolCall`] says.
#[verifier::ext_equal]
pub struct CallView {
    pub id: Seq<char>,
    pub name: Seq<char>,
    pub input_json: Seq<char>,
}

impl PendingToolCall {
    pub open spec fn view(self) -> CallView {
        CallView { id: self.id@, name: self.name@, input_json: self.input_json@ }
    }
}

/// What each of several calls says.
pub open spec fn calls_view(s: Seq<PendingToolCall>) -> Seq<CallView> {
    s.map_values(|c: PendingToolCall| c@)
}

/// What has come of the model's answer so far.
#[derive(Debug, PartialEq, Eq)]
pub struct Reply {
    pub text: String,
    pub thinking: String,
    pub signature: String,
    pub tool_calls: Vec<PendingToolCall>,
    pub current: Option<PendingToolCall>,
    pub peak_input_tokens: u32,
    pub last_output_tokens: u32,
}

/// What a [`Reply`] says.
#[verifier::ext_equal]
pub struct ReplyView {
    pub text: Seq<char>,
    pub thinking: Seq<char>,
    pub signature: Seq<char>,
    pub tool_calls: Seq<CallView>,
    pub current: Option<CallView>,
    pub peak_input_tokens: u32,
    pub last_output_tokens: u32,
}

/// An answer of which nothing has come.
pub open spec fn empty_reply() -> ReplyView {
    ReplyView {
        text: Seq::empty(),
        thinking: Seq::empty(),
        signature: Seq::empty(),
        tool_calls: Seq::empty(),
        current: None,
        peak_input_tokens: 0,
        last_output_tokens: 0,
    }
}

impl ReplyView {
    /// The answer after one more event of the stream.
    pub open spec fn after(self, event: StreamView) -> ReplyView {
        match event {
            StreamView::TextDelta(t) => ReplyView { text: self.text + t, ..self },
            StreamView::ThinkingDelta(t) => ReplyView { thinking: self.thinking + t, ..self },
            StreamView::ThinkingSignature(s) => ReplyView { signature: s, ..self },
            StreamView::ToolUseStart { id, name } => ReplyView {
                current: Some(CallView { id, name, input_json: Seq::empty() }),
                ..self
            },
            StreamView::ToolUseDelta(t) => match self.current {
                Some(c) => ReplyView {
                    current: Some(CallView { input_json: c.input_json + t, ..c }),
                    ..self
                },
                None => self,
            },
            StreamView::ToolUseDone => match self.current {
                Some(c) => ReplyView {
                    tool_calls: self.tool_calls.push(c),
                    current: None,
                    ..self
                },
                None => self,
            },
            StreamView::Usage { input_tokens, output_tokens, .. } => ReplyView {
                peak_input_tokens: if input_tokens > self.peak_input_tokens {
                    input_tokens
                } else {
                    self.peak_input_tokens
                },
                last_output_tokens: output_tokens,
                ..self
            },
            StreamView::Done => self,
        }
    }

    /// The thought and the text of the answer, each only where there is one.
    pub open spec fn blocks(self) -> Seq<BlockView> {
        (if self.thinking.len() == 0 {
            Seq::empty()
        } else {
            seq![BlockView::Thinking { text: self.thinking, signature: self.signature }]
        }) + (if self.text.len() == 0 {
            Seq::empty()
        } else {
            seq![BlockView::Text(self.text)]
        })
    }
}

/// What is reported of an event of the stream.
pub open spec fn stream_effects(event: StreamView) -> Seq<EffectView> {
    match event {
        StreamView::TextDelta(t) => seq![EffectView::Emit(EventView::TokenReceived(t))],
        StreamView::ThinkingDelta(t) => seq![EffectView::Emit(EventView::ThinkingReceived(t))],
        StreamView::Usage { input_tokens, output_tokens, stop_reason } => seq![
            EffectView::Emit(EventView::Usage { input_tokens, output_tokens, stop_reason }),
        ],
        _ => Seq::empty(),
    }
}

impl Reply {
    pub open spec fn view(self) -> ReplyView {
        ReplyView {
            text: self.text@,
            thinking: self.thinking@,
            signature: self.signature@,
            tool_calls: calls_view(self.tool_calls@),
            current: match self.current {
                Some(c) => Some(c@),
                None => None,
            },
            peak_input_tokens: self.peak_input_tokens,
            last_output_tokens: self.last_output_tokens,
        }
    }

    /// An answer of which nothing has come.
    pub fn new() -> (r: Reply)
        ensures
            r@ == empty_reply(),
    {
        let r = Reply {
            text: String::new(),
            thinking: String::new(),
            signature: String::new(),
            tool_calls: Vec::new(),
            current: None,
            peak_input_tokens: 0,
            last_output_tokens: 0,
        };
        assert(r@ =~= empty_reply());
        r
    }

    /// Takes in one event of the stream and reports it.
    pub fn absorb(&mut self, event: StreamEvent, out: &mut Vec<Effect>)
        ensures
            final(self)@ == old(self)@.after(event@),
            effects_view(final(out)@) == effects_view(old(out)@) + stream_effects(event@),
    {
        let ghost before = effects_view(out@);
        let ghost old_reply = self@;
        match event {
            StreamEvent::TextDelta(t) => {
                self.text.append(t.as_str());
                emit(out, AgentEvent::TokenReceived(t));
            },
            StreamEvent::ThinkingDelta(t) => {
                self.thinking.append(t.as_str());
                emit(out, AgentEvent::ThinkingReceived(t));
            },
            StreamEvent::ThinkingSignature(s) => {
                self.signature = s;
            },
            StreamEvent::ToolUseStart { id, name } => {
                self.current = Some(PendingToolCall { id, name, input_json: String::new() });
                assert(self@.current->Some_0.input_json =~= Seq::<char>::empty());
            },
            StreamEvent::ToolUseDelta(t) => {
                match self.current.take() {
                    Some(c) => {
                        let mut c = c;
                        c.input_json.append(t.as_str());
                        self.current = Some(c);
                    },
                    None => {},
                }
            },
            StreamEvent::ToolUseDone => {
                match self.current.take() {
                    Some(c) => {
                        self.tool_calls.push(c);
                        assert(self@.tool_calls =~= old_reply.tool_calls.push(c@));
                    },
                    None => {},
                }
            },
            StreamEvent::Usage { input_tokens, output_tokens, stop_reason } => {
                if input_tokens > self.peak_input_tokens {
                    self.peak_input_tokens = input_tokens;
                }
                self.last_output_tokens = output_tokens;
                emit(out, AgentEvent::Usage { input_tokens, output_tokens, stop_reason });
            },
            StreamEvent::Done => {},
        }
        assert(effects_view(out@) =~= before + stream_effects(event@));
        assert(self@ =~= old_reply.after(event@));
    }

    /// The thought and the text of the answer, each only where there is one.
    pub fn blocks(&self) -> (r: Vec<ContentBlock>)
        ensures
            blocks_view(r@) == self@.blocks(),
    {
        let mut r: Vec<ContentBlock> = Vec::new();
        if !self.thinking.as_str().is_empty() {
            r.push(
                ContentBlock::Thinking {
                    text: self.thinking.clone(),
                    signature: self.signature.clone(),
                },
            );
        }
        if !self.text.as_str().is_empty() {
            r.push(ContentBlock::Text(self.text.clone()));
        }
        assert(blocks_view(r@) =~= self@.blocks());
        r
    }
}

} // verus!
