//! What a step of the agent asks its surroundings to do.
use vstd::prelude::*;

use crate::text::decimal;
use crate::text::push_decimal;
use crate::types::{
    text_message, AgentEvent, BlockView, ContentBlock, EventView, Message, MessageView, Role,
};

verus! {

/// One thing to do.
#[derive(Debug, PartialEq)]
pub enum Effect {
    /// Add the message to the conversation and store it with the session.
    Append(Message),
    /// Report the event.
    Emit(AgentEvent),
}

/// What an [`Effect`] says.
#[verifier::ext_equal]
pub enum EffectView {
    Append(MessageView),
    Emit(EventView),
}

impl Effect {
    pub open spec fn view(self) -> EffectView {
        match self {
            Effect::Append(m) => EffectView::Append(m@),
            Effect::Emit(e) => EffectView::Emit(e@),
        }
    }
}

/// What each of several effects says.
pub open spec fn effects_view(s: Seq<Effect>) -> Seq<EffectView> {
    s.map_values(|e: Effect| e@)
}

/// The messages that effects add to the conversation, in order.
pub open spec fn appended(s: Seq<EffectView>) -> Seq<MessageView>
    decreases s.len(),
{
    if s.len() == 0 {
        Seq::empty()
    } else {
        match s.last() {
            EffectView::Append(m) => appended(s.drop_last()).push(m),
            EffectView::Emit(_) => appended(s.drop_last()),
        }
    }
}

/// The events that effects report, in order.
pub open spec fn emitted(s: Seq<EffectView>) -> Seq<EventView>
    decreases s.len(),
{
    if s.len() == 0 {
        Seq::empty()
    } else {
        match s.last() {
            EffectView::Append(_) => emitted(s.drop_last()),
            EffectView::Emit(e) => emitted(s.drop_last()).push(e),
        }
    }
}

pub fn emit(out: &mut Vec<Effect>, event: AgentEvent)
    ensures
        effects_view(final(out)@) == effects_view(old(out)@).push(EffectView::Emit(event@)),
{
    out.push(Effect::Emit(event));
    assert(effects_view(out@) =~= effects_view(old(out)@).push(EffectView::Emit(event@)));
}

pub fn append(out: &mut Vec<Effect>, message: Message)
    ensures
        effects_view(final(out)@) == effects_view(old(out)@).push(EffectView::Append(message@)),
{
    out.push(Effect::Append(message));
    assert(effects_view(out@) =~= effects_view(old(out)@).push(EffectView::Append(message@)));
}

/// Keeps what the model had said so far, if it had said anything.
pub open spec fn partial_effects(text: Seq<char>) -> Seq<EffectView> {
    if text.len() == 0 {
        Seq::empty()
    } else {
        seq![EffectView::Append(text_message(Role::Assistant, text))]
    }
}

/// Keeps what the model had said so far and reports that it was interrupted.
pub open spec fn interrupt_effects(text: Seq<char>) -> Seq<EffectView> {
    partial_effects(text).push(EffectView::Emit(EventView::Interrupted { partial_text: text }))
}

/// A message that holds a thought.
pub open spec fn thinking_message(text: Seq<char>, signature: Seq<char>) -> MessageView {
    MessageView { role: Role::Assistant, content: seq![BlockView::Thinking { text, signature }] }
}

/// Keeps what the model had thought so far, if it had thought anything.
pub open spec fn thinking_effects(text: Seq<char>, signature: Seq<char>) -> Seq<EffectView> {
    if text.len() == 0 {
        Seq::empty()
    } else {
        seq![EffectView::Append(thinking_message(text, signature))]
    }
}

/// Tells the model of an error, as a message of the user, and reports `event`.
pub open spec fn error_effects(words: Seq<char>, event: EventView) -> Seq<EffectView> {
    seq![
        EffectView::Append(text_message(Role::User, "[ERROR] "@ + words)),
        EffectView::Emit(event),
    ]
}

/// Keeps what the model had said so far, if it had said anything.
pub fn persist_partial(out: &mut Vec<Effect>, text: &String)
    ensures
        effects_view(final(out)@) == effects_view(old(out)@) + partial_effects(text@),
{
    if text.as_str().is_empty() {
        assert(effects_view(out@) =~= effects_view(old(out)@) + partial_effects(text@));
        return;
    }
    append(out, Message::text(Role::Assistant, text.clone()));
    assert(effects_view(out@) =~= effects_view(old(out)@) + partial_effects(text@));
}

/// Keeps what the model had said so far and reports that it was interrupted.
pub fn persist_partial_and_interrupt(out: &mut Vec<Effect>, text: &String)
    ensures
        effects_view(final(out)@) == effects_view(old(out)@) + interrupt_effects(text@),
{
    persist_partial(out, text);
    emit(out, AgentEvent::Interrupted { partial_text: text.clone() });
    assert(effects_view(out@) =~= effects_view(old(out)@) + interrupt_effects(text@));
}

/// Keeps what the model had thought so far, if it had thought anything.
pub fn persist_thinking(out: &mut Vec<Effect>, text: &String, signature: &String)
    ensures
        effects_view(final(out)@) == effects_view(old(out)@) + thinking_effects(text@, signature@),
{
    if !text.as_str().is_empty() {
        let m = Message {
            role: Role::Assistant,
            content: vec![ContentBlock::Thinking { text: text.clone(), signature: signature.clone() }],
        };
        assert(m@ =~= thinking_message(text@, signature@));
        append(out, m);
    }
    assert(effects_view(out@) =~= effects_view(old(out)@) + thinking_effects(text@, signature@));
}

/// Tells the model of an error and reports `event`.
pub fn inject_error_and_emit(out: &mut Vec<Effect>, words: &str, event: AgentEvent)
    ensures
        effects_view(final(out)@) == effects_view(old(out)@) + error_effects(words@, event@),
{
    let mut text = "[ERROR] ".to_owned();
    text.append(words);
    append(out, Message::text(Role::User, text));
    emit(out, event);
    assert(effects_view(out@) =~= effects_view(old(out)@) + error_effects(words@, event@));
}

/// Tells the model of an error that ends the turn, and reports it.
pub fn record_error(out: &mut Vec<Effect>, words: String)
    ensures
        effects_view(final(out)@) == effects_view(old(out)@) + error_effects(
            words@,
            EventView::Error(words@),
        ),
{
    inject_error_and_emit(out, words.as_str(), AgentEvent::Error(words.clone()));
}

/// Tells the model of an error after which it is asked again, and reports that.
pub fn record_retry(out: &mut Vec<Effect>, words: String)
    ensures
        effects_view(final(out)@) == effects_view(old(out)@) + error_effects(
            words@,
            EventView::Retrying(words@),
        ),
{
    inject_error_and_emit(out, words.as_str(), AgentEvent::Retrying(words.clone()));
}

/// What is said when the conversation is too long although it was just compacted.
pub open spec fn still_too_long(tokens: u32, threshold: u32) -> Seq<char> {
    "Context still exceeds threshold ("@ + decimal(tokens as nat) + " > "@ + decimal(
        threshold as nat,
    )
        + ") after auto-compaction. Manual /compact or starting a new session is recommended."@
}

/// Whether the conversation was compacted automatically last time, from now on.
pub open spec fn auto_compact_flag(peak: u32, window: u32, last: bool) -> bool {
    if window == 0 {
        last
    } else {
        peak > window
    }
}

/// What is reported when a completed answer brought the conversation to `peak` tokens: nothing
/// without a threshold or below it, a request to compact the first time in a row, a warning
/// after that.
pub open spec fn auto_compact_effects(peak: u32, window: u32, last: bool) -> Seq<EffectView> {
    if window == 0 || peak <= window {
        Seq::empty()
    } else if last {
        seq![EffectView::Emit(EventView::Warn(still_too_long(peak, window)))]
    } else {
        seq![
            EffectView::Emit(
                EventView::AutoCompactTriggered { current_tokens: peak, threshold: window },
            ),
        ]
    }
}

/// Asks for a compaction where a completed answer exceeded the threshold, but never twice in a
/// row.
pub fn check_auto_compact(out: &mut Vec<Effect>, peak: u32, window: u32, last: bool) -> (r: bool)
    ensures
        effects_view(final(out)@) == effects_view(old(out)@) + auto_compact_effects(
            peak,
            window,
            last,
        ),
        r == auto_compact_flag(peak, window, last),
{
    let ghost before = effects_view(out@);
    if window == 0 {
        assert(before =~= before + auto_compact_effects(peak, window, last));
        return last;
    }
    if peak > window {
        if last {
            let mut s = "Context still exceeds threshold (".to_owned();
            push_decimal(&mut s, peak as u64);
            s.append(" > ");
            push_decimal(&mut s, window as u64);
            s.append(
                ") after auto-compaction. Manual /compact or starting a new session is recommended.",
            );
            emit(out, AgentEvent::Warn(s));
        } else {
            emit(out, AgentEvent::AutoCompactTriggered { current_tokens: peak, threshold: window });
        }
        assert(effects_view(out@) =~= before + auto_compact_effects(peak, window, last));
        true
    } else {
        assert(before =~= before + auto_compact_effects(peak, window, last));
        false
    }
}

pub proof fn lemma_appended_add(a: Seq<EffectView>, b: Seq<EffectView>)
    ensures
        appended(a + b) == appended(a) + appended(b),
    decreases b.len(),
{
    if b.len() == 0 {
        assert(a + b =~= a);
        assert(appended(a) + appended(b) =~= appended(a));
    } else {
        assert((a + b).drop_last() =~= a + b.drop_last());
        assert((a + b).last() == b.last());
        lemma_appended_add(a, b.drop_last());
        assert(appended(a + b) =~= appended(a) + appended(b));
    }
}

pub proof fn lemma_emitted_add(a: Seq<EffectView>, b: Seq<EffectView>)
    ensures
        emitted(a + b) == emitted(a) + emitted(b),
    decreases b.len(),
{
    if b.len() == 0 {
        assert(a + b =~= a);
        assert(emitted(a) + emitted(b) =~= emitted(a));
    } else {
        assert((a + b).drop_last() =~= a + b.drop_last());
        assert((a + b).last() == b.last());
        lemma_emitted_add(a, b.drop_last());
        assert(emitted(a + b) =~= emitted(a) + emitted(b));
    }
}

} // verus!
