//! Compaction: replacing the older part of a conversation by a summary.
use vstd::prelude::*;

use crate::agent::compact_helpers::{all_stripped, retained_start, retained_start_index, strip_from};
use crate::agent::spawner::{HeadlessOutcome, HeadlessView};
use crate::json::json_text;
use crate::text::{among, blank, is_blank, join_texts, joined, texts};
use crate::types::{
    messages_view, text_message, BlockView, ContentBlock, Message, MessageView, Role,
};

verus! {

/// What compaction reads of the settings: the role that summarises, and the roles there are.
#[derive(Debug, PartialEq, Eq)]
pub struct CompactionSpawner {
    pub role: String,
    pub roles: Vec<String>,
}

/// The role that summarises: the configured one if there is such a role.
pub open spec fn compaction_role(role: Seq<char>, roles: Seq<Seq<char>>) -> Seq<char> {
    if roles.contains(role) {
        role
    } else {
        "default"@
    }
}

impl CompactionSpawner {
    /// The role that summarises.
    pub fn effective_role(&self) -> (r: String)
        ensures
            r@ == compaction_role(self.role@, texts(self.roles@)),
    {
        if among(&self.roles, self.role.as_str()) {
            self.role.clone()
        } else {
            "default".to_owned()
        }
    }
}

/// How the speaker is named in a transcript.
pub open spec fn role_label(role: Role) -> Seq<char> {
    match role {
        Role::User => "User"@,
        Role::Assistant => "Assistant"@,
    }
}

/// A block in a transcript.
pub open spec fn block_words(role: Role, block: BlockView) -> Seq<char> {
    role_label(role) + ": "@ + match block {
        BlockView::Text(text) => text,
        BlockView::ToolUse { name, input, .. } => "[Called tool "@ + name + " with input "@
            + json_text(input) + "]"@,
        BlockView::ToolResult { content, is_error, .. } => "[Tool "@ + (if is_error {
            "error"@
        } else {
            "result"@
        }) + ": "@ + content + "]"@,
        BlockView::Thinking { text, .. } => "[Thinking: "@ + text + "]"@,
        BlockView::RedactedThinking { .. } => "[Redacted thinking]"@,
    }
}

/// A message in a transcript, block by block.
pub open spec fn message_words(m: MessageView) -> Seq<Seq<char>> {
    m.content.map_values(|b: BlockView| block_words(m.role, b))
}

/// A conversation as a transcript, block by block.
pub open spec fn transcript(s: Seq<MessageView>) -> Seq<Seq<char>>
    decreases s.len(),
{
    if s.len() == 0 {
        Seq::empty()
    } else {
        transcript(s.drop_last()) + message_words(s.last())
    }
}

/// What the summarising role is asked.
pub open spec fn summary_prompt(parts: Seq<Seq<char>>) -> Seq<char> {
    "Summarize the following conversation concisely, preserving key facts, decisions, and context that would be needed to continue the conversation. Do not include meta-commentary — output only the summary.\n\n"@
        + joined(parts, "\n\n"@)
}

/// How a compaction is to go on.
#[derive(Debug, PartialEq)]
pub enum CompactionPlan {
    /// There is nothing to do, and this is to be said.
    Nothing(String),
    /// The role is to answer the prompt; the messages are kept behind the summary.
    Summarize { role: String, prompt: String, retained: Vec<Message> },
}

/// What a [`CompactionPlan`] says.
#[verifier::ext_equal]
pub enum PlanView {
    Nothing(Seq<char>),
    Summarize { role: Seq<char>, prompt: Seq<char>, retained: Seq<MessageView> },
}

impl CompactionPlan {
    pub open spec fn view(self) -> PlanView {
        match self {
            CompactionPlan::Nothing(words) => PlanView::Nothing(words@),
            CompactionPlan::Summarize { role, prompt, retained } => PlanView::Summarize {
                role: role@,
                prompt: prompt@,
                retained: messages_view(retained@),
            },
        }
    }
}

/// The part of the conversation behind its first `prefix` messages.
pub open spec fn persisted(history: Seq<MessageView>, prefix: nat) -> Seq<MessageView> {
    history.skip(if prefix < history.len() {
        prefix as int
    } else {
        history.len() as int
    })
}

/// How a compaction of `old` is to go on that keeps the last `n` turns.
pub open spec fn compaction_plan(role: Seq<char>, old: Seq<MessageView>, n: u32) -> PlanView {
    let start = if n == 0 {
        old.len() as int
    } else {
        retained_start(old, n as nat)
    };
    let parts = transcript(old.take(start));
    if n > 0 && start == 0 {
        PlanView::Nothing("Nothing to compact: all turns are retained."@)
    } else if parts.len() == 0 {
        PlanView::Nothing("Nothing to compact: the conversation is empty."@)
    } else {
        PlanView::Summarize {
            role,
            prompt: summary_prompt(parts),
            retained: all_stripped(old.skip(start)),
        }
    }
}

fn block_text(role: Role, block: &ContentBlock) -> (r: String)
    ensures
        r@ == block_words(role, block@),
{
    let mut s = match role {
        Role::User => "User".to_owned(),
        Role::Assistant => "Assistant".to_owned(),
    };
    s.append(": ");
    let ghost lead = s@;
    let mut body = String::new();
    match block {
        ContentBlock::Text(text) => {
            body.append(text.as_str());
        },
        ContentBlock::ToolUse { name, input, .. } => {
            body.append("[Called tool ");
            body.append(name.as_str());
            body.append(" with input ");
            body.append(input.to_text().as_str());
            body.append("]");
        },
        ContentBlock::ToolResult { content, is_error, .. } => {
            body.append("[Tool ");
            body.append(if *is_error {
                "error"
            } else {
                "result"
            });
            body.append(": ");
            body.append(content.as_str());
            body.append("]");
        },
        ContentBlock::Thinking { text, .. } => {
            body.append("[Thinking: ");
            body.append(text.as_str());
            body.append("]");
        },
        ContentBlock::RedactedThinking { .. } => {
            body.append("[Redacted thinking]");
        },
    }
    s.append(body.as_str());
    assert(s@ =~= block_words(role, block@));
    s
}

/// The first `end` messages as a transcript, block by block.
fn transcribe(messages: &[Message], end: usize) -> (r: Vec<String>)
    requires
        end <= messages@.len(),
    ensures
        texts(r@) == transcript(messages_view(messages@).take(end as int)),
{
    let ghost all = messages_view(messages@);
    let mut parts: Vec<String> = Vec::new();
    let mut i: usize = 0;
    assert(texts(parts@) =~= transcript(all.take(0)));
    while i < end
        invariant
            i <= end <= messages.len(),
            all == messages_view(messages@),
            texts(parts@) == transcript(all.take(i as int)),
        decreases end - i,
    {
        let ghost lead = texts(parts@);
        let ghost m = messages@[i as int]@;
        let role = messages[i].role;
        let mut k: usize = 0;
        assert(texts(parts@) =~= lead + message_words(m).take(0));
        while k < messages[i].content.len()
            invariant
                i < messages.len(),
                k <= messages@[i as int].content.len(),
                role == messages@[i as int].role,
                m == messages@[i as int]@,
                texts(parts@) == lead + message_words(m).take(k as int),
            decreases messages@[i as int].content.len() - k,
        {
            let ghost before = parts@;
            let words = block_text(role, &messages[i].content[k]);
            parts.push(words);
            proof {
                assert(texts(parts@) =~= texts(before).push(words@));
                assert(message_words(m)[k as int] == words@);
                assert(message_words(m).take(k + 1) =~= message_words(m).take(k as int).push(
                    words@,
                ));
                assert(texts(parts@) =~= lead + message_words(m).take(k + 1));
            }
            k += 1;
        }
        proof {
            assert(message_words(m).take(k as int) =~= message_words(m));
            assert(all.take(i + 1).drop_last() =~= all.take(i as int));
            assert(all.take(i + 1).last() == m);
        }
        i += 1;
    }
    parts
}

/// Plans the compaction of a conversation whose first `context_prefix_len` messages are left
/// alone and whose last `num_retained_turns` turns are kept.
pub fn compact_with(
    spawner: &CompactionSpawner,
    history: &Vec<Message>,
    context_prefix_len: usize,
    num_retained_turns: u32,
) -> (r: CompactionPlan)
    ensures
        r@ == compaction_plan(
            compaction_role(spawner.role@, texts(spawner.roles@)),
            persisted(messages_view(history@), context_prefix_len as nat),
            num_retained_turns,
        ),
{
    let role = spawner.effective_role();
    let from: usize = if context_prefix_len < history.len() {
        context_prefix_len
    } else {
        history.len()
    };
    let old = vstd::slice::slice_subrange(history.as_slice(), from, history.len());
    let ghost s = messages_view(old@);
    assert(s =~= persisted(messages_view(history@), context_prefix_len as nat));
    let start: usize = if num_retained_turns == 0 {
        old.len()
    } else {
        retained_start_index(old, num_retained_turns as usize)
    };
    if num_retained_turns > 0 && start == 0 {
        return CompactionPlan::Nothing("Nothing to compact: all turns are retained.".to_owned());
    }
    let parts = transcribe(old, start);
    if parts.len() == 0 {
        return CompactionPlan::Nothing("Nothing to compact: the conversation is empty.".to_owned());
    }
    let mut prompt =
        "Summarize the following conversation concisely, preserving key facts, decisions, and context that would be needed to continue the conversation. Do not include meta-commentary — output only the summary.\n\n".to_owned();
    prompt.append(join_texts(&parts, "\n\n").as_str());
    let retained = strip_from(old, start);
    CompactionPlan::Summarize { role, prompt, retained }
}

/// The summary that the summarising role wrote, or what went wrong.
pub open spec fn summary_from(outcome: HeadlessView) -> Result<Seq<char>, Seq<char>> {
    if outcome.is_error {
        Err(
            match outcome.error_message {
                Some(words) => words,
                None => "Compaction failed with an unknown error."@,
            },
        )
    } else if is_blank(outcome.text) {
        Err("Compaction produced an empty summary."@)
    } else {
        Ok(outcome.text)
    }
}

/// A text, or another one instead.
pub open spec fn either_text(r: Result<String, String>) -> Result<Seq<char>, Seq<char>> {
    match r {
        Ok(s) => Ok(s@),
        Err(e) => Err(e@),
    }
}

/// The summary that the summarising role wrote, or what went wrong.
pub fn take_summary(outcome: HeadlessOutcome) -> (r: Result<String, String>)
    ensures
        either_text(r) == summary_from(outcome@),
{
    if outcome.is_error {
        match outcome.error_message {
            Some(words) => Err(words),
            None => Err("Compaction failed with an unknown error.".to_owned()),
        }
    } else if blank(outcome.text.as_str()) {
        Err("Compaction produced an empty summary.".to_owned())
    } else {
        Ok(outcome.text)
    }
}

/// The message that stands for what was summarised.
pub open spec fn summary_message(summary: Seq<char>) -> MessageView {
    text_message(Role::User, "[Compacted] "@ + summary)
}

/// The message that stands for what was summarised.
pub fn compacted_message(summary: &str) -> (r: Message)
    ensures
        r@ == summary_message(summary@),
{
    let mut text = "[Compacted] ".to_owned();
    text.append(summary);
    Message::text(Role::User, text)
}

/// How storing the compacted conversation went.
#[derive(Debug, PartialEq, Eq)]
pub enum StoreOutcome {
    Stored,
    /// The store found that all turns are retained.
    NothingToCompact,
    Failed(String),
}

/// The conversation after its summary was stored: the untouched prefix, the summary, and what
/// was retained.
pub open spec fn compacted_history(
    history: Seq<MessageView>,
    prefix: nat,
    summary: Seq<char>,
    retained: Seq<MessageView>,
) -> Seq<MessageView> {
    history.take(if prefix < history.len() {
        prefix as int
    } else {
        history.len() as int
    }).push(summary_message(summary)) + retained
}

/// Ends a compaction: replaces the conversation where its summary was stored, and says how it
/// went.
pub fn finish_compaction(
    history: &mut Vec<Message>,
    context_prefix_len: usize,
    summary: String,
    retained: Vec<Message>,
    stored: StoreOutcome,
) -> (r: Result<String, String>)
    ensures
        stored is Stored ==> {
            &&& messages_view(final(history)@) == compacted_history(
                messages_view(old(history)@),
                context_prefix_len as nat,
                summary@,
                messages_view(retained@),
            )
            &&& either_text(r) == Ok::<Seq<char>, Seq<char>>(summary@)
        },
        stored is NothingToCompact ==> {
            &&& final(history)@ == old(history)@
            &&& either_text(r) == Ok::<Seq<char>, Seq<char>>(
                "Nothing to compact: all turns are retained."@,
            )
        },
        stored is Failed ==> {
            &&& final(history)@ == old(history)@
            &&& either_text(r) == Err::<Seq<char>, Seq<char>>(
                "Compaction failed: "@ + stored->Failed_0@,
            )
        },
{
    match stored {
        StoreOutcome::Failed(e) => {
            let mut words = "Compaction failed: ".to_owned();
            words.append(e.as_str());
            Err(words)
        },
        StoreOutcome::NothingToCompact => Ok(
            "Nothing to compact: all turns are retained.".to_owned(),
        ),
        StoreOutcome::Stored => {
            let ghost before = messages_view(history@);
            let message = compacted_message(summary.as_str());
            if context_prefix_len < history.len() {
                history.truncate(context_prefix_len);
            }
            let ghost kept = messages_view(history@);
            history.push(message);
            let ghost mid = messages_view(history@);
            let mut retained = retained;
            let ghost tail = messages_view(retained@);
            history.append(&mut retained);
            proof {
                let cut = if context_prefix_len < before.len() {
                    context_prefix_len as int
                } else {
                    before.len() as int
                };
                assert(kept =~= before.take(cut));
                assert(mid =~= kept.push(message@));
                assert(messages_view(history@) =~= mid + tail);
            }
            Ok(summary)
        },
    }
}

/// Compaction leaves the context prefix alone, whatever was summarised.
pub proof fn law_compaction_keeps_prefix(
    history: Seq<MessageView>,
    prefix: nat,
    summary: Seq<char>,
    retained: Seq<MessageView>,
)
    requires
        prefix <= history.len(),
    ensures
        compacted_history(history, prefix, summary, retained).take(prefix as int) == history.take(
            prefix as int,
        ),
        compacted_history(history, prefix, summary, retained).len() == prefix + 1 + retained.len(),
{
    assert(compacted_history(history, prefix, summary, retained).take(prefix as int)
        =~= history.take(prefix as int));
}

} // verus!
