//! What compaction keeps and what it asks for.
use vstd::prelude::*;

use crate::agent::compact::{
    compacted_history, compaction_plan, compaction_role, message_words, persisted, summary_from,
    summary_prompt, transcript, PlanView,
};
use crate::agent::compact_helpers::{
    all_stripped, is_retained_start, last_turns, law_retains_n_turns, retained_start, stripped, turns,
};
use crate::agent::spawner::HeadlessView;
use crate::json::json_text;
use crate::sequences::{lemma_flat_map_empty, lemma_flat_map_last};
use crate::text::{is_white_space, joined};
use crate::text_laws::{is_laid_out, law_joined_is_laid_out};
use crate::types::{BlockView, MessageView, Role};

verus! {

/// What is read out of a block: who speaks, and what is said, thought, called or answered.
pub open spec fn read_out(role: Role, b: BlockView) -> Seq<char> {
    let speaker = if role == Role::User {
        "User: "@
    } else {
        "Assistant: "@
    };
    match b {
        BlockView::Text(text) => speaker + text,
        BlockView::ToolUse { name, input, .. } => speaker + "[Called tool "@ + name
            + " with input "@ + json_text(input) + "]"@,
        BlockView::ToolResult { content, is_error: false, .. } => speaker + "[Tool result: "@
            + content + "]"@,
        BlockView::ToolResult { content, is_error: true, .. } => speaker + "[Tool error: "@
            + content + "]"@,
        BlockView::Thinking { text, .. } => speaker + "[Thinking: "@ + text + "]"@,
        BlockView::RedactedThinking { .. } => speaker + "[Redacted thinking]"@,
    }
}

/// All that is read out of a conversation: each block of each message, in their order.
pub open spec fn all_read_out(s: Seq<MessageView>) -> Seq<Seq<char>> {
    s.flat_map(|m: MessageView| m.content.map_values(|b: BlockView| read_out(m.role, b)))
}

proof fn lemma_read_out(role: Role, b: BlockView)
    ensures
        crate::agent::compact::block_words(role, b) == read_out(role, b),
{
    reveal_strlit("User");
    reveal_strlit("Assistant");
    reveal_strlit(": ");
    reveal_strlit("User: ");
    reveal_strlit("Assistant: ");
    reveal_strlit("[Tool ");
    reveal_strlit("error");
    reveal_strlit("result");
    reveal_strlit("[Tool error: ");
    reveal_strlit("[Tool result: ");
    assert("User"@ + ": "@ =~= "User: "@);
    assert("Assistant"@ + ": "@ =~= "Assistant: "@);
    assert("[Tool "@ + "error"@ + ": "@ =~= "[Tool error: "@);
    assert("[Tool "@ + "result"@ + ": "@ =~= "[Tool result: "@);
    assert(crate::agent::compact::block_words(role, b) =~= read_out(role, b));
}

proof fn lemma_transcript(s: Seq<MessageView>)
    ensures
        transcript(s) == all_read_out(s),
    decreases s.len(),
{
    let f = |m: MessageView| m.content.map_values(|b: BlockView| read_out(m.role, b));
    if s.len() == 0 {
        lemma_flat_map_empty(s, f);
    } else {
        lemma_transcript(s.drop_last());
        lemma_flat_map_last(s, f);
        let m = s.last();
        assert forall|i: int| 0 <= i < m.content.len() implies message_words(m)[i] == f(m)[i] by {
            lemma_read_out(m.role, m.content[i]);
        }
        assert(message_words(m) =~= f(m));
    }
}

/// Whether the prompt is the instruction, followed by all that is read out of the messages, in their
/// order and each whole, with an empty line between neighbours and nothing else.
pub open spec fn asks_for_summary_of(prompt: Seq<char>, s: Seq<MessageView>) -> bool {
    let lead =
        "Summarize the following conversation concisely, preserving key facts, decisions, and context that would be needed to continue the conversation. Do not include meta-commentary — output only the summary.\n\n"@;
    &&& lead.len() <= prompt.len()
    &&& prompt.take(lead.len() as int) == lead
    &&& exists|at: Seq<int>|
        is_laid_out(prompt.skip(lead.len() as int), all_read_out(s), "\n\n"@, at)
}

proof fn lemma_prompt(s: Seq<MessageView>)
    ensures
        asks_for_summary_of(summary_prompt(transcript(s)), s),
{
    let lead =
        "Summarize the following conversation concisely, preserving key facts, decisions, and context that would be needed to continue the conversation. Do not include meta-commentary — output only the summary.\n\n"@;
    lemma_transcript(s);
    let prompt = summary_prompt(transcript(s));
    let at = law_joined_is_laid_out(all_read_out(s), "\n\n"@);
    assert(prompt.take(lead.len() as int) =~= lead);
    assert(prompt.skip(lead.len() as int) =~= joined(all_read_out(s), "\n\n"@));
    assert(is_laid_out(prompt.skip(lead.len() as int), all_read_out(s), "\n\n"@, at));
}

/// The messages that a compaction does not keep: those before the last `n` turns, and all of them
/// where no turn is to be kept.
pub open spec fn not_kept(old: Seq<MessageView>, n: u32) -> Seq<MessageView> {
    if n == 0 {
        old
    } else {
        old.take(retained_start(old, n as nat))
    }
}

/// The model is asked to summarise all that is not kept, and nothing else.
pub proof fn law_prompt_holds_the_conversation(role: Seq<char>, old: Seq<MessageView>, n: u32)
    ensures
        compaction_plan(role, old, n) matches PlanView::Summarize { prompt, .. }
            ==> asks_for_summary_of(prompt, not_kept(old, n)),
{
    assert(old.take(old.len() as int) =~= old);
    lemma_prompt(not_kept(old, n));
}

/// Each block of each message that is not kept is read out somewhere in the prompt.
pub proof fn law_no_block_is_left_out(
    role: Seq<char>,
    old: Seq<MessageView>,
    n: u32,
    m: int,
    b: int,
)
    requires
        compaction_plan(role, old, n) is Summarize,
        0 <= m < not_kept(old, n).len(),
        0 <= b < not_kept(old, n)[m].content.len(),
    ensures
        ({
            let prompt = compaction_plan(role, old, n)->prompt;
            let said = not_kept(old, n)[m];
            let words = read_out(said.role, said.content[b]);
            exists|i: int|
                0 <= i <= prompt.len() - words.len() && #[trigger] prompt.subrange(
                    i,
                    i + words.len(),
                ) == words
        }),
{
    law_prompt_holds_the_conversation(role, old, n);
    let prompt = compaction_plan(role, old, n)->prompt;
    let lead =
        "Summarize the following conversation concisely, preserving key facts, decisions, and context that would be needed to continue the conversation. Do not include meta-commentary — output only the summary.\n\n"@;
    let s = not_kept(old, n);
    let words = all_read_out(s);
    let rest = prompt.skip(lead.len() as int);
    let at = choose|at: Seq<int>| is_laid_out(rest, words, "\n\n"@, at);
    let k = lemma_place(s, m, b);
    let w = read_out(s[m].role, s[m].content[b]);
    assert(0 <= at[k] <= rest.len() - words[k].len());
    let i = at[k] + lead.len();
    assert(prompt.subrange(i, i + w.len()) =~= rest.subrange(at[k], at[k] + w.len()));
}

proof fn lemma_place(s: Seq<MessageView>, m: int, b: int) -> (k: int)
    requires
        0 <= m < s.len(),
        0 <= b < s[m].content.len(),
    ensures
        0 <= k < all_read_out(s).len(),
        all_read_out(s)[k] == read_out(s[m].role, s[m].content[b]),
    decreases s.len(),
{
    let f = |m: MessageView| m.content.map_values(|b: BlockView| read_out(m.role, b));
    lemma_flat_map_last(s, f);
    let front = s.drop_last();
    if m < front.len() {
        assert(front[m] == s[m]);
        lemma_place(front, m, b)
    } else {
        all_read_out(front).len() + b
    }
}

/// A message with nothing but its texts; it is nowhere where it has none.
pub open spec fn texts_only(m: MessageView) -> Seq<MessageView> {
    let content = m.content.flat_map(
        |b: BlockView|
            if b is Text {
                seq![b]
            } else {
                Seq::empty()
            },
    );
    if content.len() == 0 {
        Seq::empty()
    } else {
        seq![MessageView { role: m.role, content }]
    }
}

proof fn lemma_filter_texts(s: Seq<BlockView>)
    ensures
        s.filter(|b: BlockView| b is Text) == s.flat_map(
            |b: BlockView|
                if b is Text {
                    seq![b]
                } else {
                    Seq::empty()
                },
        ),
    decreases s.len(),
{
    let p = |b: BlockView| b is Text;
    let f = |b: BlockView|
        if b is Text {
            seq![b]
        } else {
            Seq::empty()
        };
    reveal(Seq::filter);
    if s.len() == 0 {
        lemma_flat_map_empty(s, f);
        assert(s.filter(p) =~= Seq::empty());
    } else {
        lemma_filter_texts(s.drop_last());
        lemma_flat_map_last(s, f);
        assert(s.filter(p) =~= s.drop_last().filter(p) + f(s.last()));
    }
}

/// What is kept of messages is their speakers and all their texts, in their order; messages without
/// a text are left out.
pub proof fn law_texts_are_kept(s: Seq<MessageView>)
    ensures
        all_stripped(s) == s.flat_map(|m: MessageView| texts_only(m)),
        s.len() == 1 ==> match stripped(s[0]) {
            Some(m) => texts_only(s[0]) == seq![m],
            None => texts_only(s[0]).len() == 0,
        },
    decreases s.len(),
{
    let f = |m: MessageView| texts_only(m);
    if s.len() == 0 {
        lemma_flat_map_empty(s, f);
    } else {
        law_texts_are_kept(s.drop_last());
        lemma_flat_map_last(s, f);
        lemma_filter_texts(s.last().content);
        assert(all_stripped(s) =~= all_stripped(s.drop_last()) + f(s.last()));
    }
}

/// A compaction asks the given role, and keeps the texts of the messages that are not summarised.
/// There is nothing to do where there are no more turns than are kept, or where nothing is said in
/// the rest; else there is something to do.
pub proof fn law_plan(role: Seq<char>, old: Seq<MessageView>, n: u32)
    ensures
        match compaction_plan(role, old, n) {
            PlanView::Summarize { role: asked, retained, .. } => {
                &&& asked == role
                &&& n > 0 ==> turns(old) > n
                &&& exists|i: int|
                    0 <= i < not_kept(old, n).len() && (#[trigger] not_kept(
                        old,
                        n,
                    )[i]).content.len() > 0
                &&& retained == old.skip(not_kept(old, n).len() as int).flat_map(
                    |m: MessageView| texts_only(m),
                )
            },
            PlanView::Nothing(words) => {
                ||| n > 0 && turns(old) <= n && words
                    == "Nothing to compact: all turns are retained."@
                ||| (n > 0 ==> turns(old) > n) && words
                    == "Nothing to compact: the conversation is empty."@ && (forall|i: int|
                    0 <= i < not_kept(old, n).len() ==> (#[trigger] not_kept(
                        old,
                        n,
                    )[i]).content.len() == 0)
            },
        },
{
    let start = if n == 0 {
        old.len() as int
    } else {
        lemma_retained_start(old, n as nat);
        retained_start(old, n as nat)
    };
    let s = not_kept(old, n);
    assert(old.take(start) =~= s);
    let rest = old.skip(start);
    law_texts_are_kept(rest);
    if n == 0 {
        assert(rest =~= Seq::empty());
    }
    lemma_transcript(s);
    if n > 0 && start > 0 {
        lemma_turns_before(old, start);
    }
    if all_read_out(s).len() == 0 {
        assert forall|i: int| 0 <= i < s.len() implies (#[trigger] s[i]).content.len() == 0 by {
            if s[i].content.len() > 0 {
                let k = lemma_place(s, i, 0);
            }
        }
    } else {
        lemma_someone_spoke(s);
    }
}

proof fn lemma_someone_spoke(s: Seq<MessageView>)
    requires
        all_read_out(s).len() > 0,
    ensures
        exists|i: int| 0 <= i < s.len() && (#[trigger] s[i]).content.len() > 0,
    decreases s.len(),
{
    let f = |m: MessageView| m.content.map_values(|b: BlockView| read_out(m.role, b));
    if s.len() == 0 {
        lemma_flat_map_empty(s, f);
    } else {
        lemma_flat_map_last(s, f);
        let front = s.drop_last();
        if s.last().content.len() > 0 {
            assert(s[s.len() - 1].content.len() > 0);
        } else {
            lemma_someone_spoke(front);
            let i = choose|i: int| 0 <= i < front.len() && (#[trigger] front[i]).content.len() > 0;
            assert(s[i].content.len() > 0);
        }
    }
}

/// A turn begins with each message of the user, and with the first message whoever speaks.
pub proof fn law_turns_are_counted(s: Seq<MessageView>)
    ensures
        turns(s) == s.filter(|m: MessageView| m.role == Role::User).len() + if s.len() > 0
            && s[0].role != Role::User {
            1nat
        } else {
            0nat
        },
    decreases s.len(),
{
    let p = |m: MessageView| m.role == Role::User;
    reveal(Seq::filter);
    if s.len() > 0 {
        law_turns_are_counted(s.drop_last());
        if s.len() > 1 {
            assert(s.drop_last()[0] == s[0]);
        } else {
            assert(s.drop_last().filter(p).len() == 0);
        }
    }
}

proof fn lemma_turns_before(s: Seq<MessageView>, i: int)
    requires
        0 < i <= s.len(),
    ensures
        turns(s.take(i)) > 0,
    decreases i,
{
    let t = s.take(i);
    if i > 1 {
        lemma_turns_before(s, i - 1);
        assert(t.drop_last() =~= s.take(i - 1));
    }
}

/// A turn begins somewhere that has any given number of turns before it, fewer than there are.
proof fn lemma_turn_at(s: Seq<MessageView>, before: nat) -> (start: int)
    requires
        before < turns(s),
    ensures
        0 <= start < s.len(),
        start == 0 || s[start].role == Role::User,
        turns(s.take(start)) == before,
    decreases s.len(),
{
    let front = s.drop_last();
    if before < turns(front) {
        let start = lemma_turn_at(front, before);
        assert(front.take(start) =~= s.take(start));
        assert(front[start] == s[start]);
        start
    } else {
        assert(s.take(s.len() - 1) =~= front);
        s.len() - 1
    }
}

proof fn lemma_some_turn(s: Seq<MessageView>)
    requires
        s.len() > 0,
    ensures
        turns(s) > 0,
{
    assert(s.take(s.len() as int) =~= s);
    lemma_turns_before(s, s.len() as int);
}

proof fn lemma_retained_start(s: Seq<MessageView>, n: nat)
    ensures
        is_retained_start(s, n, retained_start(s, n)),
{
    if n == 0 || s.len() == 0 {
        assert(is_retained_start(s, n, 0));
    } else {
        lemma_some_turn(s);
        let before = if turns(s) > n {
            (turns(s) - n) as nat
        } else {
            0
        };
        let start = lemma_turn_at(s, before);
        assert(is_retained_start(s, n, start));
    }
}

/// The last turns begin with a message of the user, with as many messages of the user from there on
/// as turns are kept, unless all of the conversation is kept.
pub proof fn law_last_turns_begin(s: Seq<MessageView>, n: nat)
    requires
        n > 0,
        s.len() > 0,
    ensures
        ({
            let start = retained_start(s, n);
            let user = |m: MessageView| m.role == Role::User;
            &&& 0 <= start < s.len()
            &&& start == 0 ==> turns(s) <= n
            &&& start > 0 ==> s[start].role == Role::User && s.skip(start).filter(user).len() == n
        }),
{
    let start = retained_start(s, n);
    lemma_retained_start(s, n);
    law_retains_n_turns(s, n, start);
    law_turns_are_counted(s.skip(start));
    if start > 0 {
        lemma_turns_before(s, start);
    } else {
        assert(s.take(0) =~= Seq::empty());
    }
}

/// The role that summarises is the configured one where there is such a role, and else the default.
pub proof fn law_summarising_role(role: Seq<char>, roles: Seq<Seq<char>>)
    ensures
        (exists|i: int| 0 <= i < roles.len() && #[trigger] roles[i] == role) ==> compaction_role(
            role,
            roles,
        ) == role,
        (forall|i: int| 0 <= i < roles.len() ==> #[trigger] roles[i] != role) ==> compaction_role(
            role,
            roles,
        ) == "default"@,
{
    if exists|i: int| 0 <= i < roles.len() && #[trigger] roles[i] == role {
        assert(roles.contains(role));
    }
}

/// A compacted conversation is the context as it was, one message of the user with the whole
/// summary, and what was kept. What is summarised is all that is behind the context.
pub proof fn law_compacted_conversation(
    history: Seq<MessageView>,
    prefix: nat,
    summary: Seq<char>,
    retained: Seq<MessageView>,
)
    requires
        prefix <= history.len(),
    ensures
        ({
            let after = compacted_history(history, prefix, summary, retained);
            &&& after.len() == prefix + 1 + retained.len()
            &&& after.take(prefix as int) == history.take(prefix as int)
            &&& after[prefix as int].role == Role::User
            &&& after[prefix as int].content == seq![BlockView::Text("[Compacted] "@ + summary)]
            &&& after.skip(prefix as int + 1) == retained
        }),
        history.take(prefix as int) + persisted(history, prefix) == history,
{
    let after = compacted_history(history, prefix, summary, retained);
    assert(after.take(prefix as int) =~= history.take(prefix as int));
    assert(after.skip(prefix as int + 1) =~= retained);
    assert(history.take(prefix as int) + persisted(history, prefix) =~= history);
}

/// The summary is all that the summarising role said, unless it failed or said nothing.
pub proof fn law_summary_is_what_was_said(outcome: HeadlessView)
    ensures
        match summary_from(outcome) {
            Ok(s) => !outcome.is_error && s == outcome.text && exists|i: int|
                0 <= i < s.len() && !is_white_space(#[trigger] s[i]),
            Err(words) => {
                ||| outcome.is_error && outcome.error_message == Some(words)
                ||| outcome.is_error && outcome.error_message is None && words
                    == "Compaction failed with an unknown error."@
                ||| !outcome.is_error && words == "Compaction produced an empty summary."@ && (
                forall|i: int|
                    0 <= i < outcome.text.len() ==> is_white_space(#[trigger] outcome.text[i]))
            },
        },
{
}

/// The last turns that are handed out are the texts of the messages from the beginning of those
/// turns on; no turns have no messages.
pub proof fn law_last_turns(s: Seq<MessageView>, n: nat)
    ensures
        last_turns(s, 0).len() == 0,
        n > 0 ==> last_turns(s, n) == s.skip(retained_start(s, n)).flat_map(
            |m: MessageView| texts_only(m),
        ),
{
    if n > 0 {
        law_texts_are_kept(s.skip(retained_start(s, n)));
    }
}

} // verus!
