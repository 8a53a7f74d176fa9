//! What an agent is set up with, what it keeps in front of its conversation, and what comes of a run
//! with no human present.
use vstd::prelude::*;

use crate::agent::conversation::{
    file_sections, files_message, skill_lines, skills_message, sorted_by_name, synthetic_call,
    AgentView, ContextFile, SkillView,
};
use crate::agent::effects::{appended, emitted, EffectView};
use crate::agent::registry::{picked, write_names, EntryView};
use crate::agent::spawner::{
    clamped, failed_run, headless_run, sub_agent_tools, SpawnStepView,
};
use crate::agent::truncate::truncated;
use crate::config::ConfirmationMode;
use crate::json::JsonView;
use crate::sequences::{lemma_flat_map_empty, lemma_flat_map_last};
use crate::text::text_le;
use crate::types::{BlockView, EventView, MessageView, Role, ToolDefinitionView};

verus! {

/// Whether an event ends a run with no human present: an error, or a question.
pub open spec fn ends_run(e: EventView) -> bool {
    match e {
        EventView::Error(_) => true,
        EventView::ToolConfirmationRequired { .. } => true,
        _ => false,
    }
}

/// The tokens of all answers together.
pub open spec fn answer_tokens(events: Seq<EventView>) -> nat
    decreases events.len(),
{
    if events.len() == 0 {
        0
    } else {
        answer_tokens(events.drop_last()) + match events.last() {
            EventView::Usage { output_tokens, .. } => output_tokens as nat,
            _ => 0,
        }
    }
}

/// While nothing ends a run, all that the model says is collected in order, the tokens of the
/// requests are the most that was reported, and the tokens of the answers add up, as far as they can
/// be counted.
pub proof fn law_run_is_collected(events: Seq<EventView>)
    requires
        forall|i: int| 0 <= i < events.len() ==> !ends_run(#[trigger] events[i]),
    ensures
        ({
            let r = headless_run(events);
            &&& !r.is_error
            &&& r.error_message is None
            &&& r.text == events.flat_map(
                |e: EventView|
                    match e {
                        EventView::TokenReceived(t) => t,
                        _ => Seq::empty(),
                    },
            )
            &&& forall|i: int|
                0 <= i < events.len() ==> (#[trigger] events[i] matches EventView::Usage {
                    input_tokens,
                    ..
                } ==> input_tokens <= r.input_tokens)
            &&& r.input_tokens == 0 || exists|i: int|
                0 <= i < events.len() && (#[trigger] events[i] matches EventView::Usage {
                    input_tokens,
                    ..
                } && input_tokens == r.input_tokens)
            &&& r.output_tokens == if answer_tokens(events) <= u32::MAX {
                answer_tokens(events)
            } else {
                u32::MAX as nat
            }
        }),
    decreases events.len(),
{
    let f = |e: EventView|
        match e {
            EventView::TokenReceived(t) => t,
            _ => Seq::empty(),
        };
    if events.len() == 0 {
        lemma_flat_map_empty(events, f);
    } else {
        let front = events.drop_last();
        assert forall|i: int| 0 <= i < front.len() implies !ends_run(#[trigger] front[i]) by {
            assert(front[i] == events[i]);
        }
        law_run_is_collected(front);
        lemma_flat_map_last(events, f);
        let n = events.len() - 1;
        assert(events[n] == events.last());
        assert(!ends_run(events[n]));
        let before = headless_run(front);
        let r = headless_run(events);
        assert(r == before.after(events.last()));
        assert(r.text =~= before.text + f(events.last()));
        assert forall|i: int| 0 <= i < events.len() implies (#[trigger] events[i] matches EventView::Usage {
            input_tokens,
            ..
        } ==> input_tokens <= r.input_tokens) by {
            if i < n {
                assert(front[i] == events[i]);
            }
        }
        if before.input_tokens != 0 && r.input_tokens == before.input_tokens {
            let k = choose|i: int|
                0 <= i < front.len() && (#[trigger] front[i] matches EventView::Usage {
                    input_tokens,
                    ..
                } && input_tokens == before.input_tokens);
            assert(events[k] == front[k]);
        }
    }
}

/// A run ends with its first error or question: the words of the error, or whose call nobody can
/// agree to, are its error, and what was collected before stays; what would come after does not
/// count.
pub proof fn law_run_ends(before: Seq<EventView>, end: EventView, rest: Seq<EventView>)
    requires
        forall|i: int| 0 <= i < before.len() ==> !ends_run(#[trigger] before[i]),
        ends_run(end),
    ensures
        ({
            let so_far = headless_run(before);
            let r = headless_run(before.push(end) + rest);
            &&& r.is_error
            &&& r.text == so_far.text
            &&& r.input_tokens == so_far.input_tokens
            &&& r.output_tokens == so_far.output_tokens
            &&& end matches EventView::Error(words) ==> r.error_message == Some(words)
            &&& end matches EventView::ToolConfirmationRequired { name, .. } ==> r.error_message
                == Some(
                "Sub-agent required confirmation for tool '"@ + name
                    + "' but no human is present. Set a less restrictive confirmation mode for the sub-agent."@,
            )
        }),
    decreases rest.len(),
{
    let all = before.push(end) + rest;
    if rest.len() == 0 {
        assert(all =~= before.push(end));
        assert(all.drop_last() =~= before);
        assert(all.last() == end);
        law_run_is_collected(before);
    } else {
        law_run_ends(before, end, rest.drop_last());
        assert(all.drop_last() =~= before.push(end) + rest.drop_last());
    }
}

/// A run that could not be set up has failed with the words for the step and the whole cause, and
/// nothing else came of it.
pub proof fn law_setup_failure_is_told(step: SpawnStepView, cause: Seq<char>)
    ensures
        ({
            let r = failed_run(step.lead() + cause);
            &&& r.is_error
            &&& r.text.len() == 0
            &&& r.input_tokens == 0
            &&& r.output_tokens == 0
            &&& r.error_message == Some(
                match step {
                    SpawnStepView::Session => "Failed to create sub-agent session: "@,
                    SpawnStepView::Registry => "Failed to build sub-agent registry: "@,
                    SpawnStepView::Role(role) => "Failed to resolve role '"@ + role + "': "@,
                    SpawnStepView::Agent => "Failed to spawn sub-agent: "@,
                    SpawnStepView::ContextFiles => "Failed to load context files: "@,
                } + cause,
            )
        }),
{
}

/// A sub-agent that asks for nothing has the mode of its parent. One that asks has what it asks for
/// below a parent that never asks; below one that always asks it always asks; and below one that asks
/// for changes it asks for changes unless it always asks.
pub proof fn law_sub_agent_confirmation(
    parent: ConfirmationMode,
    requested: Option<ConfirmationMode>,
)
    ensures
        clamped(parent, None) == parent,
        requested matches Some(m) ==> clamped(parent, requested) == match parent {
            ConfirmationMode::Never => m,
            ConfirmationMode::Always => ConfirmationMode::Always,
            ConfirmationMode::WriteOnly => if m == ConfirmationMode::Always {
                ConfirmationMode::Always
            } else {
                ConfirmationMode::WriteOnly
            },
        },
{
}


/// A sub-agent has the tools of its parent in their order: in chat mode all that change nothing,
/// else all that are allowed, and all where nothing is said on what is allowed.
pub proof fn law_sub_agent_tools(
    all: Seq<EntryView>,
    chat_mode: bool,
    allowlist: Option<Seq<Seq<char>>>,
)
    ensures
        sub_agent_tools(all, chat_mode, allowlist) == all.flat_map(
            |e: EntryView|
                if chat_mode && e.is_write_tool {
                    Seq::empty()
                } else if !chat_mode && (allowlist matches Some(names) && !(exists|k: int|
                    0 <= k < names.len() && #[trigger] names[k] == e.definition.name)) {
                    Seq::empty()
                } else {
                    seq![e]
                },
        ),
    decreases all.len(),
{
    let f = |e: EntryView|
        if chat_mode && e.is_write_tool {
            Seq::empty()
        } else if !chat_mode && (allowlist matches Some(names) && !(exists|k: int|
            0 <= k < names.len() && #[trigger] names[k] == e.definition.name)) {
            Seq::empty()
        } else {
            seq![e]
        };
    reveal(Seq::filter);
    let tools = sub_agent_tools(all, chat_mode, allowlist);
    if all.len() == 0 {
        lemma_flat_map_empty(all, f);
        assert(tools =~= Seq::empty());
    } else {
        let front = all.drop_last();
        law_sub_agent_tools(front, chat_mode, allowlist);
        lemma_flat_map_last(all, f);
        if let Some(names) = allowlist {
            let name = all.last().definition.name;
            if exists|k: int| 0 <= k < names.len() && #[trigger] names[k] == name {
                assert(names.contains(name));
            }
        }
        assert(tools =~= sub_agent_tools(front, chat_mode, allowlist) + f(all.last()));
    }
}

/// The tools that ask first where changes are asked for are all that change something, by name and in
/// their order.
pub proof fn law_write_tools_are_named(s: Seq<EntryView>)
    ensures
        write_names(s) == s.flat_map(
            |e: EntryView|
                if e.is_write_tool {
                    seq![e.definition.name]
                } else {
                    Seq::empty()
                },
        ),
    decreases s.len(),
{
    let f = |e: EntryView|
        if e.is_write_tool {
            seq![e.definition.name]
        } else {
            Seq::empty()
        };
    reveal(Seq::filter);
    if s.len() == 0 {
        lemma_flat_map_empty(s, f);
        assert(write_names(s) =~= Seq::empty());
    } else {
        law_write_tools_are_named(s.drop_last());
        lemma_flat_map_last(s, f);
        assert(write_names(s) =~= write_names(s.drop_last()) + f(s.last()));
    }
}

/// An agent asks with the model, the limit and the thinking it is set to; in chat mode it offers all
/// its tools that change nothing, and else the tools it is set to offer.
pub proof fn law_agent_asks_as_set(agent: AgentView)
    ensures
        ({
            let r = agent.request();
            &&& r.model == agent.config.model
            &&& r.max_tokens == agent.config.max_tokens
            &&& r.thinking == agent.config.thinking
            &&& !agent.chat_mode ==> r.tools == agent.config.tools
            &&& agent.chat_mode ==> r.tools == agent.tools.flat_map(
                |e: EntryView|
                    if e.is_write_tool {
                        Seq::empty()
                    } else {
                        seq![e.definition]
                    },
            )
        }),
{
    lemma_read_only(agent.tools);
}

proof fn lemma_read_only(s: Seq<EntryView>)
    ensures
        picked(s, |e: EntryView| !e.is_write_tool) == s.flat_map(
            |e: EntryView|
                if e.is_write_tool {
                    Seq::empty()
                } else {
                    seq![e.definition]
                },
        ),
    decreases s.len(),
{
    let pick = |e: EntryView| !e.is_write_tool;
    let f = |e: EntryView|
        if e.is_write_tool {
            Seq::empty()
        } else {
            seq![e.definition]
        };
    reveal(Seq::filter);
    if s.len() == 0 {
        lemma_flat_map_empty(s, f);
        assert(picked(s, pick) =~= Seq::<ToolDefinitionView>::empty());
    } else {
        lemma_read_only(s.drop_last());
        lemma_flat_map_last(s, f);
        assert(picked(s, pick) =~= picked(s.drop_last(), pick) + f(s.last()));
    }
}

/// A turn goes by what the agent is set to.
pub proof fn law_turn_goes_by_settings(agent: AgentView)
    ensures
        ({
            let s = agent.turn_settings();
            &&& s.max_iterations == agent.max_tool_iterations
            &&& s.max_token_retries == agent.max_token_retries
            &&& s.max_tokens == agent.config.max_tokens
            &&& s.confirmation == agent.confirmation_mode
            &&& s.max_context_window_len == agent.max_context_window_len
            &&& s.max_tool_result_bytes == agent.max_tool_result_bytes
            &&& s.write_tools == agent.tools.flat_map(
                |e: EntryView|
                    if e.is_write_tool {
                        seq![e.definition.name]
                    } else {
                        Seq::empty()
                    },
            )
        }),
{
    law_write_tools_are_named(agent.tools);
}

/// One more message of context stands in front of all others, counts as context, and changes nothing
/// else. The context is what stands in front, as many messages as count.
pub proof fn law_context_stands_in_front(agent: AgentView, m: MessageView)
    requires
        agent.wf(),
    ensures
        ({
            let after = agent.with_context_message(m);
            &&& after.wf()
            &&& after.history[0] == m
            &&& after.history.skip(1) == agent.history
            &&& after.context().len() == agent.context().len() + 1
            &&& after.context()[0] == m
            &&& after.context().skip(1) == agent.context()
            &&& after == AgentView { history: after.history, prefix: after.prefix, ..agent }
        }),
        agent.context().len() == agent.prefix,
        agent.context().is_prefix_of(agent.history),
{
    let after = agent.with_context_message(m);
    assert(after.history.skip(1) =~= agent.history);
    assert(after.context().skip(1) =~= agent.context());
}

/// The model is told of each skill on a line of its own, by name and with what it is for, in the
/// given order.
pub proof fn law_skills_are_told(s: Seq<SkillView>)
    ensures
        skills_message(s).role == Role::User,
        skills_message(s).content == seq![
            BlockView::Text(
                "The following skills are available via the `skill` tool:\n\n"@ + s.flat_map(
                    |k: SkillView|
                        "- "@ + k.name + ": "@ + (match k.description {
                            Some(d) => d,
                            None => "(no description)"@,
                        }) + "\n"@,
                ),
            ),
        ],
{
    lemma_skill_lines(s);
}

proof fn lemma_skill_lines(s: Seq<SkillView>)
    ensures
        skill_lines(s) == s.flat_map(
            |k: SkillView|
                "- "@ + k.name + ": "@ + (match k.description {
                    Some(d) => d,
                    None => "(no description)"@,
                }) + "\n"@,
        ),
    decreases s.len(),
{
    let f = |k: SkillView|
        "- "@ + k.name + ": "@ + (match k.description {
            Some(d) => d,
            None => "(no description)"@,
        }) + "\n"@;
    if s.len() == 0 {
        lemma_flat_map_empty(s, f);
    } else {
        lemma_skill_lines(s.drop_last());
        lemma_flat_map_last(s, f);
        assert(skill_lines(s) =~= skill_lines(s.drop_last()) + f(s.last()));
    }
}

/// Two skills that are told one after the other are in the order of their names: where the names
/// differ, the first character that differs decides, and of a name and its beginning the beginning
/// comes first.
pub proof fn law_skills_are_in_order(s: Seq<SkillView>, i: int, j: int, k: int)
    requires
        sorted_by_name(s),
        0 <= i < j < s.len(),
        0 <= k <= s[i].name.len(),
        k <= s[j].name.len(),
        s[i].name.take(k) == s[j].name.take(k),
        k < s[i].name.len() && k < s[j].name.len() ==> s[i].name[k] != s[j].name[k],
    ensures
        k == s[i].name.len() || (k < s[j].name.len() && s[i].name[k] < s[j].name[k]),
{
    lemma_text_order(s[i].name, s[j].name, k);
}

proof fn lemma_text_order(a: Seq<char>, b: Seq<char>, k: int)
    requires
        text_le(a, b),
        0 <= k <= a.len(),
        k <= b.len(),
        a.take(k) == b.take(k),
        k < a.len() && k < b.len() ==> a[k] != b[k],
    ensures
        k == a.len() || (k < b.len() && a[k] < b[k]),
    decreases k,
{
    if k > 0 {
        assert(a.take(k)[0] == a[0] && b.take(k)[0] == b[0]);
        let x = a.drop_first();
        let y = b.drop_first();
        assert(x.take(k - 1) =~= a.take(k).drop_first());
        assert(y.take(k - 1) =~= b.take(k).drop_first());
        lemma_text_order(x, y, k - 1);
    }
}

/// The model is given each loaded file whole, under its path, in the given order.
pub proof fn law_files_are_given(s: Seq<ContextFile>)
    ensures
        files_message(s).role == Role::User,
        files_message(s).content == seq![
            BlockView::Text(
                "The following context files were loaded:\n\n"@ + s.flat_map(
                    |f: ContextFile| "## File: "@ + f.path@ + "\n\n"@ + f.content@ + "\n\n"@,
                ),
            ),
        ],
{
    lemma_file_sections(s);
}

proof fn lemma_file_sections(s: Seq<ContextFile>)
    ensures
        file_sections(s) == s.flat_map(
            |f: ContextFile| "## File: "@ + f.path@ + "\n\n"@ + f.content@ + "\n\n"@,
        ),
    decreases s.len(),
{
    let g = |f: ContextFile| "## File: "@ + f.path@ + "\n\n"@ + f.content@ + "\n\n"@;
    if s.len() == 0 {
        lemma_flat_map_empty(s, g);
    } else {
        lemma_file_sections(s.drop_last());
        lemma_flat_map_last(s, g);
        assert(file_sections(s) =~= file_sections(s.drop_last()) + g(s.last()));
    }
}

/// A command that the user ran is kept as a call of the shell by the model, with the command, and as
/// its result under the same id, with the output as far as it may be kept and whether it failed.
pub proof fn law_command_is_kept(
    id: Seq<char>,
    command: Seq<char>,
    content: Seq<char>,
    is_error: bool,
    max_bytes: u64,
)
    ensures
        ({
            let (call, result) = synthetic_call(id, command, content, is_error, max_bytes);
            &&& call.role == Role::Assistant
            &&& call.content.len() == 1
            &&& call.content[0] matches BlockView::ToolUse { id: i, name, input }
            &&& i == id
            &&& name == "bash"@
            &&& input == JsonView::Object(map!["command"@ => JsonView::Str(command)])
            &&& result.role == Role::User
            &&& result.content == seq![
                BlockView::ToolResult {
                    tool_use_id: id,
                    content: truncated(content, max_bytes as nat),
                    is_error,
                },
            ]
        }),
{
    let (call, result) = synthetic_call(id, command, content, is_error, max_bytes);
    assert(Map::<Seq<char>, JsonView>::empty().insert("command"@, JsonView::Str(command)) =~= map![
        "command"@ => JsonView::Str(command)
    ]);
}

/// The messages that effects add and the events that they report are all of them, in their order.
pub proof fn law_effects_are_told_apart(s: Seq<EffectView>)
    ensures
        appended(s) == s.flat_map(
            |e: EffectView|
                match e {
                    EffectView::Append(m) => seq![m],
                    EffectView::Emit(_) => Seq::empty(),
                },
        ),
        emitted(s) == s.flat_map(
            |e: EffectView|
                match e {
                    EffectView::Append(_) => Seq::empty(),
                    EffectView::Emit(event) => seq![event],
                },
        ),
    decreases s.len(),
{
    let f = |e: EffectView|
        match e {
            EffectView::Append(m) => seq![m],
            EffectView::Emit(_) => Seq::empty(),
        };
    let g = |e: EffectView|
        match e {
            EffectView::Append(_) => Seq::empty(),
            EffectView::Emit(event) => seq![event],
        };
    if s.len() == 0 {
        lemma_flat_map_empty(s, f);
        lemma_flat_map_empty(s, g);
    } else {
        law_effects_are_told_apart(s.drop_last());
        lemma_flat_map_last(s, f);
        lemma_flat_map_last(s, g);
        assert(appended(s) =~= appended(s.drop_last()) + f(s.last()));
        assert(emitted(s) =~= emitted(s.drop_last()) + g(s.last()));
    }
}

} // verus!
