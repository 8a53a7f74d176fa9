//! The agent itself: its conversation and its settings.
use vstd::prelude::*;

use crate::agent::calls::{SettingsView, TurnSettings};
use crate::agent::compact::{
    compact_with, compacted_history, compaction_plan, compaction_role, either_text,
    finish_compaction, law_compaction_keeps_prefix, persisted, CompactionPlan, CompactionSpawner,
    StoreOutcome,
};
use crate::agent::effects::{appended, effects_view, Effect};
use crate::agent::registry::{picked, write_names, EntryView, ToolRegistry};
use crate::agent::truncate::{truncate_tool_result, truncated};
use crate::agent::turn::{new_turn, turn_step, Turn, TurnInput, TurnView};
use crate::config::{CompactionConfig, ConfirmationMode, RetryConfig, ToolsConfig};
use crate::json::{empty_object, with_field, Json, JsonView};
use crate::text::{in_order, lemma_text_le_total, lemma_text_le_transitive, opt_text, text_le, texts};
use crate::types::{
    duplicate_messages, duplicate_tools, messages_view, text_message, BlockView, ContentBlock,
    Message, MessageView, RequestConfig, RequestView, Role, ThinkingConfig,
};

verus! {

/// A file that was loaded as context.
#[derive(Debug, PartialEq, Eq)]
pub struct ContextFile {
    pub path: String,
    pub content: String,
}

/// A skill: its name and what it is for, where that is known.
#[derive(Debug, PartialEq, Eq)]
pub struct Skill {
    pub name: String,
    pub description: Option<String>,
}

/// What a [`Skill`] says.
#[verifier::ext_equal]
pub struct SkillView {
    pub name: Seq<char>,
    pub description: Option<Seq<char>>,
}

impl Skill {
    pub open spec fn view(self) -> SkillView {
        SkillView { name: self.name@, description: opt_text(self.description) }
    }
}

/// What each of several skills says.
pub open spec fn skills_view(s: Seq<Skill>) -> Seq<SkillView> {
    s.map_values(|k: Skill| k@)
}

/// Whether the skills are in the order of their names.
pub open spec fn sorted_by_name(s: Seq<SkillView>) -> bool {
    forall|i: int, j: int|
        0 <= i <= j < s.len() ==> text_le((#[trigger] s[i]).name, (#[trigger] s[j]).name)
}

/// One line for each skill.
pub open spec fn skill_lines(s: Seq<SkillView>) -> Seq<char>
    decreases s.len(),
{
    if s.len() == 0 {
        Seq::empty()
    } else {
        skill_lines(s.drop_last()) + "- "@ + s.last().name + ": "@ + (match s.last().description {
            Some(d) => d,
            None => "(no description)"@,
        }) + "\n"@
    }
}

/// The message that tells of the skills, given in order.
pub open spec fn skills_message(sorted: Seq<SkillView>) -> MessageView {
    text_message(
        Role::User,
        "The following skills are available via the `skill` tool:\n\n"@ + skill_lines(sorted),
    )
}

/// The loaded files, one after another.
pub open spec fn file_sections(s: Seq<ContextFile>) -> Seq<char>
    decreases s.len(),
{
    if s.len() == 0 {
        Seq::empty()
    } else {
        file_sections(s.drop_last()) + "## File: "@ + s.last().path@ + "\n\n"@ + s.last().content@
            + "\n\n"@
    }
}

/// The message that holds the loaded files.
pub open spec fn files_message(s: Seq<ContextFile>) -> MessageView {
    text_message(
        Role::User,
        "The following context files were loaded:\n\n"@ + file_sections(s),
    )
}

/// An agent.
#[derive(Debug, PartialEq)]
pub struct Agent {
    pub history: Vec<Message>,
    /// How many messages at the front of the conversation are never stored with a session and
    /// stay when the session changes.
    pub context_prefix_len: usize,
    pub config: RequestConfig,
    pub tools: ToolRegistry,
    pub max_tool_iterations: u32,
    pub max_token_retries: u32,
    pub confirmation_mode: ConfirmationMode,
    pub compaction_spawner: Option<CompactionSpawner>,
    pub num_retained_turns: u32,
    /// The number of tokens beyond which the conversation is compacted; 0 means never.
    pub max_context_window_len: u32,
    /// Whether the conversation was compacted automatically last time.
    pub last_auto_compacted: bool,
    pub max_tool_result_bytes: u64,
    pub chat_mode: bool,
}

/// What an [`Agent`] knows.
#[verifier::ext_equal]
pub struct AgentView {
    pub history: Seq<MessageView>,
    pub prefix: nat,
    pub config: RequestView,
    pub tools: Seq<EntryView>,
    pub max_tool_iterations: u32,
    pub max_token_retries: u32,
    pub confirmation_mode: ConfirmationMode,
    pub compaction: Option<(Seq<char>, Seq<Seq<char>>)>,
    pub num_retained_turns: u32,
    pub max_context_window_len: u32,
    pub last_auto_compacted: bool,
    pub max_tool_result_bytes: u64,
    pub chat_mode: bool,
}

impl AgentView {
    /// What holds of every agent.
    pub open spec fn wf(self) -> bool {
        self.prefix <= self.history.len()
    }

    /// The messages that stay when the session changes.
    pub open spec fn context(self) -> Seq<MessageView> {
        self.history.take(self.prefix as int)
    }

    /// The agent with one more message in front.
    pub open spec fn with_context_message(self, m: MessageView) -> AgentView {
        AgentView {
            history: seq![m] + self.history,
            prefix: self.prefix + 1,
            ..self
        }
    }

    /// What a turn of the agent goes by.
    pub open spec fn turn_settings(self) -> SettingsView {
        SettingsView {
            max_iterations: self.max_tool_iterations,
            max_token_retries: self.max_token_retries,
            max_tokens: self.config.max_tokens,
            confirmation: self.confirmation_mode,
            max_context_window_len: self.max_context_window_len,
            max_tool_result_bytes: self.max_tool_result_bytes,
            write_tools: write_names(self.tools),
        }
    }

    /// How the agent asks its backend: in chat mode only tools that change nothing are offered.
    pub open spec fn request(self) -> RequestView {
        if self.chat_mode {
            RequestView {
                tools: picked(self.tools, |e: EntryView| !e.is_write_tool),
                ..self.config
            }
        } else {
            self.config
        }
    }
}

/// A call of the shell that the user made, as if the model had made it, and its result.
pub open spec fn synthetic_call(
    id: Seq<char>,
    command: Seq<char>,
    content: Seq<char>,
    is_error: bool,
    max_bytes: u64,
) -> (MessageView, MessageView) {
    (
        MessageView {
            role: Role::Assistant,
            content: seq![
                BlockView::ToolUse {
                    id,
                    name: "bash"@,
                    input: with_field(empty_object(), "command"@, JsonView::Str(command)),
                },
            ],
        },
        MessageView {
            role: Role::User,
            content: seq![
                BlockView::ToolResult {
                    tool_use_id: id,
                    content: truncated(content, max_bytes as nat),
                    is_error,
                },
            ],
        },
    )
}

/// A turn that is about to begin.
#[derive(Debug, PartialEq)]
pub struct TurnStart {
    pub turn: Turn,
    /// The user's message, to be stored with the session.
    pub message: Message,
    /// How the backend is to be asked.
    pub request: RequestConfig,
}

/// Puts skills in the order of their names.
fn sort_skills(skills: Vec<Skill>) -> (r: Vec<Skill>)
    ensures
        sorted_by_name(skills_view(r@)),
        skills_view(r@).to_multiset() == skills_view(skills@).to_multiset(),
{
    let ghost all = skills_view(skills@);
    let mut out: Vec<Skill> = Vec::new();
    assert(skills_view(out@) =~= all.take(0));
    for skill in it: skills
        invariant
            it.seq() == skills@,
            all == skills_view(skills@),
            sorted_by_name(skills_view(out@)),
            skills_view(out@).to_multiset() == all.take(it.index() as int).to_multiset(),
    {
        let ghost i = it.index() as int;
        let ghost before = skills_view(out@);
        let mut k: usize = out.len();
        while k > 0 && !in_order(out[k - 1].name.as_str(), skill.name.as_str())
            invariant
                k <= out.len(),
                sorted_by_name(skills_view(out@)),
                forall|j: int|
                    k <= j < out.len() ==> !text_le(
                        (#[trigger] out@[j]).name@,
                        skill.name@,
                    ),
            decreases k,
        {
            k -= 1;
        }
        proof {
            assert(all.take(i + 1) =~= all.take(i).push(skill@));
            all.take(i).to_multiset_ensures();
            before.to_multiset_ensures();
            assert(before.insert(k as int, skill@).to_multiset() =~= before.to_multiset().insert(
                skill@,
            )) by {
                let a = before.take(k as int);
                let b = before.skip(k as int);
                assert(before =~= a + b);
                assert(before.insert(k as int, skill@) =~= a.push(skill@) + b);
                vstd::seq_lib::lemma_multiset_commutative(a, b);
                vstd::seq_lib::lemma_multiset_commutative(a.push(skill@), b);
                a.to_multiset_ensures();
            }
            assert forall|x: int, y: int|
                0 <= x <= y < before.insert(k as int, skill@).len() implies text_le(
                (#[trigger] before.insert(k as int, skill@)[x]).name,
                (#[trigger] before.insert(k as int, skill@)[y]).name,
            ) by {
                let s = before.insert(k as int, skill@);
                lemma_text_le_total(skill.name@, skill.name@);
                if y == k && x < k {
                    assert(text_le(before[x].name, before[k - 1].name));
                    lemma_text_le_transitive(before[x].name, before[k - 1].name, skill.name@);
                } else if x == k && y > k {
                    assert(before[y - 1] == out@[y - 1]@);
                    assert(!text_le(out@[y - 1].name@, skill.name@));
                    lemma_text_le_total(skill.name@, before[y - 1].name);
                } else if x < k && y > k {
                    assert(text_le(before[x].name, before[y - 1].name));
                } else if x > k && y > k {
                    assert(text_le(before[x - 1].name, before[y - 1].name));
                } else if x < k && y < k {
                    assert(text_le(before[x].name, before[y].name));
                }
            }
        }
        out.insert(k, skill);
        assert(skills_view(out@) =~= before.insert(k as int, skill@));
    }
    assert(all.take(all.len() as int) =~= all);
    out
}

impl Agent {
    pub open spec fn view(self) -> AgentView {
        AgentView {
            history: messages_view(self.history@),
            prefix: self.context_prefix_len as nat,
            config: self.config@,
            tools: self.tools@,
            max_tool_iterations: self.max_tool_iterations,
            max_token_retries: self.max_token_retries,
            confirmation_mode: self.confirmation_mode,
            compaction: match self.compaction_spawner {
                Some(s) => Some((s.role@, texts(s.roles@))),
                None => None,
            },
            num_retained_turns: self.num_retained_turns,
            max_context_window_len: self.max_context_window_len,
            last_auto_compacted: self.last_auto_compacted,
            max_tool_result_bytes: self.max_tool_result_bytes,
            chat_mode: self.chat_mode,
        }
    }

    /// An agent that continues the given conversation, with no tools and the usual limits.
    pub fn new(config: RequestConfig, history: Vec<Message>) -> (r: Agent)
        ensures
            r@ == (AgentView {
                history: messages_view(history@),
                prefix: 0,
                config: config@,
                tools: Seq::empty(),
                max_tool_iterations: 25,
                max_token_retries: 3,
                confirmation_mode: ConfirmationMode::WriteOnly,
                compaction: None,
                num_retained_turns: 0,
                max_context_window_len: 0,
                last_auto_compacted: false,
                max_tool_result_bytes: 65_536,
                chat_mode: false,
            }),
            r@.wf(),
    {
        Agent {
            history,
            context_prefix_len: 0,
            config,
            tools: ToolRegistry::new(),
            max_tool_iterations: 25,
            max_token_retries: 3,
            confirmation_mode: ConfirmationMode::WriteOnly,
            compaction_spawner: None,
            num_retained_turns: 0,
            max_context_window_len: 0,
            last_auto_compacted: false,
            max_tool_result_bytes: 65_536,
            chat_mode: false,
        }
    }

    /// Gives the agent its tools.
    pub fn with_tools(self, tools: ToolRegistry) -> (r: Agent)
        ensures
            r@ == (AgentView { tools: tools@, ..self@ }),
    {
        let mut agent = self;
        agent.tools = tools;
        agent
    }

    /// Sets how tools are run.
    pub fn with_tool_config(self, tool_config: &ToolsConfig) -> (r: Agent)
        ensures
            r@ == (AgentView {
                max_tool_iterations: tool_config.max_tool_iterations,
                confirmation_mode: tool_config.confirmation,
                max_tool_result_bytes: tool_config.max_tool_result_bytes,
                ..self@
            }),
    {
        let mut agent = self;
        agent.max_tool_iterations = tool_config.max_tool_iterations;
        agent.confirmation_mode = tool_config.confirmation;
        agent.max_tool_result_bytes = tool_config.max_tool_result_bytes;
        agent
    }

    /// Sets when and how the conversation is compacted.
    pub fn with_compaction_config(self, config: &CompactionConfig) -> (r: Agent)
        ensures
            r@ == (AgentView {
                max_context_window_len: config.max_context_window_len,
                num_retained_turns: config.num_retained_turns,
                ..self@
            }),
    {
        let mut agent = self;
        agent.max_context_window_len = config.max_context_window_len;
        agent.num_retained_turns = config.num_retained_turns;
        agent
    }

    /// Sets how often the model is asked again after it ran into its token limit.
    pub fn with_retry_config(self, config: &RetryConfig) -> (r: Agent)
        ensures
            r@ == (AgentView { max_token_retries: config.max_token_retries, ..self@ }),
    {
        let mut agent = self;
        agent.max_token_retries = config.max_token_retries;
        agent
    }

    /// Sets whether and how the model thinks.
    pub fn with_thinking(self, thinking: Option<ThinkingConfig>) -> (r: Agent)
        ensures
            r@ == (AgentView { config: RequestView { thinking, ..self@.config }, ..self@ }),
    {
        let mut agent = self;
        agent.config.thinking = thinking;
        agent
    }

    /// Makes compaction possible.
    pub fn with_compaction_spawner(self, spawner: CompactionSpawner) -> (r: Agent)
        ensures
            r@ == (AgentView {
                compaction: Some((spawner.role@, texts(spawner.roles@))),
                ..self@
            }),
    {
        let mut agent = self;
        agent.compaction_spawner = Some(spawner);
        agent
    }

    /// Sets whether the agent is in chat mode.
    pub fn with_chat_mode(self, chat_mode: bool) -> (r: Agent)
        ensures
            r@ == (AgentView { chat_mode, ..self@ }),
    {
        let mut agent = self;
        agent.chat_mode = chat_mode;
        agent
    }

    fn add_context_message(&mut self, message: Message)
        requires
            old(self)@.wf(),
        ensures
            final(self)@ == old(self)@.with_context_message(message@),
            final(self)@.wf(),
    {
        let ghost before = self@;
        self.history.insert(0, message);
        let n: usize = self.history.len();
        assert(messages_view(self.history@) =~= seq![message@] + before.history);
        assert(self.context_prefix_len < n);
        self.context_prefix_len = self.context_prefix_len + 1;
        assert(self@ =~= before.with_context_message(message@));
    }

    /// Tells the model which skills there are, in the order of their names.
    pub fn with_skills(self, skills: Vec<Skill>) -> (r: Agent)
        requires
            self@.wf(),
        ensures
            skills@.len() == 0 ==> r@ == self@,
            skills@.len() > 0 ==> (exists|sorted: Seq<SkillView>| #[trigger]
                sorted_by_name(sorted) && sorted.to_multiset() == skills_view(skills@).to_multiset()
                    && r@ == self@.with_context_message(skills_message(sorted))),
            r@.wf(),
    {
        if skills.len() == 0 {
            return self;
        }
        let sorted = sort_skills(skills);
        let ghost s = skills_view(sorted@);
        let mut content =
            "The following skills are available via the `skill` tool:\n\n".to_owned();
        let ghost lead = content@;
        let mut i: usize = 0;
        assert(content@ =~= lead + skill_lines(s.take(0)));
        while i < sorted.len()
            invariant
                i <= sorted.len(),
                s == skills_view(sorted@),
                content@ == lead + skill_lines(s.take(i as int)),
            decreases sorted.len() - i,
        {
            let ghost k = s[i as int];
            proof {
                assert(k == sorted@[i as int]@);
                assert(s.take(i + 1).drop_last() =~= s.take(i as int));
                assert(s.take(i + 1).last() == k);
            }
            content.append("- ");
            content.append(sorted[i].name.as_str());
            content.append(": ");
            match &sorted[i].description {
                Some(d) => {
                    content.append(d.as_str());
                },
                None => {
                    content.append("(no description)");
                },
            }
            content.append("\n");
            assert(content@ =~= lead + skill_lines(s.take(i + 1)));
            i += 1;
        }
        assert(s.take(i as int) =~= s);
        let mut agent = self;
        agent.add_context_message(Message::text(Role::User, content));
        assert(sorted_by_name(s));
        agent
    }

    /// Puts loaded files in front of the conversation; they are not stored with the session.
    pub fn load_context_files(&mut self, files: &Vec<ContextFile>)
        requires
            old(self)@.wf(),
        ensures
            final(self)@ == if files@.len() == 0 {
                old(self)@
            } else {
                old(self)@.with_context_message(files_message(files@))
            },
            final(self)@.wf(),
    {
        if files.len() == 0 {
            return;
        }
        let mut content = "The following context files were loaded:\n\n".to_owned();
        let ghost lead = content@;
        let mut i: usize = 0;
        assert(content@ =~= lead + file_sections(files@.take(0)));
        while i < files.len()
            invariant
                i <= files.len(),
                content@ == lead + file_sections(files@.take(i as int)),
            decreases files.len() - i,
        {
            proof {
                assert(files@.take(i + 1).drop_last() =~= files@.take(i as int));
                assert(files@.take(i + 1).last() == files@[i as int]);
            }
            content.append("## File: ");
            content.append(files[i].path.as_str());
            content.append("\n\n");
            content.append(files[i].content.as_str());
            content.append("\n\n");
            assert(content@ =~= lead + file_sections(files@.take(i + 1)));
            i += 1;
        }
        assert(files@.take(i as int) =~= files@);
        self.add_context_message(Message::text(Role::User, content));
    }

    /// The model that is asked.
    pub fn model(&self) -> (r: String)
        ensures
            r@ == self@.config.model,
    {
        self.config.model.clone()
    }

    /// How many tokens an answer may have.
    pub fn max_tokens(&self) -> (r: u32)
        ensures
            r == self@.config.max_tokens,
    {
        self.config.max_tokens
    }

    /// Changes the model that is asked.
    pub fn set_model(&mut self, model: String)
        ensures
            final(self)@ == (AgentView {
                config: RequestView { model: model@, ..old(self)@.config },
                ..old(self)@
            }),
    {
        self.config.model = model;
    }

    /// Changes the model that is asked and how many tokens its answer may have, together with
    /// the backend.
    pub fn set_backend(&mut self, model: String, max_tokens: u32)
        ensures
            final(self)@ == (AgentView {
                config: RequestView { model: model@, max_tokens, ..old(self)@.config },
                ..old(self)@
            }),
    {
        self.config.model = model;
        self.config.max_tokens = max_tokens;
    }

    /// Turns chat mode on or off.
    pub fn set_chat_mode(&mut self, on: bool)
        ensures
            final(self)@ == (AgentView { chat_mode: on, ..old(self)@ }),
    {
        self.chat_mode = on;
    }

    /// The tools.
    pub fn tools(&self) -> (r: &ToolRegistry)
        ensures
            r@ == self@.tools,
    {
        &self.tools
    }

    /// Whether the agent is in chat mode.
    pub fn is_chat_mode(&self) -> (r: bool)
        ensures
            r == self@.chat_mode,
    {
        self.chat_mode
    }

    /// The conversation.
    pub fn history(&self) -> (r: Vec<Message>)
        ensures
            messages_view(r@) == self@.history,
    {
        duplicate_messages(self.history.as_slice())
    }

    /// Lets compaction be asked for again although it was just asked for.
    pub fn reset_auto_compact_flag(&mut self)
        ensures
            final(self)@ == (AgentView { last_auto_compacted: false, ..old(self)@ }),
    {
        self.last_auto_compacted = false;
    }

    /// Continues with the conversation of another session, behind the same context.
    pub fn load_session(&mut self, new_history: Vec<Message>)
        requires
            old(self)@.wf(),
        ensures
            final(self)@ == (AgentView {
                history: old(self)@.context() + messages_view(new_history@),
                last_auto_compacted: false,
                ..old(self)@
            }),
            final(self)@.context() == old(self)@.context(),
            final(self)@.wf(),
    {
        let ghost before = self@;
        let mut new_history = new_history;
        let ghost tail = messages_view(new_history@);
        self.history.truncate(self.context_prefix_len);
        assert(messages_view(self.history@) =~= before.context());
        self.history.append(&mut new_history);
        self.last_auto_compacted = false;
        assert(messages_view(self.history@) =~= before.context() + tail);
        assert(self@.context() =~= before.context());
    }

    /// A shell command that the user ran, as a call and its result; the result is cut to the byte
    /// limit.
    pub fn synthetic_tool_call(
        &self,
        tool_use_id: String,
        command: String,
        content: String,
        is_error: bool,
    ) -> (r: (Message, Message))
        ensures
            (r.0@, r.1@) == synthetic_call(
                tool_use_id@,
                command@,
                content@,
                is_error,
                self@.max_tool_result_bytes,
            ),
    {
        let input = Json::object().with("command", Json::Str(command));
        let call = Message {
            role: Role::Assistant,
            content: vec![
                ContentBlock::ToolUse {
                    id: tool_use_id.clone(),
                    name: "bash".to_owned(),
                    input,
                },
            ],
        };
        let kept = truncate_tool_result(content.as_str(), self.max_tool_result_bytes);
        let result = Message {
            role: Role::User,
            content: vec![
                ContentBlock::ToolResult { tool_use_id, content: kept, is_error },
            ],
        };
        proof {
            let want = synthetic_call(
                tool_use_id@,
                command@,
                content@,
                is_error,
                self@.max_tool_result_bytes,
            );
            assert(call@ =~= want.0);
            assert(result@ =~= want.1);
        }
        (call, result)
    }

    /// Adds a shell command that the user ran to the conversation, as a call and its result, once
    /// both messages are stored with the session.
    pub fn record_synthetic_tool_call(
        &mut self,
        tool_use_id: String,
        command: String,
        content: String,
        is_error: bool,
    )
        requires
            old(self)@.wf(),
        ensures
            ({
                let (call, result) = synthetic_call(
                    tool_use_id@,
                    command@,
                    content@,
                    is_error,
                    old(self)@.max_tool_result_bytes,
                );
                final(self)@ == (AgentView {
                    history: old(self)@.history.push(call).push(result),
                    ..old(self)@
                })
            }),
            final(self)@.wf(),
    {
        let ghost before = self@;
        let (call, result) = self.synthetic_tool_call(tool_use_id, command, content, is_error);
        self.history.push(call);
        self.history.push(result);
        assert(messages_view(self.history@) =~= before.history.push(call@).push(result@));
        assert(self@ =~= AgentView {
            history: before.history.push(call@).push(result@),
            ..before
        });
    }

    /// How the agent asks its backend.
    pub fn request(&self) -> (r: RequestConfig)
        ensures
            r@ == self@.request(),
    {
        let tools = if self.chat_mode {
            self.tools.read_only_definitions()
        } else {
            duplicate_tools(&self.config.tools)
        };
        RequestConfig {
            model: self.config.model.clone(),
            max_tokens: self.config.max_tokens,
            tools,
            thinking: self.config.thinking,
        }
    }

    /// Adds the user's message to the conversation and begins a turn.
    pub fn send(&mut self, input: String) -> (r: TurnStart)
        requires
            old(self)@.wf(),
        ensures
            r.turn@ == new_turn(old(self)@.turn_settings()),
            r.turn@.wf(),
            r.message@ == text_message(Role::User, input@),
            r.request@ == old(self)@.request(),
            final(self)@ == (AgentView {
                history: old(self)@.history.push(text_message(Role::User, input@)),
                ..old(self)@
            }),
            final(self)@.wf(),
    {
        let ghost before = self@;
        let message = Message::text(Role::User, input);
        self.history.push(message.duplicate());
        assert(messages_view(self.history@) =~= before.history.push(message@));
        assert(self@ =~= AgentView { history: before.history.push(message@), ..before });
        let settings = TurnSettings {
            max_iterations: self.max_tool_iterations,
            max_token_retries: self.max_token_retries,
            max_tokens: self.config.max_tokens,
            confirmation: self.confirmation_mode,
            max_context_window_len: self.max_context_window_len,
            max_tool_result_bytes: self.max_tool_result_bytes,
            write_tools: self.tools.write_tool_names(),
        };
        TurnStart { turn: Turn::new(settings), message, request: self.request() }
    }

    /// Adds to the conversation what the effects say.
    fn apply(&mut self, effects: &Vec<Effect>)
        requires
            old(self)@.wf(),
        ensures
            final(self)@ == (AgentView {
                history: old(self)@.history + appended(effects_view(effects@)),
                ..old(self)@
            }),
            final(self)@.wf(),
    {
        let ghost before = self@;
        let ghost all = effects_view(effects@);
        let mut i: usize = 0;
        assert(self@ =~= AgentView { history: before.history + appended(all.take(0)), ..before });
        while i < effects.len()
            invariant
                i <= effects.len(),
                all == effects_view(effects@),
                before.wf(),
                self@ == (AgentView {
                    history: before.history + appended(all.take(i as int)),
                    ..before
                }),
            decreases effects.len() - i,
        {
            proof {
                assert(all.take(i + 1).drop_last() =~= all.take(i as int));
                assert(all.take(i + 1).last() == effects@[i as int]@);
            }
            let ghost mid = self@;
            match &effects[i] {
                Effect::Append(m) => {
                    self.history.push(m.duplicate());
                    assert(messages_view(self.history@) =~= mid.history.push(m@));
                    assert(mid.history.push(m@) =~= before.history + appended(
                        all.take(i + 1),
                    ));
                },
                Effect::Emit(_) => {},
            }
            assert(self@ =~= AgentView {
                history: before.history + appended(all.take(i + 1)),
                ..before
            });
            i += 1;
        }
        assert(all.take(i as int) =~= all);
    }

    /// Takes a turn one step further, and keeps the conversation in step with it. The result
    /// says what to report and what to store.
    pub fn advance(&mut self, turn: &mut Turn, input: TurnInput) -> (r: Vec<Effect>)
        requires
            old(self)@.wf(),
            old(turn)@.wf(),
        ensures
            ({
                let step = turn_step(
                    old(turn)@,
                    input@,
                    old(self)@.chat_mode,
                    old(self)@.last_auto_compacted,
                );
                &&& final(turn)@ == step.turn
                &&& effects_view(r@) == step.effects
                &&& final(self)@ == (AgentView {
                    history: old(self)@.history + appended(step.effects),
                    last_auto_compacted: step.auto_compacted,
                    ..old(self)@
                })
            }),
            final(self)@.wf(),
            final(turn)@.wf(),
            final(self)@.context() == old(self)@.context(),
    {
        let ghost before = self@;
        let (effects, flag) = turn.step(input, self.chat_mode, self.last_auto_compacted);
        self.last_auto_compacted = flag;
        self.apply(&effects);
        assert(self@.context() =~= before.context());
        effects
    }

    /// Plans the compaction of the conversation.
    pub fn compact(&self) -> (r: Result<CompactionPlan, String>)
        ensures
            match (r, self@.compaction) {
                (Ok(plan), Some((role, roles))) => plan@ == compaction_plan(
                    compaction_role(role, roles),
                    persisted(self@.history, self@.prefix),
                    self@.num_retained_turns,
                ),
                (Err(e), None) => e@ == "Compaction not available: no spawner configured."@,
                _ => false,
            },
    {
        match &self.compaction_spawner {
            Some(spawner) => Ok(
                compact_with(
                    spawner,
                    &self.history,
                    self.context_prefix_len,
                    self.num_retained_turns,
                ),
            ),
            None => Err("Compaction not available: no spawner configured.".to_owned()),
        }
    }

    /// Ends a compaction: where the summary was stored, it takes the place of the conversation
    /// behind the context, in front of what was retained.
    pub fn finish_compaction(
        &mut self,
        summary: String,
        retained: Vec<Message>,
        stored: StoreOutcome,
    ) -> (r: Result<String, String>)
        requires
            old(self)@.wf(),
        ensures
            either_text(r) == match stored {
                StoreOutcome::Stored => Ok::<Seq<char>, Seq<char>>(summary@),
                StoreOutcome::NothingToCompact => Ok(
                    "Nothing to compact: all turns are retained."@,
                ),
                StoreOutcome::Failed(e) => Err("Compaction failed: "@ + e@),
            },
            final(self)@ == (AgentView {
                history: if stored is Stored {
                    compacted_history(
                        old(self)@.history,
                        old(self)@.prefix,
                        summary@,
                        messages_view(retained@),
                    )
                } else {
                    old(self)@.history
                },
                ..old(self)@
            }),
            final(self)@.context() == old(self)@.context(),
            final(self)@.wf(),
    {
        let ghost before = self@;
        proof {
            law_compaction_keeps_prefix(
                before.history,
                before.prefix,
                summary@,
                messages_view(retained@),
            );
        }
        finish_compaction(
            &mut self.history,
            self.context_prefix_len,
            summary,
            retained,
            stored,
        )
    }

    pub fn chat_mode_for_test(&self) -> (r: bool)
        ensures
            r == self@.chat_mode,
    {
        self.chat_mode
    }

    pub fn max_tool_iterations_for_test(&self) -> (r: u32)
        ensures
            r == self@.max_tool_iterations,
    {
        self.max_tool_iterations
    }

    pub fn max_token_retries_for_test(&self) -> (r: u32)
        ensures
            r == self@.max_token_retries,
    {
        self.max_token_retries
    }

    pub fn max_context_window_len_for_test(&self) -> (r: u32)
        ensures
            r == self@.max_context_window_len,
    {
        self.max_context_window_len
    }

    pub fn max_tool_result_bytes_for_test(&self) -> (r: u64)
        ensures
            r == self@.max_tool_result_bytes,
    {
        self.max_tool_result_bytes
    }

    pub fn confirmation_mode_for_test(&self) -> (r: &ConfirmationMode)
        ensures
            *r == self@.confirmation_mode,
    {
        &self.confirmation_mode
    }
}

/// Whatever happens in a turn, the conversation only grows, and the context in front of it stays
/// as it was.
pub proof fn law_history_only_grows(
    agent: AgentView,
    turn: TurnView,
    input: crate::agent::turn::InputView,
)
    requires
        agent.wf(),
    ensures
        ({
            let step = turn_step(turn, input, agent.chat_mode, agent.last_auto_compacted);
            let after = agent.history + appended(step.effects);
            &&& agent.history.is_prefix_of(after)
            &&& after.take(agent.prefix as int) == agent.context()
        }),
{
    let step = turn_step(turn, input, agent.chat_mode, agent.last_auto_compacted);
    let after = agent.history + appended(step.effects);
    assert(after.take(agent.prefix as int) =~= agent.context());
    assert(agent.history =~= after.take(agent.history.len() as int));
}

} // verus!
