//! What the agent knows of its tools.
use vstd::prelude::*;

use crate::text::{among, texts};
use crate::types::{tools_view, ToolDefinition, ToolDefinitionView};

verus! {

/// A tool, as far as the agent decides by it.
#[derive(Debug, PartialEq)]
pub struct ToolEntry {
    pub definition: ToolDefinition,
    /// Whether the tool changes something.
    pub is_write_tool: bool,
}

/// What a [`ToolEntry`] says.
#[verifier::ext_equal]
pub struct EntryView {
    pub definition: ToolDefinitionView,
    pub is_write_tool: bool,
}

impl ToolEntry {
    pub open spec fn view(self) -> EntryView {
        EntryView { definition: self.definition@, is_write_tool: self.is_write_tool }
    }
}

/// What each of several entries says.
pub open spec fn entries_view(s: Seq<ToolEntry>) -> Seq<EntryView> {
    s.map_values(|e: ToolEntry| e@)
}

/// The tools an agent has, in the order in which they were registered.
#[derive(Debug, PartialEq)]
pub struct ToolRegistry {
    pub entries: Vec<ToolEntry>,
}

/// The definitions of those entries that are picked.
pub open spec fn picked(s: Seq<EntryView>, pick: spec_fn(EntryView) -> bool) -> Seq<
    ToolDefinitionView,
> {
    s.filter(pick).map_values(|e: EntryView| e.definition)
}

/// The names of the tools that change something.
pub open spec fn write_names(s: Seq<EntryView>) -> Seq<Seq<char>> {
    picked(s, |e: EntryView| e.is_write_tool).map_values(|d: ToolDefinitionView| d.name)
}

proof fn lemma_filter_step(s: Seq<EntryView>, pick: spec_fn(EntryView) -> bool, i: int)
    requires
        0 <= i < s.len(),
    ensures
        s.take(i + 1).filter(pick) == if pick(s[i]) {
            s.take(i).filter(pick).push(s[i])
        } else {
            s.take(i).filter(pick)
        },
{
    assert(s.take(i + 1).drop_last() =~= s.take(i));
    assert(s.take(i + 1).last() == s[i]);
    reveal(Seq::filter);
}

impl ToolRegistry {
    pub open spec fn view(self) -> Seq<EntryView> {
        entries_view(self.entries@)
    }

    /// A registry without tools.
    pub fn new() -> (r: ToolRegistry)
        ensures
            r@ == Seq::<EntryView>::empty(),
    {
        let r = ToolRegistry { entries: Vec::new() };
        assert(r@ =~= Seq::<EntryView>::empty());
        r
    }

    /// Adds a tool.
    pub fn register(&mut self, entry: ToolEntry)
        ensures
            final(self)@ == old(self)@.push(entry@),
    {
        self.entries.push(entry);
        assert(self@ =~= old(self)@.push(entry@));
    }

    /// The definitions of all tools.
    pub fn definitions(&self) -> (r: Vec<ToolDefinition>)
        ensures
            tools_view(r@) == self@.map_values(|e: EntryView| e.definition),
    {
        let mut out: Vec<ToolDefinition> = Vec::new();
        let mut i: usize = 0;
        while i < self.entries.len()
            invariant
                i <= self.entries.len(),
                out.len() == i,
                forall|k: int|
                    0 <= k < i ==> (#[trigger] out@[k])@ == self.entries@[k].definition@,
            decreases self.entries.len() - i,
        {
            out.push(self.entries[i].definition.duplicate());
            i += 1;
        }
        assert(tools_view(out@) =~= self@.map_values(|e: EntryView| e.definition));
        out
    }

    /// The definitions of the tools that change nothing.
    pub fn read_only_definitions(&self) -> (r: Vec<ToolDefinition>)
        ensures
            tools_view(r@) == picked(self@, |e: EntryView| !e.is_write_tool),
    {
        let ghost pick = |e: EntryView| !e.is_write_tool;
        let mut out: Vec<ToolDefinition> = Vec::new();
        let mut i: usize = 0;
        assert(self@.take(0).filter(pick) =~= Seq::empty()) by {
            reveal(Seq::filter);
        }
        assert(tools_view(out@) =~= picked(self@.take(0), pick));
        while i < self.entries.len()
            invariant
                i <= self.entries.len(),
                pick == (|e: EntryView| !e.is_write_tool),
                tools_view(out@) == picked(self@.take(i as int), pick),
            decreases self.entries.len() - i,
        {
            let ghost before = out@;
            proof {
                lemma_filter_step(self@, pick, i as int);
                assert(self@[i as int] == self.entries@[i as int]@);
            }
            if !self.entries[i].is_write_tool {
                let d = self.entries[i].definition.duplicate();
                out.push(d);
                assert(tools_view(out@) =~= tools_view(before).push(d@));
                assert(picked(self@.take(i + 1), pick) =~= picked(self@.take(i as int), pick).push(
                    d@,
                ));
            }
            i += 1;
        }
        assert(self@.take(i as int) =~= self@);
        out
    }

    /// The names of the tools that change something.
    pub fn write_tool_names(&self) -> (r: Vec<String>)
        ensures
            texts(r@) == write_names(self@),
    {
        let ghost pick = |e: EntryView| e.is_write_tool;
        let mut out: Vec<String> = Vec::new();
        let mut i: usize = 0;
        assert(self@.take(0).filter(pick) =~= Seq::empty()) by {
            reveal(Seq::filter);
        }
        assert(texts(out@) =~= write_names(self@.take(0)));
        while i < self.entries.len()
            invariant
                i <= self.entries.len(),
                pick == (|e: EntryView| e.is_write_tool),
                texts(out@) == write_names(self@.take(i as int)),
            decreases self.entries.len() - i,
        {
            let ghost before = out@;
            proof {
                lemma_filter_step(self@, pick, i as int);
                assert(self@[i as int] == self.entries@[i as int]@);
            }
            if self.entries[i].is_write_tool {
                let name = self.entries[i].definition.name.clone();
                out.push(name);
                assert(texts(out@) =~= texts(before).push(name@));
                assert(write_names(self@.take(i + 1)) =~= write_names(self@.take(i as int)).push(
                    name@,
                ));
            }
            i += 1;
        }
        assert(self@.take(i as int) =~= self@);
        out
    }

    /// The names of all tools.
    pub fn tool_names(&self) -> (r: Vec<String>)
        ensures
            texts(r@) == self@.map_values(|e: EntryView| e.definition.name),
    {
        let mut out: Vec<String> = Vec::new();
        let mut i: usize = 0;
        while i < self.entries.len()
            invariant
                i <= self.entries.len(),
                out.len() == i,
                forall|k: int|
                    0 <= k < i ==> (#[trigger] out@[k])@ == self.entries@[k].definition.name@,
            decreases self.entries.len() - i,
        {
            out.push(self.entries[i].definition.name.clone());
            i += 1;
        }
        assert(texts(out@) =~= self@.map_values(|e: EntryView| e.definition.name));
        out
    }

    /// The registry without the tools that change something.
    pub fn into_chat_compatible(self) -> (r: ToolRegistry)
        ensures
            r@ == self@.filter(|e: EntryView| !e.is_write_tool),
    {
        let ghost pick = |e: EntryView| !e.is_write_tool;
        let ghost all = self@;
        let mut kept = ToolRegistry::new();
        let entries = self.entries;
        assert(all.take(0).filter(pick) =~= Seq::empty()) by {
            reveal(Seq::filter);
        }
        for entry in it: entries
            invariant
                it.seq() == entries@,
                all == entries_view(entries@),
                pick == (|e: EntryView| !e.is_write_tool),
                kept@ == all.take(it.index() as int).filter(pick),
        {
            let ghost i = it.index() as int;
            proof {
                lemma_filter_step(all, pick, i);
                assert(all[i] == entry@);
            }
            if !entry.is_write_tool {
                kept.register(entry);
            }
        }
        assert(all.take(all.len() as int) =~= all);
        kept
    }

    /// The registry with no other tools than those named.
    pub fn into_filtered(self, allowlist: &Vec<String>) -> (r: ToolRegistry)
        ensures
            r@ == self@.filter(
                |e: EntryView| texts(allowlist@).contains(e.definition.name),
            ),
    {
        let ghost allowed = texts(allowlist@);
        let ghost pick = |e: EntryView| allowed.contains(e.definition.name);
        let ghost all = self@;
        let mut kept = ToolRegistry::new();
        let entries = self.entries;
        assert(all.take(0).filter(pick) =~= Seq::empty()) by {
            reveal(Seq::filter);
        }
        for entry in it: entries
            invariant
                it.seq() == entries@,
                all == entries_view(entries@),
                allowed == texts(allowlist@),
                pick == (|e: EntryView| allowed.contains(e.definition.name)),
                kept@ == all.take(it.index() as int).filter(pick),
        {
            let ghost i = it.index() as int;
            proof {
                lemma_filter_step(all, pick, i);
                assert(all[i] == entry@);
            }
            if among(allowlist, entry.definition.name.as_str()) {
                kept.register(entry);
            }
        }
        assert(all.take(all.len() as int) =~= all);
        kept
    }
}

} // verus!
