//! Turns within a conversation.
use vstd::prelude::*;

use crate::types::{
    blocks_view, messages_view, BlockView, ContentBlock, Message, MessageView, Role,
};

verus! {

/// Whether a turn begins at message `i`: with the first message, and with every message of the
/// user. The messages of the assistant that follow belong to the same turn.
pub open spec fn is_turn_start(s: Seq<MessageView>, i: int) -> bool {
    0 <= i < s.len() && (i == 0 || s[i].role == Role::User)
}

/// How many turns a conversation has.
pub open spec fn turns(s: Seq<MessageView>) -> nat
    decreases s.len(),
{
    if s.len() == 0 {
        0
    } else {
        turns(s.drop_last()) + if is_turn_start(s, s.len() - 1) {
            1nat
        } else {
            0nat
        }
    }
}

/// The first message of the last `n` turns: that message begins a turn, and all but `n` of the
/// turns, or none if there are no more, lie before it. It is 0 where `n` is 0.
pub open spec fn is_retained_start(s: Seq<MessageView>, n: nat, start: int) -> bool {
    if n == 0 || s.len() == 0 {
        start == 0
    } else {
        &&& is_turn_start(s, start)
        &&& turns(s.take(start)) == if turns(s) > n {
            turns(s) - n
        } else {
            0
        }
    }
}

/// The first message of the last `n` turns.
pub open spec fn retained_start(s: Seq<MessageView>, n: nat) -> int {
    choose|start: int| is_retained_start(s, n, start)
}

/// The message with nothing but its texts; `None` where there are none.
pub open spec fn stripped(m: MessageView) -> Option<MessageView> {
    let content = m.content.filter(|b: BlockView| b is Text);
    if content.len() == 0 {
        None
    } else {
        Some(MessageView { content, ..m })
    }
}

/// The messages with nothing but their texts, without those that have none.
pub open spec fn all_stripped(s: Seq<MessageView>) -> Seq<MessageView>
    decreases s.len(),
{
    if s.len() == 0 {
        Seq::empty()
    } else {
        match stripped(s.last()) {
            Some(m) => all_stripped(s.drop_last()).push(m),
            None => all_stripped(s.drop_last()),
        }
    }
}

proof fn lemma_turns_step(s: Seq<MessageView>, i: int)
    requires
        0 <= i < s.len(),
    ensures
        turns(s.take(i + 1)) == turns(s.take(i)) + if is_turn_start(s, i) {
            1nat
        } else {
            0nat
        },
{
    assert(s.take(i + 1).drop_last() =~= s.take(i));
    assert(s.take(i + 1)[i] == s[i]);
}

proof fn lemma_turns_bound(s: Seq<MessageView>)
    ensures
        turns(s) <= s.len(),
        s.len() > 0 ==> turns(s) > 0,
    decreases s.len(),
{
    if s.len() > 0 {
        lemma_turns_bound(s.drop_last());
    }
}

/// Counts the turns of a conversation.
pub fn count_turns(messages: &[Message]) -> (r: usize)
    ensures
        r == turns(messages_view(messages@)),
{
    let ghost s = messages_view(messages@);
    let mut count: usize = 0;
    let mut i: usize = 0;
    assert(s.take(0) =~= Seq::empty());
    while i < messages.len()
        invariant
            i <= messages.len(),
            s == messages_view(messages@),
            count == turns(s.take(i as int)),
            count <= i,
        decreases messages.len() - i,
    {
        proof {
            lemma_turns_step(s, i as int);
            assert(s[i as int] == messages@[i as int]@);
        }
        if i == 0 || messages[i].role == Role::User {
            count += 1;
        }
        i += 1;
    }
    assert(s.take(i as int) =~= s);
    count
}

/// The index of the first message of the last `n` turns; 0 where `n` is 0 or there are no more
/// than `n` turns.
pub fn retained_start_index(messages: &[Message], n: usize) -> (r: usize)
    ensures
        is_retained_start(messages_view(messages@), n as nat, r as int),
        r == retained_start(messages_view(messages@), n as nat),
        r <= messages@.len(),
{
    let r: usize = find_retained_start(messages, n);
    proof {
        let s = messages_view(messages@);
        law_retained_start_is_unique(s, n as nat, r as int, retained_start(s, n as nat));
    }
    r
}

fn find_retained_start(messages: &[Message], n: usize) -> (r: usize)
    ensures
        is_retained_start(messages_view(messages@), n as nat, r as int),
{
    if n == 0 || messages.len() == 0 {
        return 0;
    }
    let ghost s = messages_view(messages@);
    let total: usize = count_turns(messages);
    if total <= n {
        assert(s.take(0) =~= Seq::empty());
        return 0;
    }
    let skip: usize = total - n;
    let mut seen: usize = 0;
    let mut i: usize = 0;
    assert(s.take(0) =~= Seq::empty());
    assert(s.take(s.len() as int) =~= s);
    while i < messages.len()
        invariant
            i <= messages.len(),
            s == messages_view(messages@),
            seen == turns(s.take(i as int)),
            seen <= skip,
            skip < total,
            0 < n < total,
            skip == total - n,
            total == turns(s),
            s.take(s.len() as int) == s,
        decreases messages.len() - i,
    {
        proof {
            lemma_turns_step(s, i as int);
            assert(s[i as int] == messages@[i as int]@);
        }
        if i == 0 || messages[i].role == Role::User {
            if seen == skip {
                return i;
            }
            seen += 1;
        }
        i += 1;
    }
    assert(false);
    0
}

/// The message with nothing but its texts; `None` where there are none.
pub fn strip_non_text(msg: &Message) -> (r: Option<Message>)
    ensures
        match r {
            Some(m) => stripped(msg@) == Some(m@),
            None => stripped(msg@) is None,
        },
{
    let ghost all = msg@.content;
    let ghost pick = |b: BlockView| b is Text;
    let mut content: Vec<ContentBlock> = Vec::new();
    let mut i: usize = 0;
    assert(blocks_view(content@) =~= all.take(0).filter(pick)) by {
        reveal(Seq::filter);
    }
    while i < msg.content.len()
        invariant
            i <= msg.content.len(),
            all == msg@.content,
            pick == (|b: BlockView| b is Text),
            blocks_view(content@) == all.take(i as int).filter(pick),
        decreases msg.content.len() - i,
    {
        let ghost before = content@;
        proof {
            assert(all.take(i + 1).drop_last() =~= all.take(i as int));
            assert(all.take(i + 1).last() == msg.content@[i as int]@);
            reveal(Seq::filter);
        }
        if let ContentBlock::Text(_) = &msg.content[i] {
            let b = msg.content[i].duplicate();
            content.push(b);
            assert(blocks_view(content@) =~= blocks_view(before).push(b@));
        }
        i += 1;
    }
    assert(all.take(i as int) =~= all);
    if content.len() == 0 {
        None
    } else {
        Some(Message { role: msg.role, content })
    }
}

/// The messages from `start` on with nothing but their texts, without those that have none.
pub fn strip_from(messages: &[Message], start: usize) -> (r: Vec<Message>)
    requires
        start <= messages@.len(),
    ensures
        messages_view(r@) == all_stripped(messages_view(messages@).skip(start as int)),
{
    let ghost s = messages_view(messages@).skip(start as int);
    let mut out: Vec<Message> = Vec::new();
    let mut i: usize = start;
    assert(messages_view(out@) =~= all_stripped(s.take(0)));
    while i < messages.len()
        invariant
            start <= i <= messages.len(),
            s == messages_view(messages@).skip(start as int),
            messages_view(out@) == all_stripped(s.take(i - start)),
        decreases messages.len() - i,
    {
        let ghost before = out@;
        proof {
            assert(s.take(i - start + 1).drop_last() =~= s.take(i - start));
            assert(s.take(i - start + 1).last() == messages@[i as int]@);
        }
        match strip_non_text(&messages[i]) {
            Some(m) => {
                out.push(m);
                assert(messages_view(out@) =~= messages_view(before).push(m@));
            },
            None => {},
        }
        i += 1;
    }
    assert(s.take(i - start) =~= s);
    out
}

/// The messages of the last `n` turns, as [`retained_turns`] hands them out.
pub open spec fn last_turns(s: Seq<MessageView>, n: nat) -> Seq<MessageView> {
    if n == 0 {
        Seq::empty()
    } else {
        all_stripped(s.skip(retained_start(s, n)))
    }
}

/// The messages of the last `n` turns, with nothing but their texts.
pub fn retained_turns(messages: &[Message], n: usize) -> (r: Vec<Message>)
    ensures
        messages_view(r@) == last_turns(messages_view(messages@), n as nat),
{
    let start: usize = retained_start_index(messages, n);
    if n == 0 {
        let none: Vec<Message> = Vec::new();
        assert(messages_view(none@) =~= Seq::empty());
        return none;
    }
    strip_from(messages, start)
}

/// There is no more than one message at which the last `n` turns can begin.
pub proof fn law_retained_start_is_unique(s: Seq<MessageView>, n: nat, a: int, b: int)
    requires
        is_retained_start(s, n, a),
        is_retained_start(s, n, b),
    ensures
        a == b,
{
    if n > 0 && s.len() > 0 && a != b {
        let (lo, hi) = if a < b {
            (a, b)
        } else {
            (b, a)
        };
        lemma_turns_step(s, lo);
        lemma_turns_grow(s, lo + 1, hi);
    }
}

proof fn lemma_turns_grow(s: Seq<MessageView>, i: int, j: int)
    requires
        0 <= i <= j <= s.len(),
    ensures
        turns(s.take(i)) <= turns(s.take(j)),
    decreases j - i,
{
    if i < j {
        lemma_turns_step(s, j - 1);
        lemma_turns_grow(s, i, j - 1);
    }
}

/// Splitting a conversation where a turn begins splits no turn.
pub proof fn law_turns_split(s: Seq<MessageView>, i: int)
    requires
        is_turn_start(s, i),
    ensures
        turns(s.take(i)) + turns(s.skip(i)) == turns(s),
{
    lemma_turns_split(s, i, s.len() as int);
    assert(s.take(s.len() as int) =~= s);
    assert(s.subrange(i, s.len() as int) =~= s.skip(i));
}

proof fn lemma_turns_split(s: Seq<MessageView>, i: int, j: int)
    requires
        is_turn_start(s, i),
        i <= j <= s.len(),
    ensures
        turns(s.take(i)) + turns(s.subrange(i, j)) == turns(s.take(j)),
    decreases j,
{
    if j == i {
        assert(s.subrange(i, j) =~= Seq::empty());
    } else {
        lemma_turns_split(s, i, j - 1);
        lemma_turns_step(s, j - 1);
        let part = s.subrange(i, j);
        assert(part.drop_last() =~= s.subrange(i, j - 1));
        assert(part.last() == s[j - 1]);
    }
}

/// Retaining `n` turns retains exactly `n` of them, or all where there are no more.
pub proof fn law_retains_n_turns(s: Seq<MessageView>, n: nat, start: int)
    requires
        n > 0,
        is_retained_start(s, n, start),
    ensures
        turns(s.skip(start)) == if turns(s) > n {
            n
        } else {
            turns(s)
        },
{
    if s.len() > 0 {
        law_turns_split(s, start);
    } else {
        assert(s.skip(start) =~= s);
    }
}

/// What is retained holds texts only, and no message without one.
pub proof fn law_stripped_is_text_only(s: Seq<MessageView>, i: int, k: int)
    requires
        0 <= i < all_stripped(s).len(),
        0 <= k < all_stripped(s)[i].content.len(),
    ensures
        all_stripped(s)[i].content[k] is Text,
    decreases s.len(),
{
    if s.len() > 0 {
        let front = all_stripped(s.drop_last());
        if i < front.len() {
            law_stripped_is_text_only(s.drop_last(), i, k);
        } else {
            let pick = |b: BlockView| b is Text;
            s.last().content.lemma_filter_pred(pick, k);
        }
    }
}

} // verus!
