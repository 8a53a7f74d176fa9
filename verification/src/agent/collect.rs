//! Collecting the calls of tools from a stream in which several of them are mixed: each piece may
//! say, by a number, to which call it belongs.
use vstd::prelude::*;

use crate::agent::reply::{calls_view, CallView, PendingToolCall};

verus! {

/// Numbered calls, in the order of their numbers.
pub open spec fn numbered(s: Seq<(u64, PendingToolCall)>) -> Seq<(u64, CallView)> {
    s.map_values(|p: (u64, PendingToolCall)| (p.0, p.1@))
}

/// Whether the numbers grow from each call to the next.
pub open spec fn in_number_order(s: Seq<(u64, CallView)>) -> bool {
    forall|i: int, j: int| 0 <= i < j < s.len() ==> (#[trigger] s[i]).0 < (#[trigger] s[j]).0
}

/// The calls with one more, which takes the place of one that has its number.
pub open spec fn put(s: Seq<(u64, CallView)>, number: u64, call: CallView) -> Seq<(u64, CallView)>
    decreases s.len(),
{
    if s.len() == 0 {
        seq![(number, call)]
    } else if number < s[0].0 {
        seq![(number, call)] + s
    } else if number == s[0].0 {
        seq![(number, call)] + s.drop_first()
    } else {
        seq![s[0]] + put(s.drop_first(), number, call)
    }
}

/// The call with more input.
pub open spec fn grown(call: CallView, chunk: Seq<char>) -> CallView {
    CallView { input_json: call.input_json + chunk, ..call }
}

/// The calls, of which the one with the given number has more input.
pub open spec fn grown_at(s: Seq<(u64, CallView)>, number: u64, chunk: Seq<char>) -> Seq<
    (u64, CallView),
> {
    s.map_values(
        |p: (u64, CallView)|
            if p.0 == number {
                (p.0, grown(p.1, chunk))
            } else {
                p
            },
    )
}

/// The calls without their numbers.
pub open spec fn unnumbered(s: Seq<(u64, CallView)>) -> Seq<CallView> {
    s.map_values(|p: (u64, CallView)| p.1)
}

/// The calls of an answer so far: those that are complete, the one without a number that is not,
/// and those with numbers that are not.
#[derive(Debug, PartialEq, Eq)]
pub struct CallCollector {
    complete: Vec<PendingToolCall>,
    current: Option<PendingToolCall>,
    pending: Vec<(u64, PendingToolCall)>,
}

/// What a [`CallCollector`] holds.
#[verifier::ext_equal]
pub struct CollectorView {
    pub complete: Seq<CallView>,
    pub current: Option<CallView>,
    pub pending: Seq<(u64, CallView)>,
}

impl CollectorView {
    /// A call begins. Without a number it takes the place of another that has none.
    pub open spec fn started(
        self,
        id: Seq<char>,
        name: Seq<char>,
        number: Option<u64>,
    ) -> CollectorView {
        let call = CallView { id, name, input_json: Seq::empty() };
        match number {
            Some(n) => CollectorView { pending: put(self.pending, n, call), ..self },
            None => CollectorView { current: Some(call), ..self },
        }
    }

    /// More input for a call; it is lost where that call has not begun.
    pub open spec fn extended(self, chunk: Seq<char>, number: Option<u64>) -> CollectorView {
        match number {
            Some(n) => CollectorView { pending: grown_at(self.pending, n, chunk), ..self },
            None => CollectorView {
                current: match self.current {
                    Some(c) => Some(grown(c, chunk)),
                    None => None,
                },
                ..self
            },
        }
    }

    /// All calls are complete: first the one without a number, then the others in the order of
    /// their numbers.
    pub open spec fn done(self) -> CollectorView {
        CollectorView {
            complete: (match self.current {
                Some(c) => self.complete.push(c),
                None => self.complete,
            }) + unnumbered(self.pending),
            current: None,
            pending: Seq::empty(),
        }
    }
}

proof fn lemma_put_at(s: Seq<(u64, CallView)>, number: u64, call: CallView, k: int)
    requires
        in_number_order(s),
        0 <= k <= s.len(),
        forall|j: int| 0 <= j < k ==> (#[trigger] s[j]).0 < number,
        k < s.len() ==> number <= s[k].0,
    ensures
        put(s, number, call) == if k < s.len() && s[k].0 == number {
            s.update(k, (number, call))
        } else {
            s.insert(k, (number, call))
        },
    decreases s.len(),
{
    if s.len() == 0 {
        assert(put(s, number, call) =~= s.insert(k, (number, call)));
    } else if k == 0 {
        if s[0].0 == number {
            assert(put(s, number, call) =~= s.update(k, (number, call)));
        } else {
            assert(put(s, number, call) =~= s.insert(k, (number, call)));
        }
    } else {
        let rest = s.drop_first();
        assert(s[0].0 < number);
        assert forall|j: int| 0 <= j < k - 1 implies (#[trigger] rest[j]).0 < number by {
            assert(rest[j] == s[j + 1]);
        }
        lemma_put_at(rest, number, call, k - 1);
        if k < s.len() && s[k].0 == number {
            assert(put(s, number, call) =~= s.update(k, (number, call)));
        } else {
            assert(put(s, number, call) =~= s.insert(k, (number, call)));
        }
    }
}

/// Calls stay in the order of their numbers, and no call but the one with the same number is
/// lost.
pub proof fn law_put_keeps_calls(s: Seq<(u64, CallView)>, number: u64, call: CallView)
    requires
        in_number_order(s),
    ensures
        in_number_order(put(s, number, call)),
        put(s, number, call).contains((number, call)),
        forall|p: (u64, CallView)|
            p.0 != number ==> (#[trigger] put(s, number, call).contains(p) <==> s.contains(p)),
    decreases s.len(),
{
    let r = put(s, number, call);
    if s.len() == 0 {
        assert(r[0] == (number, call));
    } else {
        let rest = s.drop_first();
        assert(s =~= seq![s[0]] + rest);
        if number < s[0].0 {
            assert(r =~= seq![(number, call)] + s);
            assert(r[0] == (number, call));
            assert forall|p: (u64, CallView)| p.0 != number implies (#[trigger] r.contains(p)
                <==> s.contains(p)) by {
                lemma_contains_lead((number, call), s, p);
            }
        } else if number == s[0].0 {
            assert(r[0] == (number, call));
            assert forall|p: (u64, CallView)| p.0 != number implies (#[trigger] r.contains(p)
                <==> s.contains(p)) by {
                lemma_contains_lead((number, call), rest, p);
                lemma_contains_lead(s[0], rest, p);
            }
        } else {
            law_put_keeps_calls(rest, number, call);
            let tail = put(rest, number, call);
            assert forall|p: (u64, CallView)| p.0 != number implies (#[trigger] r.contains(p)
                <==> s.contains(p)) by {
                lemma_contains_lead(s[0], tail, p);
                lemma_contains_lead(s[0], rest, p);
                assert(tail.contains(p) <==> rest.contains(p));
            }
            lemma_contains_lead(s[0], tail, (number, call));
            assert forall|i: int, j: int| 0 <= i < j < r.len() implies (#[trigger] r[i]).0 < (
            #[trigger] r[j]).0 by {
                assert(r[j] == tail[j - 1]);
                if i == 0 {
                    assert(tail.contains(tail[j - 1]));
                    if tail[j - 1].0 != number {
                        assert(rest.contains(tail[j - 1]));
                        let k = choose|k: int| 0 <= k < rest.len() && rest[k] == tail[j - 1];
                        assert(rest[k] == s[k + 1]);
                    }
                } else {
                    assert(r[i] == tail[i - 1]);
                }
            }
        }
    }
}

proof fn lemma_contains_lead(
    lead: (u64, CallView),
    rest: Seq<(u64, CallView)>,
    p: (u64, CallView),
)
    ensures
        (seq![lead] + rest).contains(p) <==> p == lead || rest.contains(p),
{
    let all = seq![lead] + rest;
    if all.contains(p) {
        let k = choose|k: int| 0 <= k < all.len() && all[k] == p;
        if k > 0 {
            assert(rest[k - 1] == p);
        }
    }
    if p == lead {
        assert(all[0] == p);
    }
    if rest.contains(p) {
        let k = choose|k: int| 0 <= k < rest.len() && rest[k] == p;
        assert(all[k + 1] == p);
    }
}

/// Pieces that belong to different calls can come in either order.
pub proof fn law_mixed_pieces_commute(
    s: Seq<(u64, CallView)>,
    a: u64,
    b: u64,
    first: Seq<char>,
    second: Seq<char>,
)
    requires
        a != b,
    ensures
        grown_at(grown_at(s, a, first), b, second) == grown_at(grown_at(s, b, second), a, first),
{
    assert(grown_at(grown_at(s, a, first), b, second) =~= grown_at(
        grown_at(s, b, second),
        a,
        first,
    ));
}

/// A call that begins has its id and its name and no input, and is the one with its number, or the one
/// without; nothing else changes.
pub proof fn law_call_begins(
    calls: CollectorView,
    id: Seq<char>,
    name: Seq<char>,
    number: Option<u64>,
)
    requires
        in_number_order(calls.pending),
    ensures
        ({
            let after = calls.started(id, name, number);
            let call = CallView { id, name, input_json: Seq::empty() };
            &&& after.complete == calls.complete
            &&& in_number_order(after.pending)
            &&& match number {
                Some(n) => {
                    &&& after.current == calls.current
                    &&& after.pending.contains((n, call))
                    &&& forall|p: (u64, CallView)|
                        p.0 != n ==> (#[trigger] after.pending.contains(p)
                            <==> calls.pending.contains(p))
                },
                None => after.current == Some(call) && after.pending == calls.pending,
            }
        }),
{
    if let Some(n) = number {
        law_put_keeps_calls(
            calls.pending,
            n,
            CallView { id, name, input_json: Seq::empty() },
        );
    }
}

/// More input is added to the end of that of the call it belongs to; nothing else changes. Two pieces
/// for one call are as one.
pub proof fn law_input_is_collected(
    calls: CollectorView,
    number: Option<u64>,
    chunk: Seq<char>,
    more: Seq<char>,
)
    ensures
        ({
            let after = calls.extended(chunk, number);
            &&& after.complete == calls.complete
            &&& after.pending.len() == calls.pending.len()
            &&& forall|i: int|
                0 <= i < calls.pending.len() ==> {
                    let (k, before) = #[trigger] calls.pending[i];
                    &&& after.pending[i].0 == k
                    &&& after.pending[i].1.id == before.id
                    &&& after.pending[i].1.name == before.name
                    &&& after.pending[i].1.input_json == if number == Some(k) {
                        before.input_json + chunk
                    } else {
                        before.input_json
                    }
                }
            &&& match (calls.current, after.current) {
                (Some(before), Some(c)) => {
                    &&& c.id == before.id
                    &&& c.name == before.name
                    &&& c.input_json == if number is None {
                        before.input_json + chunk
                    } else {
                        before.input_json
                    }
                },
                (None, None) => true,
                _ => false,
            }
        }),
        calls.extended(chunk, number).extended(more, number) == calls.extended(
            chunk + more,
            number,
        ),
{
    let twice = calls.extended(chunk, number).extended(more, number);
    let once = calls.extended(chunk + more, number);
    if let Some(c) = calls.current {
        assert(c.input_json + chunk + more =~= c.input_json + (chunk + more));
    }
    assert forall|i: int| 0 <= i < calls.pending.len() implies twice.pending[i]
        == once.pending[i] by {
        let c = calls.pending[i].1;
        assert(c.input_json + chunk + more =~= c.input_json + (chunk + more));
    }
    assert(twice.pending =~= once.pending);
}

/// In the end every call that began is complete, behind those that were: first the one without a
/// number, then the others in the order of their numbers.
pub proof fn law_every_call_is_completed(calls: CollectorView)
    ensures
        ({
            let after = calls.done();
            let first = if calls.current is Some {
                seq![calls.current->0]
            } else {
                Seq::empty()
            };
            let n = calls.complete.len() + first.len();
            &&& after.current is None
            &&& after.pending.len() == 0
            &&& after.complete.len() == n + calls.pending.len()
            &&& after.complete.take(n as int) == calls.complete + first
            &&& forall|i: int|
                0 <= i < calls.pending.len() ==> after.complete[n + i] == (
                #[trigger] calls.pending[i]).1
        }),
{
    let after = calls.done();
    let first = if calls.current is Some {
        seq![calls.current->0]
    } else {
        Seq::empty()
    };
    assert(after.complete.take((calls.complete.len() + first.len()) as int) =~= calls.complete
        + first);
}

impl CallCollector {
    pub closed spec fn view(self) -> CollectorView {
        CollectorView {
            complete: calls_view(self.complete@),
            current: match self.current {
                Some(c) => Some(c@),
                None => None,
            },
            pending: numbered(self.pending@),
        }
    }

    /// The numbered calls are in the order of their numbers.
    pub closed spec fn wf(self) -> bool {
        in_number_order(self@.pending)
    }

    /// No calls.
    pub fn new() -> (r: CallCollector)
        ensures
            r.wf(),
            r@ == (CollectorView {
                complete: Seq::empty(),
                current: None,
                pending: Seq::empty(),
            }),
    {
        let r = CallCollector { complete: Vec::new(), current: None, pending: Vec::new() };
        assert(r@.complete =~= Seq::empty());
        assert(r@.pending =~= Seq::empty());
        r
    }

    /// A call begins.
    pub fn start(&mut self, id: String, name: String, number: Option<u64>)
        requires
            old(self).wf(),
        ensures
            final(self).wf(),
            final(self)@ == old(self)@.started(id@, name@, number),
    {
        let ghost before = self@;
        let call = PendingToolCall { id, name, input_json: String::new() };
        assert(call@.input_json =~= Seq::<char>::empty());
        match number {
            None => {
                self.current = Some(call);
            },
            Some(n) => {
                let mut k: usize = 0;
                while k < self.pending.len() && self.pending[k].0 < n
                    invariant
                        k <= self.pending.len(),
                        self@ == before,
                        self.wf(),
                        forall|j: int| 0 <= j < k ==> (#[trigger] self.pending@[j]).0 < n,
                    decreases self.pending.len() - k,
                {
                    k += 1;
                }
                proof {
                    assert forall|j: int| 0 <= j < k implies (#[trigger] before.pending[j]).0
                        < n by {
                        assert(before.pending[j].0 == self.pending@[j].0);
                    }
                    lemma_put_at(before.pending, n, call@, k as int);
                    law_put_keeps_calls(before.pending, n, call@);
                }
                if k < self.pending.len() && self.pending[k].0 == n {
                    self.pending.set(k, (n, call));
                    assert(numbered(self.pending@) =~= before.pending.update(
                        k as int,
                        (n, call@),
                    ));
                } else {
                    self.pending.insert(k, (n, call));
                    assert(numbered(self.pending@) =~= before.pending.insert(
                        k as int,
                        (n, call@),
                    ));
                }
            },
        }
    }

    /// More input for a call.
    pub fn extend(&mut self, chunk: &str, number: Option<u64>)
        requires
            old(self).wf(),
        ensures
            final(self).wf(),
            final(self)@ == old(self)@.extended(chunk@, number),
    {
        let ghost before = self@;
        match number {
            None => match self.current.take() {
                Some(c) => {
                    let mut c = c;
                    c.input_json.append(chunk);
                    self.current = Some(c);
                },
                None => {},
            },
            Some(n) => {
                let mut k: usize = 0;
                while k < self.pending.len() && self.pending[k].0 != n
                    invariant
                        k <= self.pending.len(),
                        self@ == before,
                        self.wf(),
                        forall|j: int| 0 <= j < k ==> (#[trigger] self.pending@[j]).0 != n,
                    decreases self.pending.len() - k,
                {
                    k += 1;
                }
                if k < self.pending.len() {
                    let ghost all = self.pending@;
                    let (_, call) = self.pending.remove(k);
                    let mut call = call;
                    call.input_json.append(chunk);
                    self.pending.insert(k, (n, call));
                    proof {
                        let want = grown_at(before.pending, n, chunk@);
                        assert(numbered(self.pending@).len() == want.len());
                        assert forall|j: int| 0 <= j < want.len() implies numbered(
                            self.pending@,
                        )[j] == want[j] by {
                            assert(before.pending[j] == (all[j].0, all[j].1@));
                            if j < k {
                                assert(all[j].0 != n);
                            }
                            if j > k {
                                assert(before.pending[k as int].0 < before.pending[j].0);
                            }
                        }
                        assert(numbered(self.pending@) =~= want);
                    }
                } else {
                    assert forall|j: int| 0 <= j < before.pending.len() implies grown_at(
                        before.pending,
                        n,
                        chunk@,
                    )[j] == before.pending[j] by {
                        assert(before.pending[j].0 == self.pending@[j].0);
                    }
                    assert(grown_at(before.pending, n, chunk@) =~= before.pending);
                }
                assert forall|i: int, j: int| 0 <= i < j < self@.pending.len() implies (
                #[trigger] self@.pending[i]).0 < (#[trigger] self@.pending[j]).0 by {
                    assert(before.pending[i].0 < before.pending[j].0);
                }
            },
        }
    }

    /// All calls are complete.
    pub fn done(&mut self)
        requires
            old(self).wf(),
        ensures
            final(self).wf(),
            final(self)@ == old(self)@.done(),
    {
        let ghost before = self@;
        match self.current.take() {
            Some(c) => {
                self.complete.push(c);
                assert(calls_view(self.complete@) =~= before.complete.push(c@));
            },
            None => {},
        }
        let ghost first = calls_view(self.complete@);
        let mut pending: Vec<(u64, PendingToolCall)> = Vec::new();
        pending.append(&mut self.pending);
        let ghost all = unnumbered(before.pending);
        assert(numbered(pending@) =~= before.pending);
        for entry in it: pending
            invariant
                self.current is None,
                self.pending@.len() == 0,
                it.seq().len() == all.len(),
                forall|j: int| 0 <= j < all.len() ==> #[trigger] all[j] == it.seq()[j].1@,
                calls_view(self.complete@) == first + all.take(it.index() as int),
        {
            let ghost i = it.index() as int;
            let ghost done_so_far = calls_view(self.complete@);
            let (_, call) = entry;
            self.complete.push(call);
            assert(all[i] == call@);
            assert(calls_view(self.complete@) =~= done_so_far.push(call@));
            assert(first + all.take(i + 1) =~= (first + all.take(i)).push(all[i]));
        }
        assert(all.take(all.len() as int) =~= all);
        assert(self@ =~= before.done());
    }

    /// The calls that are complete.
    pub fn into_calls(self) -> (r: Vec<PendingToolCall>)
        ensures
            calls_view(r@) == self@.complete,
    {
        self.complete
    }
}

} // verus!
