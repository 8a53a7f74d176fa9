//! What a step of a turn leaves as it was.
use vstd::prelude::*;

use crate::agent::calls::SettingsView;
use crate::agent::turn::{new_turn, turn_step, InputView, Phase, TurnView};
use crate::types::StreamView;

verus! {

/// Whether an input is one that a turn waits for.
pub open spec fn is_awaited(phase: Phase, input: InputView) -> bool {
    match phase {
        Phase::Starting => input is Proceed,
        Phase::Requesting => input is BackendReady || input is BackendFailed,
        Phase::Streaming => input is Stream || input is StreamEnded || input is StreamFailed,
        Phase::BeforeTools => input is Proceed,
        Phase::Deciding => input is Proceed,
        Phase::Confirming => input is Confirmed,
        Phase::Running => input is ToolOutcomes,
        Phase::AfterTools => input is Proceed,
        Phase::Finished => false,
    }
}

/// What a turn does not wait for changes nothing. No step changes the settings. Whether the
/// conversation was compacted is decided only when an answer is complete, with all its calls.
pub proof fn law_step_leaves(t: TurnView, input: InputView, chat_mode: bool, auto: bool)
    ensures
        ({
            let step = turn_step(t, input, chat_mode, auto);
            let answered = t.phase is Streaming && t.reply.tool_calls.len() == 0 && (input
                == InputView::Stream(StreamView::Done) || input == (InputView::StreamEnded {
                cancelled: false,
            })) && step.turn.phase is Finished;
            let acted = t.phase is AfterTools && input == (InputView::Proceed { cancelled: false });
            &&& step.turn.settings == t.settings
            &&& !is_awaited(t.phase, input) ==> step.turn == t && step.effects.len() == 0
            &&& !answered && !acted ==> step.auto_compacted == auto
            &&& !(t.phase is Requesting) && !(t.phase is Streaming) ==> step.turn.reply == t.reply
            &&& !(t.phase is Starting) && !(t.phase is Streaming) ==> step.turn.iterations
                == t.iterations
            &&& !(t.phase is Streaming) ==> step.turn.retries_used == t.retries_used
            &&& !t.deciding() && !(t.phase is BeforeTools) ==> step.turn.batch == t.batch
        }),
{
}

/// The user's word decides the call that was asked about, and changes nothing else of it or of the
/// other calls.
pub proof fn law_word_of_the_user(t: TurnView, approved: bool, chat_mode: bool, auto: bool)
    requires
        t.wf(),
        t.phase is Confirming,
    ensures
        ({
            let step = turn_step(t, InputView::Confirmed { approved }, chat_mode, auto);
            let before = t.batch.last();
            let after = step.turn.batch.last();
            &&& step.effects.len() == 0
            &&& step.turn.batch.len() == t.batch.len()
            &&& step.turn.batch.drop_last() == t.batch.drop_last()
            &&& after.id == before.id
            &&& after.name == before.name
            &&& after.input == before.input
            &&& after.index == before.index
            &&& if approved {
                after.decision is Approved
            } else {
                after.decision is Declined
            }
            &&& step.turn.phase == if t.batch.len() < t.reply.tool_calls.len() {
                Phase::Deciding
            } else {
                Phase::Running
            }
        }),
{
    let step = turn_step(t, InputView::Confirmed { approved }, chat_mode, auto);
    assert(step.turn.batch.drop_last() =~= t.batch.drop_last());
}

/// A new turn has its settings, has not asked yet, and has nothing to show.
pub proof fn law_new_turn(settings: SettingsView)
    ensures
        ({
            let t = new_turn(settings);
            &&& t.settings == settings
            &&& t.phase is Starting
            &&& t.iterations == 0
            &&& t.retries_used == 0
            &&& t.batch.len() == 0
            &&& t.results.len() == 0
            &&& t.wf()
        }),
{
}

} // verus!
