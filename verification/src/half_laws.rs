//! What each half of a connection of the event-driven proxy does with a chunk,
//! turn by turn, and that it gets on with it.

use crate::transfer::{progress, Progress, TransferOutcome, TransferStep};
use vstd::prelude::*;

verus! {

/// A turn of a poll: a step, what came of it, and how many bytes the half has
/// written with it.
pub struct HalfTurn {
    pub step: TransferStep,
    pub outcome: TransferOutcome,
    pub amt: u64,
}

/// Turns that a poll takes one after the other, from any step on. `metered`
/// says whether the half reports to the meters.
pub open spec fn are_turns(metered: bool, turns: Seq<HalfTurn>) -> bool {
    &&& forall|i: int|
        0 <= i < turns.len() ==> {
            let turn = #[trigger] turns[i];
            turn.step.answered_by(turn.outcome)
        }
    &&& forall|i: int|
        0 < i < turns.len() ==> {
            let last = turns[i - 1];
            progress(metered, last.amt, last.step, last.outcome) == Progress::Next(
                (#[trigger] turns[i]).step,
            )
        }
}

/// A poll stops only with a reason, and the same reasons hold for both halves.
/// It waits exactly when an end is not ready or the read would have to wait; it
/// fails exactly when a read fails otherwise, or a write or the shutdown fails,
/// and with that very failure; and it is finished exactly when the writer has
/// been shut down, with what was written.
pub proof fn poll_stops_only_with_a_reason(
    metered: bool,
    amt: u64,
    step: TransferStep,
    outcome: TransferOutcome,
)
    requires
        step.answered_by(outcome),
    ensures
        progress(metered, amt, step, outcome) is NotReady <==> match outcome {
            TransferOutcome::Ready { read, write } => !read || !write,
            TransferOutcome::ReadFailed(e) => e.kind is WouldBlock,
            _ => false,
        },
        progress(metered, amt, step, outcome) is Failed <==> match outcome {
            TransferOutcome::ReadFailed(e) => !(e.kind is WouldBlock),
            TransferOutcome::WriteFailed(_) => true,
            TransferOutcome::ShutDownFailed(_) => true,
            _ => false,
        },
        progress(metered, amt, step, outcome) matches Progress::Failed(e) ==> outcome
            == TransferOutcome::ReadFailed(e) || outcome == TransferOutcome::WriteFailed(e)
            || outcome == TransferOutcome::ShutDownFailed(e),
        progress(metered, amt, step, outcome) is Finished <==> step is ShutDown && outcome is Done,
        progress(metered, amt, step, outcome) matches Progress::Finished(n) ==> n == amt,
{
}

/// When both ends are ready the half reads.
pub proof fn ready_half_reads(metered: bool, turns: Seq<HalfTurn>, i: int)
    requires
        are_turns(metered, turns),
        0 <= i,
        i + 1 < turns.len(),
        turns[i].step is Await,
    ensures
        turns[i].outcome == (TransferOutcome::Ready { read: true, write: true }),
        turns[i + 1].step is Read,
{
    assert(turns[i].step.answered_by(turns[i].outcome));
    assert(turns[i + 1].step is Read);
}

/// At the end of the stream either half shuts down its writer, and at no other
/// time.
pub proof fn end_of_stream_is_handed_on(metered: bool, turns: Seq<HalfTurn>, i: int)
    requires
        are_turns(metered, turns),
        0 <= i,
        i + 1 < turns.len(),
    ensures
        turns[i + 1].step is ShutDown <==> turns[i].outcome == TransferOutcome::Read(0),
{
    assert(turns[i].step.answered_by(turns[i].outcome));
    assert(turns[i + 1].step.answered_by(turns[i + 1].outcome));
}

/// Every chunk that is read from the client is handed on, whatever its size: in
/// the turns after the read the start time is stamped, all bytes that were read
/// are written, one token is left for them, and the half waits for more.
pub proof fn request_is_handed_on(turns: Seq<HalfTurn>, i: int, n: usize)
    requires
        are_turns(false, turns),
        0 <= i < turns.len(),
        turns[i].outcome == TransferOutcome::Read(n),
        n > 0,
    ensures
        i + 1 < turns.len() ==> turns[i + 1].step is Stamp,
        i + 2 < turns.len() ==> turns[i + 2].step == TransferStep::Write(n),
        i + 3 < turns.len() ==> turns[i + 3].step is Notify,
        i + 4 < turns.len() ==> turns[i + 4].step is Await,
{
    assert(turns[i].step.answered_by(turns[i].outcome));
    if i + 1 < turns.len() {
        assert(turns[i + 1].step.answered_by(turns[i + 1].outcome));
    }
    if i + 2 < turns.len() {
        assert(turns[i + 2].step.answered_by(turns[i + 2].outcome));
    }
    if i + 3 < turns.len() {
        assert(turns[i + 3].step.answered_by(turns[i + 3].outcome));
    }
    if i + 4 < turns.len() {
        assert(turns[i + 4].step.answered_by(turns[i + 4].outcome));
    }
}

/// Every chunk that is read from the server is metered and handed on, whatever
/// its size: right after the read the channel is asked for a token; a token
/// taken is measured, once; then the bytes that were read are added to the byte
/// meter, all of them and once, one is added to the response meter, all the
/// bytes are written, and the half waits for more.
pub proof fn response_is_metered_and_handed_on(turns: Seq<HalfTurn>, i: int, n: usize)
    requires
        are_turns(true, turns),
        0 <= i < turns.len(),
        turns[i].outcome == TransferOutcome::Read(n),
        n > 0,
    ensures
        i + 1 < turns.len() ==> turns[i + 1].step is TakeToken,
        i + 1 < turns.len() ==> {
            let measured: int = if turns[i + 1].outcome is TokenTaken {
                1
            } else {
                0
            };
            let k = i + 2 + measured;
            &&& measured == 1 && k - 1 < turns.len() ==> turns[k - 1].step is Measure
            &&& k < turns.len() ==> turns[k].step == TransferStep::CountBytes(n)
            &&& k + 1 < turns.len() ==> turns[k + 1].step is CountResponse
            &&& k + 2 < turns.len() ==> turns[k + 2].step == TransferStep::Write(n)
            &&& k + 3 < turns.len() ==> turns[k + 3].step is Await
        },
{
    assert(turns[i].step.answered_by(turns[i].outcome));
    if i + 1 < turns.len() {
        assert(turns[i + 1].step.answered_by(turns[i + 1].outcome));
    }
    if i + 2 < turns.len() {
        assert(turns[i + 2].step.answered_by(turns[i + 2].outcome));
    }
    if i + 3 < turns.len() {
        assert(turns[i + 3].step.answered_by(turns[i + 3].outcome));
    }
    if i + 4 < turns.len() {
        assert(turns[i + 4].step.answered_by(turns[i + 4].outcome));
    }
    if i + 5 < turns.len() {
        assert(turns[i + 5].step.answered_by(turns[i + 5].outcome));
    }
    if i + 6 < turns.len() {
        assert(turns[i + 6].step.answered_by(turns[i + 6].outcome));
    }
}

/// How many turns a poll can take from a step on before it comes back to
/// `Await` or ends.
spec fn rank(step: TransferStep) -> int {
    match step {
        TransferStep::Await => 8,
        TransferStep::Read => 7,
        TransferStep::TakeToken(_) => 6,
        TransferStep::Measure(_) => 5,
        TransferStep::CountBytes(_) => 4,
        TransferStep::CountResponse(_) | TransferStep::Stamp(_) => 3,
        TransferStep::Write(_) => 2,
        TransferStep::Notify | TransferStep::ShutDown => 1,
    }
}

proof fn turns_run_out(metered: bool, turns: Seq<HalfTurn>, i: int)
    requires
        are_turns(metered, turns),
        0 <= i < turns.len(),
        forall|k: int| 1 <= k < turns.len() ==> !((#[trigger] turns[k]).step is Await),
    ensures
        rank(turns[i].step) + i <= rank(turns[0].step),
    decreases i,
{
    if i > 0 {
        turns_run_out(metered, turns, i - 1);
        let last = turns[i - 1];
        assert(last.step.answered_by(last.outcome));
        assert(progress(metered, last.amt, last.step, last.outcome) == Progress::Next(
            turns[i].step,
        ));
    }
}

/// A half never gets stuck: from when it has asked whether its ends are ready,
/// it asks again, waits, is finished or has failed within seven turns.
pub proof fn half_gets_on(metered: bool, turns: Seq<HalfTurn>)
    requires
        are_turns(metered, turns),
        turns.len() > 0,
        turns[0].step is Await,
        forall|k: int| 1 <= k < turns.len() ==> !((#[trigger] turns[k]).step is Await),
    ensures
        turns.len() <= 1 + 7,
{
    turns_run_out(metered, turns, turns.len() - 1);
}

/// Whatever a socket or the channel can answer is an answer to the step that
/// asks it; a write takes all that it is given or fails; and an outcome answers
/// no step of another kind.
pub proof fn half_takes_every_answer(step: TransferStep, outcome: TransferOutcome)
    ensures
        step.answered_by(outcome) <==> match outcome {
            TransferOutcome::Ready { .. } => step is Await,
            TransferOutcome::ReadFailed(_) => step is Read,
            TransferOutcome::Read(n) => step is Read && n <= 65536,
            TransferOutcome::ShutDownFailed(_) => step is ShutDown,
            TransferOutcome::Done => step is ShutDown || step is Stamp || step is Measure
                || step is CountBytes || step is CountResponse || step is Notify,
            TransferOutcome::TokenTaken | TransferOutcome::NoToken => step is TakeToken,
            TransferOutcome::WriteFailed(_) => step is Write,
            TransferOutcome::Written(m) => step == TransferStep::Write(m),
        },
{
}

} // verus!
