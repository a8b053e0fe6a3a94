//! What each copying loop does with a chunk, turn by turn, and that it gets on
//! with it.

use crate::pipe::{Outcome, RequestStep, ResponseStep};
use vstd::prelude::*;

verus! {

/// A turn of the loop FRONT => BACK: a step and what came of it.
pub struct RequestTurn {
    pub step: RequestStep,
    pub outcome: Outcome,
}

/// A turn of the loop BACK => FRONT: a step and what came of it.
pub struct ResponseTurn {
    pub step: ResponseStep,
    pub outcome: Outcome,
}

/// Turns that the loop FRONT => BACK takes one after the other, from any step
/// on.
pub open spec fn are_request_turns(turns: Seq<RequestTurn>) -> bool {
    &&& forall|i: int|
        0 <= i < turns.len() ==> {
            let turn = #[trigger] turns[i];
            turn.step.answered_by(turn.outcome)
        }
    &&& forall|i: int|
        0 < i < turns.len() ==> (#[trigger] turns[i]).step == turns[i - 1].step.then_after(
            turns[i - 1].outcome,
        )
}

/// Turns that the loop BACK => FRONT takes one after the other, from any step
/// on.
pub open spec fn are_response_turns(turns: Seq<ResponseTurn>) -> bool {
    &&& forall|i: int|
        0 <= i < turns.len() ==> {
            let turn = #[trigger] turns[i];
            turn.step.answered_by(turn.outcome)
        }
    &&& forall|i: int|
        0 < i < turns.len() ==> (#[trigger] turns[i]).step == turns[i - 1].step.then_after(
            turns[i - 1].outcome,
        )
}

/// Every chunk that is read from the client is offered to the server, whatever
/// its size: in the turns after the read the start time is stamped once, the
/// flag is lowered once, and then all bytes that were read are written.
pub proof fn request_is_offered(turns: Seq<RequestTurn>, i: int, n: usize)
    requires
        are_request_turns(turns),
        0 <= i < turns.len(),
        turns[i].outcome == Outcome::Read(n),
    ensures
        i + 1 < turns.len() ==> turns[i + 1].step is Stamp,
        i + 2 < turns.len() ==> turns[i + 2].step is MarkAlive,
        i + 3 < turns.len() ==> turns[i + 3].step == (RequestStep::Write { from: 0, to: n }),
{
    assert(turns[i].step.answered_by(turns[i].outcome));
    if i + 1 < turns.len() {
        assert(turns[i + 1].step.answered_by(turns[i + 1].outcome));
    }
    if i + 2 < turns.len() {
        assert(turns[i + 2].step.answered_by(turns[i + 2].outcome));
    }
    if i + 3 < turns.len() {
        assert(turns[i + 3].step == turns[i + 2].step.then_after(turns[i + 2].outcome));
    }
}

/// Every chunk that is read from the server is metered and offered to the
/// client, whatever its size: right after the read the channel is asked for a
/// token; a token taken is measured, once; then the bytes that were read are
/// counted, all of them and once, the flag is lowered, and all the bytes are
/// written.
pub proof fn response_is_metered_and_offered(turns: Seq<ResponseTurn>, i: int, n: usize)
    requires
        are_response_turns(turns),
        0 <= i < turns.len(),
        turns[i].outcome == Outcome::Read(n),
    ensures
        i + 1 < turns.len() ==> turns[i + 1].step is TakeToken,
        i + 1 < turns.len() ==> {
            let measured: int = if turns[i + 1].outcome is TokenTaken {
                1
            } else {
                0
            };
            let k = i + 2 + measured;
            &&& measured == 1 && k - 1 < turns.len() ==> turns[k - 1].step is Measure
            &&& k < turns.len() ==> turns[k].step == ResponseStep::Count(n)
            &&& k + 1 < turns.len() ==> turns[k + 1].step is MarkAlive
            &&& k + 2 < turns.len() ==> turns[k + 2].step == (ResponseStep::Write {
                from: 0,
                to: n,
            })
        },
{
    assert(turns[i].step.answered_by(turns[i].outcome));
    if i + 1 < turns.len() {
        assert(turns[i + 1].step.answered_by(turns[i + 1].outcome));
    }
    if i + 2 < turns.len() {
        assert(turns[i + 2].step.answered_by(turns[i + 2].outcome));
    }
    if i + 3 < turns.len() {
        assert(turns[i + 3].step.answered_by(turns[i + 3].outcome));
    }
    if i + 4 < turns.len() {
        assert(turns[i + 4].step.answered_by(turns[i + 4].outcome));
    }
    if i + 5 < turns.len() {
        assert(turns[i + 5].step.answered_by(turns[i + 5].outcome));
    }
}

/// A write is carried through: as long as each write takes something, the next
/// begins where it left off and goes to the same end; and a chunk written to
/// that end is followed by one token for it and then by the next read.
pub proof fn request_is_carried_through(
    turns: Seq<RequestTurn>,
    i: int,
    from: usize,
    to: usize,
    m: usize,
)
    requires
        are_request_turns(turns),
        0 <= i < turns.len(),
        turns[i].step == (RequestStep::Write { from, to }),
        turns[i].outcome == Outcome::Written(m),
    ensures
        from + m <= to,
        0 < m < to - from && i + 1 < turns.len() ==> turns[i + 1].step == (RequestStep::Write {
            from: (from + m) as usize,
            to,
        }),
        m == to - from && i + 1 < turns.len() ==> turns[i + 1].step is Notify,
        m == to - from && i + 2 < turns.len() ==> turns[i + 2].step is Read,
{
    assert(turns[i].step.answered_by(turns[i].outcome));
    if i + 1 < turns.len() {
        assert(turns[i + 1].step.answered_by(turns[i + 1].outcome));
    }
}

/// A write is carried through in the loop BACK => FRONT too, and a chunk
/// written to its end is followed by the next read.
pub proof fn response_is_carried_through(
    turns: Seq<ResponseTurn>,
    i: int,
    from: usize,
    to: usize,
    m: usize,
)
    requires
        are_response_turns(turns),
        0 <= i < turns.len(),
        turns[i].step == (ResponseStep::Write { from, to }),
        turns[i].outcome == Outcome::Written(m),
    ensures
        from + m <= to,
        0 < m < to - from && i + 1 < turns.len() ==> turns[i + 1].step == (ResponseStep::Write {
            from: (from + m) as usize,
            to,
        }),
        m == to - from && i + 1 < turns.len() ==> turns[i + 1].step is Read,
{
    assert(turns[i].step.answered_by(turns[i].outcome));
}

/// The loop FRONT => BACK gives up only on a failure, and on every one: it
/// marks a failed read exactly when a read failed and a broken write exactly
/// when a write failed or took nothing of what was left; it ends right after
/// that mark and at no other time; and it leaves the sockets alone exactly when
/// the flag was up as it marked a failed read.
pub proof fn request_gives_up_only_on_failure(step: RequestStep, outcome: Outcome)
    requires
        step.answered_by(outcome),
    ensures
        step.then_after(outcome) is MarkFailed <==> outcome is ReadFailed,
        step.then_after(outcome) is MarkBroken <==> outcome is WriteFailed || (step matches
            RequestStep::Write { from, to } && from < to && outcome == Outcome::Written(0)),
        step.then_after(outcome) is ShutDown || step.then_after(outcome) is LetGo
            <==> step is MarkFailed || step is MarkBroken,
        step.then_after(outcome) is LetGo <==> outcome == Outcome::WasRaised(true),
{
}

/// The loop BACK => FRONT gives up only on a failure, and on every one, as the
/// other does.
pub proof fn response_gives_up_only_on_failure(step: ResponseStep, outcome: Outcome)
    requires
        step.answered_by(outcome),
    ensures
        step.then_after(outcome) is MarkFailed <==> outcome is ReadFailed,
        step.then_after(outcome) is MarkBroken <==> outcome is WriteFailed || (step matches
            ResponseStep::Write { from, to } && from < to && outcome == Outcome::Written(0)),
        step.then_after(outcome) is ShutDown || step.then_after(outcome) is LetGo
            <==> step is MarkFailed || step is MarkBroken,
        step.then_after(outcome) is LetGo <==> outcome == Outcome::WasRaised(true),
{
}

/// How many turns the loop FRONT => BACK can take before it reads again or
/// ends.
spec fn request_rank(step: RequestStep) -> int {
    match step {
        RequestStep::Stamp(n) => n + 4,
        RequestStep::MarkAlive(n) => n + 3,
        RequestStep::Write { from, to } => if from <= to {
            to - from + 2
        } else {
            2
        },
        _ => 1,
    }
}

/// How many turns the loop BACK => FRONT can take before it reads again or
/// ends.
spec fn response_rank(step: ResponseStep) -> int {
    match step {
        ResponseStep::TakeToken(n) => n + 6,
        ResponseStep::Measure(n) => n + 5,
        ResponseStep::Count(n) => n + 4,
        ResponseStep::MarkAlive(n) => n + 3,
        ResponseStep::Write { from, to } => if from <= to {
            to - from + 2
        } else {
            2
        },
        _ => 1,
    }
}

/// One turn takes the loop FRONT => BACK nearer to its next read or its end.
proof fn request_rank_falls(step: RequestStep, outcome: Outcome)
    requires
        step.answered_by(outcome),
        step !is Read,
        step.then_after(outcome) !is Read,
    ensures
        1 <= request_rank(step.then_after(outcome)),
        step is MarkFailed || step is MarkBroken || request_rank(step.then_after(outcome))
            < request_rank(step),
        step is MarkFailed || step is MarkBroken ==> step.then_after(outcome) is ShutDown
            || step.then_after(outcome) is LetGo,
{
}

proof fn request_turns_run_out(turns: Seq<RequestTurn>, i: int)
    requires
        are_request_turns(turns),
        1 <= i < turns.len(),
        forall|k: int| 1 <= k < turns.len() ==> (#[trigger] turns[k]).step !is Read,
    ensures
        1 <= request_rank(turns[i].step),
        request_rank(turns[i].step) + (i - 1) <= request_rank(turns[1].step),
    decreases i,
{
    assert(turns[i].step.answered_by(turns[i].outcome));
    if i > 1 {
        request_turns_run_out(turns, i - 1);
        let last = turns[i - 1];
        assert(last.step.answered_by(last.outcome));
        assert(turns[i].step == last.step.then_after(last.outcome));
        request_rank_falls(last.step, last.outcome);
    }
}

/// One turn takes the loop BACK => FRONT nearer to its next read or its end.
proof fn response_rank_falls(step: ResponseStep, outcome: Outcome)
    requires
        step.answered_by(outcome),
        step !is Read,
        step.then_after(outcome) !is Read,
    ensures
        1 <= response_rank(step.then_after(outcome)),
        step is MarkFailed || step is MarkBroken || response_rank(step.then_after(outcome))
            < response_rank(step),
        step is MarkFailed || step is MarkBroken ==> step.then_after(outcome) is ShutDown
            || step.then_after(outcome) is LetGo,
{
}

proof fn response_turns_run_out(turns: Seq<ResponseTurn>, i: int)
    requires
        are_response_turns(turns),
        1 <= i < turns.len(),
        forall|k: int| 1 <= k < turns.len() ==> (#[trigger] turns[k]).step !is Read,
    ensures
        1 <= response_rank(turns[i].step),
        response_rank(turns[i].step) + (i - 1) <= response_rank(turns[1].step),
    decreases i,
{
    assert(turns[i].step.answered_by(turns[i].outcome));
    if i > 1 {
        response_turns_run_out(turns, i - 1);
        let last = turns[i - 1];
        assert(last.step.answered_by(last.outcome));
        assert(turns[i].step == last.step.then_after(last.outcome));
        response_rank_falls(last.step, last.outcome);
    }
}

/// The loop FRONT => BACK never gets stuck: after a read of `n` bytes it reads
/// again or ends within `n + 4` turns, and after a failed read within one.
pub proof fn request_gets_on(turns: Seq<RequestTurn>)
    requires
        are_request_turns(turns),
        turns.len() > 0,
        turns[0].step is Read,
        forall|k: int| 1 <= k < turns.len() ==> (#[trigger] turns[k]).step !is Read,
    ensures
        turns[0].outcome matches Outcome::Read(n) ==> turns.len() <= 1 + n + 4,
        turns[0].outcome is ReadFailed ==> turns.len() <= 1 + 1,
{
    if turns.len() > 1 {
        assert(turns[0].step.answered_by(turns[0].outcome));
        assert(turns[1].step == turns[0].step.then_after(turns[0].outcome));
        request_turns_run_out(turns, turns.len() - 1);
    }
}

/// The loop BACK => FRONT never gets stuck: after a read of `n` bytes it reads
/// again or ends within `n + 6` turns, and after a failed read within one.
pub proof fn response_gets_on(turns: Seq<ResponseTurn>)
    requires
        are_response_turns(turns),
        turns.len() > 0,
        turns[0].step is Read,
        forall|k: int| 1 <= k < turns.len() ==> (#[trigger] turns[k]).step !is Read,
    ensures
        turns[0].outcome matches Outcome::Read(n) ==> turns.len() <= 1 + n + 6,
        turns[0].outcome is ReadFailed ==> turns.len() <= 1 + 1,
{
    if turns.len() > 1 {
        assert(turns[0].step.answered_by(turns[0].outcome));
        assert(turns[1].step == turns[0].step.then_after(turns[0].outcome));
        response_turns_run_out(turns, turns.len() - 1);
    }
}

/// Whatever a socket can answer is an answer to the step that asks it: a read
/// that fails or takes as much as there is room for, a write that fails or
/// takes as much as it is given; and an outcome answers no step of another
/// kind.
pub proof fn request_takes_every_answer(step: RequestStep, outcome: Outcome)
    ensures
        step.answered_by(outcome) <==> match outcome {
            Outcome::ReadFailed => step is Read,
            Outcome::Read(n) => step is Read && n <= 1024,
            Outcome::WasRaised(_) => step is MarkFailed,
            Outcome::Done => step is Stamp || step is MarkAlive || step is Notify
                || step is MarkBroken,
            Outcome::WriteFailed => step is Write,
            Outcome::Written(m) => step matches RequestStep::Write { from, to } && from + m <= to,
            Outcome::TokenTaken | Outcome::NoToken => false,
        },
{
}

/// Whatever a socket or the channel can answer is an answer to the step that
/// asks it, in the loop BACK => FRONT too.
pub proof fn response_takes_every_answer(step: ResponseStep, outcome: Outcome)
    ensures
        step.answered_by(outcome) <==> match outcome {
            Outcome::ReadFailed => step is Read,
            Outcome::Read(n) => step is Read && n <= 1024,
            Outcome::WasRaised(_) => step is MarkFailed,
            Outcome::TokenTaken | Outcome::NoToken => step is TakeToken,
            Outcome::Done => step is Measure || step is Count || step is MarkAlive
                || step is MarkBroken,
            Outcome::WriteFailed => step is Write,
            Outcome::Written(m) => step matches ResponseStep::Write { from, to } && from + m <= to,
        },
{
}

} // verus!
