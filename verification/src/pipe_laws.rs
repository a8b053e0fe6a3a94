//! What holds of a connection however its two loops take turns.

use crate::pipe::{Outcome, RequestStep, ResponseStep};
use vstd::prelude::*;

verus! {

/// A connection at one moment: where each loop is, what they share, what they
/// have reported, and what has come in and gone out so far.
pub struct PipeState {
    pub request: RequestStep,
    pub response: ResponseStep,
    /// The flag.
    pub timed_out: bool,
    /// The start time, whether the loop FRONT => BACK has hold of it, and all
    /// the times that it was moved to so far.
    pub start_time: nat,
    pub start_held: bool,
    pub stamps: Seq<nat>,
    /// The last time that the clock has shown.
    pub clock: nat,
    /// The tokens in the channel, whether the loop BACK => FRONT has let go of
    /// it, and how many tokens were lost with that.
    pub tokens: Seq<u8>,
    pub receiver_gone: bool,
    pub tokens_lost: nat,
    /// What the connection has put into the time table and the byte counter.
    pub times: Seq<u64>,
    pub counted: nat,
    /// The bytes in each loop's buffer.
    pub request_chunk: Seq<u8>,
    pub response_chunk: Seq<u8>,
    /// All bytes that the reads have taken and the writes have accepted.
    pub from_front: Seq<u8>,
    pub to_back: Seq<u8>,
    pub from_back: Seq<u8>,
    pub to_front: Seq<u8>,
    /// Whether a write of the loop has failed or taken nothing of what was left.
    pub request_broken: bool,
    pub response_broken: bool,
    /// Whether a read of the loop has failed.
    pub request_failed: bool,
    pub response_failed: bool,
    /// The number of requests that the back has accepted as a whole.
    pub handed_on: nat,
}

/// A connection as it starts.
pub open spec fn starts(s: PipeState) -> bool {
    &&& s.request is Read
    &&& s.response is Read
    &&& !s.timed_out
    &&& s.start_time == 0
    &&& !s.start_held
    &&& s.stamps == Seq::<nat>::empty()
    &&& s.tokens == Seq::<u8>::empty()
    &&& !s.receiver_gone
    &&& s.tokens_lost == 0
    &&& s.times == Seq::<u64>::empty()
    &&& s.counted == 0
    &&& s.from_front == Seq::<u8>::empty()
    &&& s.to_back == Seq::<u8>::empty()
    &&& s.from_back == Seq::<u8>::empty()
    &&& s.to_front == Seq::<u8>::empty()
    &&& !s.request_broken
    &&& !s.response_broken
    &&& !s.request_failed
    &&& !s.response_failed
    &&& s.handed_on == 0
}

/// Whether the loop FRONT => BACK can perform its step with this outcome,
/// where `data` is what a read takes and `now` what the clock shows.
pub open spec fn request_can(s: PipeState, outcome: Outcome, data: Seq<u8>, now: u64) -> bool {
    &&& s.request.answered_by(outcome)
    &&& outcome matches Outcome::Read(n) ==> data.len() == n
    &&& s.request.touches_flag() ==> outcome == s.request.flag_outcome(s.timed_out)
    &&& s.request is Stamp ==> s.clock <= now
    &&& s.request is Notify ==> !s.receiver_gone
}

/// The connection after the loop FRONT => BACK has performed its step.
pub open spec fn request_moves(
    s: PipeState,
    outcome: Outcome,
    data: Seq<u8>,
    now: u64,
) -> PipeState {
    let t = PipeState {
        request: s.request.then_after(outcome),
        timed_out: s.request.flag_after(s.timed_out),
        start_time: s.request.start_after(s.start_time, now),
        tokens: s.request.tokens_after(s.tokens),
        start_held: s.start_held && !(s.request.then_after(outcome) is Read),
        ..s
    };
    match (s.request, outcome) {
        (RequestStep::Read, Outcome::Read(_)) => PipeState {
            request_chunk: data,
            from_front: s.from_front + data,
            ..t
        },
        (RequestStep::Read, _) => PipeState { request_failed: true, ..t },
        (RequestStep::Stamp(_), _) => PipeState {
            clock: now as nat,
            start_held: true,
            stamps: s.stamps.push(now as nat),
            ..t
        },
        (RequestStep::Write { from, to }, Outcome::Written(m)) => PipeState {
            to_back: s.to_back + s.request_chunk.subrange(from as int, from + m),
            handed_on: if from + m >= to {
                s.handed_on + 1
            } else {
                s.handed_on
            },
            request_broken: m == 0 && from < to,
            ..t
        },
        (RequestStep::Write { .. }, _) => PipeState { request_broken: true, ..t },
        _ => t,
    }
}

/// Whether the loop FRONT => BACK can let go of the start time at its end.
pub open spec fn can_release(s: PipeState) -> bool {
    s.request.ended() && s.start_held
}

/// The connection after the loop FRONT => BACK has let go of the start time at
/// its end.
pub open spec fn releases(s: PipeState) -> PipeState {
    PipeState { start_held: false, ..s }
}

/// Whether the loop BACK => FRONT can perform its step with this outcome. A
/// measurement waits until nobody has hold of the start time.
pub open spec fn response_can(s: PipeState, outcome: Outcome, data: Seq<u8>, now: u64) -> bool {
    &&& s.response.answered_by(outcome)
    &&& outcome matches Outcome::Read(n) ==> data.len() == n
    &&& s.response.touches_flag() ==> outcome == s.response.flag_outcome(s.timed_out)
    &&& s.response is TakeToken ==> outcome == s.response.tokens_outcome(s.tokens)
    &&& s.response is Measure ==> s.clock <= now && !s.start_held
}

/// The connection after the loop BACK => FRONT has performed its step.
pub open spec fn response_moves(
    s: PipeState,
    outcome: Outcome,
    data: Seq<u8>,
    now: u64,
) -> PipeState {
    let t = PipeState {
        response: s.response.then_after(outcome),
        timed_out: s.response.flag_after(s.timed_out),
        tokens: s.response.tokens_after(s.tokens),
        times: s.response.times_after(s.times, (now - s.start_time) as u64),
        counted: s.response.count_after(s.counted),
        ..s
    };
    match (s.response, outcome) {
        (ResponseStep::Read, Outcome::Read(_)) => PipeState {
            response_chunk: data,
            from_back: s.from_back + data,
            ..t
        },
        (ResponseStep::Read, _) => PipeState { response_failed: true, ..t },
        (ResponseStep::Measure(_), _) => PipeState { clock: now as nat, ..t },
        (ResponseStep::Write { from, to }, Outcome::Written(m)) => PipeState {
            to_front: s.to_front + s.response_chunk.subrange(from as int, from + m),
            response_broken: m == 0 && from < to,
            ..t
        },
        (ResponseStep::Write { .. }, _) => PipeState { response_broken: true, ..t },
        _ => t,
    }
}

/// Whether the loop BACK => FRONT can let go of the channel: once it has ended.
pub open spec fn can_disconnect(s: PipeState) -> bool {
    s.response.ended() && !s.receiver_gone
}

/// The connection after the loop BACK => FRONT has let go of the channel. From
/// then on no token can be put into it, so the loop FRONT => BACK gets no
/// further than the next `Notify`.
pub open spec fn disconnects(s: PipeState) -> PipeState {
    PipeState {
        tokens: Seq::empty(),
        receiver_gone: true,
        tokens_lost: s.tokens_lost + s.tokens.len(),
        ..s
    }
}

/// Whether one of the loops takes the connection from `s` to `t` in one step.
pub open spec fn takes(s: PipeState, t: PipeState) -> bool {
    ||| exists|outcome: Outcome, data: Seq<u8>, now: u64|
        request_can(s, outcome, data, now) && t == #[trigger] request_moves(s, outcome, data, now)
    ||| exists|outcome: Outcome, data: Seq<u8>, now: u64|
        response_can(s, outcome, data, now) && t == #[trigger] response_moves(s, outcome, data, now)
    ||| can_release(s) && t == releases(s)
    ||| can_disconnect(s) && t == disconnects(s)
}

/// A connection's life: it starts, and each moment comes from the one before
/// by one step of either loop.
pub open spec fn is_run(run: Seq<PipeState>) -> bool {
    &&& run.len() > 0
    &&& starts(run[0])
    &&& forall|i: int| 0 < i < run.len() ==> takes(run[i - 1], #[trigger] run[i])
}

/// The bytes that the loop FRONT => BACK has read and not yet written.
pub open spec fn request_in_hand(s: PipeState) -> Seq<u8> {
    match s.request {
        RequestStep::Stamp(_) | RequestStep::MarkAlive(_) => s.request_chunk,
        RequestStep::Write { from, .. } => s.request_chunk.skip(from as int),
        _ => Seq::empty(),
    }
}

/// The bytes that the loop BACK => FRONT has read and not yet written.
pub open spec fn response_in_hand(s: PipeState) -> Seq<u8> {
    match s.response {
        ResponseStep::TakeToken(_)
        | ResponseStep::Measure(_)
        | ResponseStep::Count(_)
        | ResponseStep::MarkAlive(_) => s.response_chunk,
        ResponseStep::Write { from, .. } => s.response_chunk.skip(from as int),
        _ => Seq::empty(),
    }
}

/// The number of bytes that the loop BACK => FRONT has read and not yet
/// counted.
pub open spec fn to_be_counted(s: PipeState) -> nat {
    match s.response {
        ResponseStep::TakeToken(n) | ResponseStep::Measure(n) | ResponseStep::Count(n) => n as nat,
        _ => 0,
    }
}

/// The sockets are shut down as soon as a loop ends: the flag is up, or a loop
/// ends without a shutdown, only after the other loop has shut them down.
pub open spec fn closing_holds(s: PipeState) -> bool {
    &&& s.timed_out ==> s.request is ShutDown || s.response is ShutDown
    &&& s.request is LetGo ==> s.response is ShutDown
    &&& s.response is LetGo ==> s.request is ShutDown
}

/// Each request that the back accepted is one token: about to be put into the
/// channel, in it, lost with it, taken out for a measurement, or measured.
pub open spec fn metering_holds(s: PipeState) -> bool {
    &&& s.handed_on == s.times.len() + s.tokens.len() + s.tokens_lost + (if s.response is Measure {
        1nat
    } else {
        0
    }) + (if s.request is Notify {
        1nat
    } else {
        0
    })
    &&& s.tokens_lost > 0 ==> s.receiver_gone
    &&& s.receiver_gone ==> s.response.ended() && s.tokens.len() == 0
    &&& s.counted + to_be_counted(s) == s.from_back.len()
    &&& s.start_time <= s.clock
}

/// The number of requests that the loop FRONT => BACK is done with: those that
/// the back accepted, and the one whose write failed.
pub open spec fn settled(s: PipeState) -> nat {
    s.handed_on + (if s.request_broken {
        1nat
    } else {
        0
    })
}

/// The start time is the last stamp. Each stamp is that of a settled request,
/// but for that of a request under way, and as long as there is one the loop
/// has hold of the start time.
pub open spec fn stamping_holds(s: PipeState) -> bool {
    &&& s.start_time == (if s.stamps.len() > 0 {
        s.stamps.last()
    } else {
        0
    })
    &&& s.stamps.len() == settled(s) + (if s.request is MarkAlive || s.request is Write {
        1nat
    } else {
        0
    })
    &&& s.request is MarkAlive || s.request is Write ==> s.start_held
    &&& s.request is Read ==> !s.start_held
}

/// Each loop hands on what it reads, all of it and in order, unless a write
/// fails; then what has gone out is still the beginning of what has come in.
pub open spec fn forwarding_holds(s: PipeState) -> bool {
    &&& !s.request_broken ==> s.from_front == s.to_back + request_in_hand(s)
    &&& !s.response_broken ==> s.from_back == s.to_front + response_in_hand(s)
    &&& s.to_back.is_prefix_of(s.from_front)
    &&& s.to_front.is_prefix_of(s.from_back)
}

/// A loop gives up when a read has failed, or a write has failed or taken
/// nothing of what was left, and only then; and after a failed write it ends
/// with the sockets shut down.
pub open spec fn ending_holds(s: PipeState) -> bool {
    &&& s.request_failed <==> s.request is MarkFailed || s.request is LetGo || (s.request is ShutDown
        && !s.request_broken)
    &&& s.request_broken ==> s.request is MarkBroken || s.request is ShutDown
    &&& s.request is MarkBroken ==> s.request_broken
    &&& s.response_failed <==> s.response is MarkFailed || s.response is LetGo || (
    s.response is ShutDown && !s.response_broken)
    &&& s.response_broken ==> s.response is MarkBroken || s.response is ShutDown
    &&& s.response is MarkBroken ==> s.response_broken
}

/// The size that a step carries is the size of the chunk in the buffer.
spec fn sizes_hold(s: PipeState) -> bool {
    &&& match s.request {
        RequestStep::Stamp(n) | RequestStep::MarkAlive(n) => s.request_chunk.len() == n,
        RequestStep::Write { from, to } => from <= to && s.request_chunk.len() == to,
        _ => true,
    }
    &&& match s.response {
        ResponseStep::TakeToken(n)
        | ResponseStep::Measure(n)
        | ResponseStep::Count(n)
        | ResponseStep::MarkAlive(n) => s.response_chunk.len() == n,
        ResponseStep::Write { from, to } => from <= to && s.response_chunk.len() == to,
        _ => true,
    }
}

/// All that is kept from step to step.
pub closed spec fn is_sound(s: PipeState) -> bool {
    &&& closing_holds(s)
    &&& metering_holds(s)
    &&& stamping_holds(s)
    &&& forwarding_holds(s)
    &&& ending_holds(s)
    &&& sizes_hold(s)
}

proof fn request_keeps(s: PipeState, outcome: Outcome, data: Seq<u8>, now: u64)
    requires
        is_sound(s),
        request_can(s, outcome, data, now),
    ensures
        is_sound(request_moves(s, outcome, data, now)),
{
    let t = request_moves(s, outcome, data, now);
    if let (RequestStep::Read, Outcome::Read(_)) = (s.request, outcome) {
        assert(s.to_back + request_in_hand(s) =~= s.to_back);
        assert(request_in_hand(t) == data);
    }
    if let (RequestStep::MarkAlive(_), _) = (s.request, outcome) {
        assert(request_in_hand(t) =~= s.request_chunk);
    }
    if let (RequestStep::Write { from, to }, Outcome::Written(m)) = (s.request, outcome) {
        let part = s.request_chunk.subrange(from as int, from + m);
        if t.request_broken {
            assert(t.to_back =~= s.to_back);
        } else {
            assert(request_in_hand(s) =~= part + request_in_hand(t));
            assert(s.to_back + request_in_hand(s) =~= t.to_back + request_in_hand(t));
        }
    }
}

proof fn response_keeps(s: PipeState, outcome: Outcome, data: Seq<u8>, now: u64)
    requires
        is_sound(s),
        response_can(s, outcome, data, now),
    ensures
        is_sound(response_moves(s, outcome, data, now)),
{
    let t = response_moves(s, outcome, data, now);
    if let (ResponseStep::Read, Outcome::Read(_)) = (s.response, outcome) {
        assert(s.to_front + response_in_hand(s) =~= s.to_front);
        assert(response_in_hand(t) == data);
    }
    if let (ResponseStep::MarkAlive(_), _) = (s.response, outcome) {
        assert(response_in_hand(t) =~= s.response_chunk);
    }
    if let (ResponseStep::Write { from, to }, Outcome::Written(m)) = (s.response, outcome) {
        let part = s.response_chunk.subrange(from as int, from + m);
        if t.response_broken {
            assert(t.to_front =~= s.to_front);
        } else {
            assert(response_in_hand(s) =~= part + response_in_hand(t));
            assert(s.to_front + response_in_hand(s) =~= t.to_front + response_in_hand(t));
        }
    }
}

/// A connection is sound as it starts.
pub proof fn start_is_sound(s: PipeState)
    requires
        starts(s),
    ensures
        is_sound(s),
{
    assert(s.to_back + request_in_hand(s) =~= s.from_front);
    assert(s.to_front + response_in_hand(s) =~= s.from_back);
}

/// A sound connection stays sound, whichever loop takes the next step.
pub proof fn step_keeps_sound(s: PipeState, t: PipeState)
    requires
        is_sound(s),
        takes(s, t),
    ensures
        is_sound(t),
{
    if exists|outcome: Outcome, data: Seq<u8>, now: u64|
        request_can(s, outcome, data, now) && t == #[trigger] request_moves(
            s,
            outcome,
            data,
            now,
        ) {
        let (outcome, data, now) = choose|outcome: Outcome, data: Seq<u8>, now: u64|
            request_can(s, outcome, data, now) && t == #[trigger] request_moves(
                s,
                outcome,
                data,
                now,
            );
        request_keeps(s, outcome, data, now);
    } else if (can_disconnect(s) && t == disconnects(s)) || (can_release(s) && t == releases(s)) {
    } else {
        let (outcome, data, now) = choose|outcome: Outcome, data: Seq<u8>, now: u64|
            response_can(s, outcome, data, now) && t == #[trigger] response_moves(
                s,
                outcome,
                data,
                now,
            );
        response_keeps(s, outcome, data, now);
    }
}

/// What being sound comes to.
pub proof fn sound_means(s: PipeState)
    requires
        is_sound(s),
    ensures
        closing_holds(s),
        metering_holds(s),
        stamping_holds(s),
        forwarding_holds(s),
        ending_holds(s),
{
}

proof fn run_holds(run: Seq<PipeState>, i: int)
    requires
        is_run(run),
        0 <= i < run.len(),
    ensures
        is_sound(run[i]),
    decreases i,
{
    if i == 0 {
        start_is_sound(run[0]);
    } else {
        run_holds(run, i - 1);
        assert(takes(run[i - 1], run[i]));
        step_keeps_sound(run[i - 1], run[i]);
    }
}

/// However the loops take turns, the sockets of a connection are shut down as
/// soon as one of its loops has ended; a loop leaves that out only when the
/// other one has done it.
pub proof fn sockets_are_shut_down(run: Seq<PipeState>, i: int)
    requires
        is_run(run),
        0 <= i < run.len(),
    ensures
        closing_holds(run[i]),
        run[i].request.ended() || run[i].response.ended() || run[i].receiver_gone
            ==> run[i].request is ShutDown || run[i].response is ShutDown,
{
    run_holds(run, i);
}

/// However the loops take turns, every byte read from the server is counted
/// once, and counted before it is written to the client.
pub proof fn every_byte_is_counted(run: Seq<PipeState>, i: int)
    requires
        is_run(run),
        0 <= i < run.len(),
    ensures
        run[i].counted + to_be_counted(run[i]) == run[i].from_back.len(),
        run[i].response is Read ==> run[i].counted == run[i].from_back.len(),
        run[i].to_front.len() <= run[i].counted,
{
    run_holds(run, i);
}

/// However the loops take turns, there is never more than one latency for a
/// request that the server was sent; those without one are the tokens still
/// on their way, and those lost when the loop that measures had ended.
pub proof fn one_latency_for_a_request(run: Seq<PipeState>, i: int)
    requires
        is_run(run),
        0 <= i < run.len(),
    ensures
        metering_holds(run[i]),
        run[i].times.len() <= run[i].handed_on,
{
    run_holds(run, i);
}

/// A latency is the time since the last stamp, which, as long as the clock does
/// not go back, is past; and it is the stamp of a request that the server has
/// accepted or whose write has failed, never of one under way.
pub proof fn latency_is_the_time_since_the_stamp(
    run: Seq<PipeState>,
    i: int,
    outcome: Outcome,
    now: u64,
)
    requires
        is_run(run),
        0 <= i < run.len(),
        run[i].response is Measure,
        response_can(run[i], outcome, Seq::empty(), now),
    ensures
        run[i].stamps.len() > 0,
        run[i].start_time == run[i].stamps.last(),
        run[i].stamps.len() == settled(run[i]),
        crate::clock::time_between(run[i].start_time, now) == Some((now - run[i].start_time) as u64),
        response_moves(run[i], outcome, Seq::empty(), now).times == run[i].times.push(
            (now - run[i].start_time) as u64,
        ),
{
    run_holds(run, i);
}

/// The proxy is transparent: what the server gets is what the client sent and
/// what the client gets is what the server sent, up to the bytes in hand and
/// however little the single writes take. After a failed write it is still the
/// beginning of it.
pub proof fn proxy_is_transparent(run: Seq<PipeState>, i: int)
    requires
        is_run(run),
        0 <= i < run.len(),
    ensures
        forwarding_holds(run[i]),
{
    run_holds(run, i);
}

/// A connection lasts until something fails: as long as no read and no write
/// has failed, neither loop has ended, no socket is shut down, the flag is down
/// and the channel is open. And once something has failed in a loop, that loop
/// does nothing more but to raise the flag and end.
pub proof fn connection_lasts_until_a_failure(run: Seq<PipeState>, i: int)
    requires
        is_run(run),
        0 <= i < run.len(),
    ensures
        ending_holds(run[i]),
        !run[i].request_failed && !run[i].request_broken ==> !(run[i].request is MarkFailed)
            && !(run[i].request is MarkBroken) && !(run[i].request is ShutDown) && !(
        run[i].request is LetGo),
        !run[i].response_failed && !run[i].response_broken ==> !(run[i].response is MarkFailed)
            && !(run[i].response is MarkBroken) && !(run[i].response is ShutDown) && !(
        run[i].response is LetGo) && !run[i].receiver_gone,
        !run[i].request_failed && !run[i].request_broken && !run[i].response_failed
            && !run[i].response_broken ==> !run[i].timed_out,
{
    run_holds(run, i);
}

/// The flag is what the loop that last raised or lowered it made of it: a
/// failure of either raises it, and bytes that either gets lower it. The loop
/// whose read fails shuts the sockets down when it finds the flag down, and
/// lets go of them when it finds it up.
pub proof fn flag_is_the_last_word(s: PipeState, outcome: Outcome, data: Seq<u8>, now: u64)
    ensures
        request_can(s, outcome, data, now) ==> {
            let t = request_moves(s, outcome, data, now);
            &&& t.timed_out == (if s.request is MarkFailed || s.request is MarkBroken {
                true
            } else if s.request is MarkAlive {
                false
            } else {
                s.timed_out
            })
            &&& s.request is MarkFailed ==> (if s.timed_out {
                t.request is LetGo
            } else {
                t.request is ShutDown
            })
        },
        response_can(s, outcome, data, now) ==> {
            let t = response_moves(s, outcome, data, now);
            &&& t.timed_out == (if s.response is MarkFailed || s.response is MarkBroken {
                true
            } else if s.response is MarkAlive {
                false
            } else {
                s.timed_out
            })
            &&& s.response is MarkFailed ==> (if s.timed_out {
                t.response is LetGo
            } else {
                t.response is ShutDown
            })
        },
{
}

/// Where the loop BACK => FRONT stands with a chunk, when `base` times were
/// measured by the time that the chunk came in, and `waiting` says whether a
/// token was in the channel then.
spec fn chunk_holds(s: PipeState, base: nat, waiting: bool) -> bool {
    match s.response {
        ResponseStep::TakeToken(_) => s.times.len() == base && (waiting ==> s.tokens.len() > 0),
        ResponseStep::Measure(_) => s.times.len() == base,
        _ => base <= s.times.len() <= base + 1 && (waiting ==> s.times.len() == base + 1),
    }
}

proof fn chunk_keeps(s: PipeState, t: PipeState, base: nat, waiting: bool)
    requires
        is_sound(s),
        takes(s, t),
        s.response !is Read,
        chunk_holds(s, base, waiting),
    ensures
        chunk_holds(t, base, waiting),
{
    if exists|outcome: Outcome, data: Seq<u8>, now: u64|
        request_can(s, outcome, data, now) && t == #[trigger] request_moves(
            s,
            outcome,
            data,
            now,
        ) {
        assert(t.response == s.response);
        assert(t.times == s.times);
        assert(t.tokens.len() >= s.tokens.len());
    }
}

proof fn chunk_holds_since(run: Seq<PipeState>, i: int, j: int, n: usize, data: Seq<u8>, now: u64)
    requires
        is_run(run),
        0 <= i < j < run.len(),
        run[i].response is Read,
        response_can(run[i], Outcome::Read(n), data, now),
        run[i + 1] == response_moves(run[i], Outcome::Read(n), data, now),
        forall|k: int| i < k < j ==> (#[trigger] run[k]).response !is Read,
    ensures
        chunk_holds(run[j], run[i].times.len(), run[i].tokens.len() > 0),
    decreases j - i,
{
    if j > i + 1 {
        chunk_holds_since(run, i, j - 1, n, data, now);
        run_holds(run, j - 1);
        assert(takes(run[j - 1], run[j]));
        chunk_keeps(run[j - 1], run[j], run[i].times.len(), run[i].tokens.len() > 0);
    }
}

/// An answer to a request is measured: however the loops take turns, and
/// however many bytes a read from the server took, from that read on one time
/// is put into the table when a token was in the channel as the read came back,
/// and it is there before the bytes are counted, written, or followed by the
/// next read. There is never more than one time for a read.
pub proof fn answer_is_measured(
    run: Seq<PipeState>,
    i: int,
    j: int,
    n: usize,
    data: Seq<u8>,
    now: u64,
)
    requires
        is_run(run),
        0 <= i < j < run.len(),
        run[i].response is Read,
        response_can(run[i], Outcome::Read(n), data, now),
        run[i + 1] == response_moves(run[i], Outcome::Read(n), data, now),
        forall|k: int| i < k < j ==> (#[trigger] run[k]).response !is Read,
    ensures
        run[i].times.len() <= run[j].times.len() <= run[i].times.len() + 1,
        run[i].tokens.len() > 0 && (run[j].response is Count || run[j].response is MarkAlive
            || run[j].response is Write || run[j].response is Read) ==> run[j].times.len()
            == run[i].times.len() + 1,
{
    chunk_holds_since(run, i, j, n, data, now);
}

/// What has been reported stays reported, and what has been sent stays sent:
/// a step of either loop only adds to the meters and to the traffic.
pub proof fn nothing_is_taken_back(s: PipeState, t: PipeState)
    requires
        takes(s, t),
    ensures
        s.times.is_prefix_of(t.times),
        s.counted <= t.counted,
        s.from_front.is_prefix_of(t.from_front),
        s.to_back.is_prefix_of(t.to_back),
        s.from_back.is_prefix_of(t.from_back),
        s.to_front.is_prefix_of(t.to_front),
        s.request.ended() ==> t.request == s.request,
        s.response.ended() ==> t.response == s.response,
        s.receiver_gone ==> t.receiver_gone,
{
}

} // verus!
