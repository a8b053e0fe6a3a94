//! What holds of a connection of the event-driven proxy, however its halves
//! are polled.

use crate::async_proxy::{bytes_after, responses_after, times_after};
use crate::clock::time_between;
use crate::io_error::IoError;
use crate::transfer::{progress, written, Progress, TransferOutcome, TransferStep};
use vstd::prelude::*;

verus! {

/// A half at one moment: where it stands, what it has reported, and what has
/// come in and gone out so far.
pub struct HalfState {
    pub metered: bool,
    pub at: Progress,
    pub amt: u64,
    /// What the half has added to the byte meter and the response meter.
    pub bytes: nat,
    pub responses: nat,
    /// The number of reads that took something, and of writes done.
    pub reads: nat,
    pub writes: nat,
    /// Whether a read has come to the end of the stream.
    pub at_end: bool,
    /// Whether the writer has been shut down for writing.
    pub shut: bool,
    /// The failure that the half has met: of a read, unless it would only have
    /// had to wait, of a write, or of the shutdown.
    pub failure: Option<IoError>,
    /// The bytes in the buffer.
    pub chunk: Seq<u8>,
    /// All bytes read and all bytes written.
    pub taken: Seq<u8>,
    pub given: Seq<u8>,
}

/// A half as it starts.
pub open spec fn half_starts(s: HalfState) -> bool {
    &&& s.at == Progress::Next(TransferStep::Await)
    &&& s.amt == 0
    &&& s.bytes == 0
    &&& s.responses == 0
    &&& s.reads == 0
    &&& s.writes == 0
    &&& !s.at_end
    &&& !s.shut
    &&& s.failure is None
    &&& s.taken == Seq::<u8>::empty()
    &&& s.given == Seq::<u8>::empty()
}

/// Whether the half can perform its step with this outcome, where `data` is
/// what a read takes.
pub open spec fn half_can(s: HalfState, outcome: TransferOutcome, data: Seq<u8>) -> bool {
    &&& s.at matches Progress::Next(step) && step.answered_by(outcome)
    &&& outcome matches TransferOutcome::Read(n) ==> data.len() == n
    &&& s.amt + written(outcome) <= u64::MAX
}

/// The half after it has performed its step.
pub open spec fn half_moves(s: HalfState, outcome: TransferOutcome, data: Seq<u8>) -> HalfState {
    let step = s.at->Next_0;
    let amt = (s.amt + written(outcome)) as u64;
    let t = HalfState {
        amt,
        at: progress(s.metered, amt, step, outcome),
        bytes: bytes_after(step, s.bytes),
        responses: responses_after(step, s.responses),
        ..s
    };
    match (step, outcome) {
        (TransferStep::Read, TransferOutcome::Read(n)) => HalfState {
            chunk: data,
            taken: s.taken + data,
            reads: if n == 0 {
                s.reads
            } else {
                s.reads + 1
            },
            at_end: n == 0,
            ..t
        },
        (TransferStep::Write(_), TransferOutcome::Written(_)) => HalfState {
            given: s.given + s.chunk,
            writes: s.writes + 1,
            ..t
        },
        (TransferStep::ShutDown, TransferOutcome::Done) => HalfState { shut: true, ..t },
        (TransferStep::Read, TransferOutcome::ReadFailed(e)) => if e.kind is WouldBlock {
            t
        } else {
            HalfState { failure: Some(e), ..t }
        },
        (TransferStep::Write(_), TransferOutcome::WriteFailed(e)) => HalfState {
            failure: Some(e),
            ..t
        },
        (TransferStep::ShutDown, TransferOutcome::ShutDownFailed(e)) => HalfState {
            failure: Some(e),
            ..t
        },
        _ => t,
    }
}

/// The bytes read and not yet written.
pub open spec fn in_hand(s: HalfState) -> Seq<u8> {
    match s.at {
        Progress::Next(TransferStep::Stamp(_))
        | Progress::Next(TransferStep::TakeToken(_))
        | Progress::Next(TransferStep::Measure(_))
        | Progress::Next(TransferStep::CountBytes(_))
        | Progress::Next(TransferStep::CountResponse(_))
        | Progress::Next(TransferStep::Write(_)) => s.chunk,
        _ => Seq::empty(),
    }
}

/// The half hands on what it reads, in order and without loss, its amount is
/// what it has written, and it is finished only once the stream is at its end,
/// after which it reads no more.
pub open spec fn forwarding_holds(s: HalfState) -> bool {
    &&& s.amt == s.given.len()
    &&& s.at !is Failed ==> s.taken == s.given + in_hand(s)
    &&& s.given.is_prefix_of(s.taken)
    &&& s.at matches Progress::Finished(amt) ==> amt == s.amt && s.given == s.taken
    &&& s.at_end ==> match s.at {
        Progress::Next(step) => step is ShutDown,
        Progress::NotReady => false,
        _ => true,
    }
    &&& s.at is Finished ==> s.at_end
    &&& s.at matches Progress::Next(step) ==> (step is ShutDown ==> s.at_end)
}

/// A half is finished when its writer has been shut down for writing, and only
/// then; and it has failed when it has met a failure, with that failure, and
/// only then.
pub open spec fn ending_holds(s: HalfState) -> bool {
    &&& s.at is Finished <==> s.shut
    &&& s.at is Failed <==> s.failure is Some
    &&& s.at matches Progress::Failed(e) ==> s.failure == Some(e)
}

/// Each read that took something is one write: done, still to be done, or
/// failed.
pub open spec fn pace_holds(s: HalfState) -> bool {
    match s.at {
        Progress::Failed(_) => s.writes <= s.reads <= s.writes + 1,
        Progress::Next(TransferStep::Stamp(_))
        | Progress::Next(TransferStep::TakeToken(_))
        | Progress::Next(TransferStep::Measure(_))
        | Progress::Next(TransferStep::CountBytes(_))
        | Progress::Next(TransferStep::CountResponse(_))
        | Progress::Next(TransferStep::Write(_)) => s.reads == s.writes + 1,
        _ => s.reads == s.writes,
    }
}

/// The number of bytes that a half has read and has yet to report.
pub open spec fn unreported(s: HalfState) -> nat {
    match s.at {
        Progress::Next(TransferStep::TakeToken(n))
        | Progress::Next(TransferStep::Measure(n))
        | Progress::Next(TransferStep::CountBytes(n)) => n as nat,
        _ => 0,
    }
}

/// The number of reads that a half has yet to report as a response.
pub open spec fn unanswered(s: HalfState) -> nat {
    match s.at {
        Progress::Next(TransferStep::TakeToken(_))
        | Progress::Next(TransferStep::Measure(_))
        | Progress::Next(TransferStep::CountBytes(_))
        | Progress::Next(TransferStep::CountResponse(_)) => 1,
        _ => 0,
    }
}

/// A half that reports to the meters reports every byte, and every read as one
/// response; the other reports nothing.
pub open spec fn metering_holds(s: HalfState) -> bool {
    if s.metered {
        s.bytes + unreported(s) == s.taken.len() && s.responses + unanswered(s) == s.reads
    } else {
        s.bytes == 0 && s.responses == 0 && unanswered(s) == 0
    }
}

/// The size that a step carries is the size of the chunk in the buffer, and
/// each half has the steps that are its own.
spec fn sizes_hold(s: HalfState) -> bool {
    match s.at {
        Progress::Next(TransferStep::TakeToken(n))
        | Progress::Next(TransferStep::Measure(n))
        | Progress::Next(TransferStep::CountBytes(n))
        | Progress::Next(TransferStep::CountResponse(n)) => s.metered && s.chunk.len() == n,
        Progress::Next(TransferStep::Stamp(n)) => !s.metered && s.chunk.len() == n,
        Progress::Next(TransferStep::Notify) => !s.metered,
        Progress::Next(TransferStep::Write(n)) => s.chunk.len() == n,
        _ => true,
    }
}

spec fn half_is_sound(s: HalfState) -> bool {
    &&& forwarding_holds(s)
    &&& metering_holds(s)
    &&& ending_holds(s)
    &&& pace_holds(s)
    &&& sizes_hold(s)
}

proof fn half_keeps(s: HalfState, outcome: TransferOutcome, data: Seq<u8>)
    requires
        half_is_sound(s),
        half_can(s, outcome, data),
    ensures
        half_is_sound(half_moves(s, outcome, data)),
{
    let t = half_moves(s, outcome, data);
    let step = s.at->Next_0;
    if step is Read {
        assert(s.given + in_hand(s) =~= s.given);
        if outcome is Read && data.len() == 0 {
            assert(s.taken + data =~= s.taken);
            assert(t.given + in_hand(t) =~= t.given);
        }
    }
    if step is Write {
        assert(t.given + in_hand(t) =~= t.given);
    }
    if step is ShutDown || step is Await || step is Notify {
        assert(s.given + in_hand(s) =~= s.given);
        assert(t.given + in_hand(t) =~= t.given);
    }
}

/// A connection at one moment: its halves, what they share, and the times they
/// have put into the time table.
pub struct ClientState {
    /// The half that carries what the server sends.
    pub half1: HalfState,
    /// The half that carries what the client sends.
    pub half2: HalfState,
    /// The start time, all the times that it was moved to so far, and the last
    /// time that the clock has shown.
    pub start_time: nat,
    pub stamps: Seq<nat>,
    pub clock: nat,
    pub tokens: Seq<u8>,
    pub times: Seq<u64>,
}

/// A connection as it starts.
pub open spec fn starts(s: ClientState) -> bool {
    &&& half_starts(s.half1) && s.half1.metered
    &&& half_starts(s.half2) && !s.half2.metered
    &&& s.start_time == 0
    &&& s.stamps == Seq::<nat>::empty()
    &&& s.tokens == Seq::<u8>::empty()
    &&& s.times == Seq::<u64>::empty()
}

/// The half that is named: the first or the second.
pub open spec fn half_of(s: ClientState, first: bool) -> HalfState {
    if first {
        s.half1
    } else {
        s.half2
    }
}

/// The connection with one of its halves exchanged.
pub open spec fn with_half(s: ClientState, first: bool, half: HalfState) -> ClientState {
    if first {
        ClientState { half1: half, ..s }
    } else {
        ClientState { half2: half, ..s }
    }
}

/// Whether one of the halves can perform its step with this outcome, where
/// `data` is what a read takes and `now` what the clock shows.
pub open spec fn can(
    s: ClientState,
    first: bool,
    outcome: TransferOutcome,
    data: Seq<u8>,
    now: u64,
) -> bool {
    let step = half_of(s, first).at->Next_0;
    &&& half_can(half_of(s, first), outcome, data)
    &&& step is TakeToken || step is Notify ==> outcome == step.tokens_outcome(s.tokens)
    &&& step is Stamp || step is Measure ==> s.clock <= now
}

/// The connection after one of its halves has performed its step.
pub open spec fn moves(
    s: ClientState,
    first: bool,
    outcome: TransferOutcome,
    data: Seq<u8>,
    now: u64,
) -> ClientState {
    let half = half_of(s, first);
    let step = half.at->Next_0;
    let t = with_half(s, first, half_moves(half, outcome, data));
    ClientState {
        start_time: step.start_after(s.start_time, now),
        stamps: if step is Stamp {
            s.stamps.push(now as nat)
        } else {
            s.stamps
        },
        clock: if step is Stamp || step is Measure {
            now as nat
        } else {
            s.clock
        },
        tokens: step.tokens_after(s.tokens),
        times: times_after(step, s.times, (now - s.start_time) as u64),
        ..t
    }
}

/// The connection after a half that had to wait is polled again.
pub open spec fn polled_again(s: ClientState, first: bool) -> ClientState {
    with_half(
        s,
        first,
        (HalfState { at: Progress::Next(TransferStep::Await), ..half_of(s, first) }),
    )
}

/// Whether the connection goes from `s` to `t` in one step of a half, or by a
/// half being polled again.
pub open spec fn takes(s: ClientState, t: ClientState) -> bool {
    ||| exists|first: bool, outcome: TransferOutcome, data: Seq<u8>, now: u64|
        can(s, first, outcome, data, now) && t == #[trigger] moves(s, first, outcome, data, now)
    ||| exists|first: bool|
        half_of(s, first).at is NotReady && t == #[trigger] polled_again(s, first)
}

/// The life of a connection.
pub open spec fn is_run(run: Seq<ClientState>) -> bool {
    &&& run.len() > 0
    &&& starts(run[0])
    &&& forall|i: int| 0 < i < run.len() ==> takes(run[i - 1], #[trigger] run[i])
}

/// Whether the half is about to take a latency.
pub open spec fn is_measuring(s: HalfState) -> bool {
    s.at matches Progress::Next(step) && step is Measure
}

/// Each chunk that was handed to the server is one token: about to be put into
/// the channel, in it, taken out for a measurement, or measured.
pub open spec fn latency_holds(s: ClientState) -> bool {
    &&& s.half2.writes == s.times.len() + s.tokens.len() + (if is_measuring(
        s.half1,
    ) {
        1nat
    } else {
        0
    }) + (if s.half2.at == Progress::Next(TransferStep::Notify) {
        1nat
    } else {
        0
    })
    &&& s.start_time <= s.clock
}

/// The start time is the last stamp, and each chunk that was read from the
/// client has been stamped once, or is about to be.
pub open spec fn stamping_holds(s: ClientState) -> bool {
    &&& s.start_time == (if s.stamps.len() > 0 {
        s.stamps.last()
    } else {
        0
    })
    &&& s.half2.reads == s.stamps.len() + (match s.half2.at {
        Progress::Next(TransferStep::Stamp(_)) => 1nat,
        _ => 0,
    })
}

/// All that is kept from step to step.
pub closed spec fn is_sound(s: ClientState) -> bool {
    &&& half_is_sound(s.half1) && s.half1.metered
    &&& half_is_sound(s.half2) && !s.half2.metered
    &&& latency_holds(s)
    &&& stamping_holds(s)
}

/// A connection is sound as it starts.
pub proof fn start_is_sound(s: ClientState)
    requires
        starts(s),
    ensures
        is_sound(s),
{
    assert(s.half1.given + in_hand(s.half1) =~= s.half1.taken);
    assert(s.half2.given + in_hand(s.half2) =~= s.half2.taken);
}

/// A sound connection stays sound, whichever half takes the next step.
pub proof fn step_keeps_sound(s: ClientState, t: ClientState)
    requires
        is_sound(s),
        takes(s, t),
    ensures
        is_sound(t),
{
    if exists|first: bool, outcome: TransferOutcome, data: Seq<u8>, now: u64|
        can(s, first, outcome, data, now) && t == #[trigger] moves(
            s,
            first,
            outcome,
            data,
            now,
        ) {
        let (first, outcome, data, now) = choose|
            first: bool,
            outcome: TransferOutcome,
            data: Seq<u8>,
            now: u64,
        |
            can(s, first, outcome, data, now) && t == #[trigger] moves(
                s,
                first,
                outcome,
                data,
                now,
            );
        half_keeps(half_of(s, first), outcome, data);
    }
}

/// What being sound comes to.
pub proof fn sound_means(s: ClientState)
    requires
        is_sound(s),
    ensures
        s.half1.metered,
        !s.half2.metered,
        forwarding_holds(s.half1),
        forwarding_holds(s.half2),
        metering_holds(s.half1),
        metering_holds(s.half2),
        ending_holds(s.half1),
        ending_holds(s.half2),
        pace_holds(s.half1),
        pace_holds(s.half2),
        latency_holds(s),
        stamping_holds(s),
{
}

proof fn run_holds(run: Seq<ClientState>, i: int)
    requires
        is_run(run),
        0 <= i < run.len(),
    ensures
        is_sound(run[i]),
    decreases i,
{
    if i == 0 {
        start_is_sound(run[0]);
    } else {
        run_holds(run, i - 1);
        assert(takes(run[i - 1], run[i]));
        step_keeps_sound(run[i - 1], run[i]);
    }
}

/// The proxy is transparent: however the halves are polled, what each has
/// written is what it has read, up to the bytes in hand; it is finished only at
/// the end of the stream, when it has written everything, and says how much
/// that was.
pub proof fn proxy_is_transparent(run: Seq<ClientState>, i: int, first: bool)
    requires
        is_run(run),
        0 <= i < run.len(),
    ensures
        forwarding_holds(half_of(run[i], first)),
        half_of(run[i], first).at matches Progress::Finished(amt) ==> {
            &&& half_of(run[i], first).at_end
            &&& half_of(run[i], first).given == half_of(run[i], first).taken
            &&& amt == half_of(run[i], first).given.len()
        },
{
    run_holds(run, i);
}

/// However the halves are polled, each byte that the server sends is reported
/// once and before it is written, and so is each read as a response; what the
/// client sends is not reported.
pub proof fn what_the_server_sends_is_metered(run: Seq<ClientState>, i: int)
    requires
        is_run(run),
        0 <= i < run.len(),
    ensures
        metering_holds(run[i].half1),
        run[i].half1.metered,
        run[i].half1.given.len() <= run[i].half1.bytes,
        run[i].half1.at is Finished ==> run[i].half1.bytes == run[i].half1.amt,
        run[i].half2.bytes == 0,
        run[i].half2.responses == 0,
{
    run_holds(run, i);
}

/// However the halves are polled, there is never more than one latency for a
/// chunk that the server was sent; those without one are the tokens still on
/// their way.
pub proof fn one_latency_for_a_request(run: Seq<ClientState>, i: int)
    requires
        is_run(run),
        0 <= i < run.len(),
    ensures
        latency_holds(run[i]),
        run[i].times.len() <= run[i].half2.writes,
{
    run_holds(run, i);
}

/// As long as the clock does not go back, a latency is the time from the last
/// stamp to the present, and there is one to take.
pub proof fn latency_is_the_time_since_the_stamp(
    run: Seq<ClientState>,
    i: int,
    outcome: TransferOutcome,
    now: u64,
)
    requires
        is_run(run),
        0 <= i < run.len(),
        is_measuring(run[i].half1),
        can(run[i], true, outcome, Seq::empty(), now),
    ensures
        run[i].stamps.len() > 0,
        run[i].start_time == run[i].stamps.last(),
        time_between(run[i].start_time, now) == Some((now - run[i].start_time) as u64),
        moves(run[i], true, outcome, Seq::empty(), now).times == run[i].times.push(
            (now - run[i].start_time) as u64,
        ),
{
    run_holds(run, i);
}

/// Each chunk that the client sends is stamped once, before it is written, and
/// the start time is the last stamp.
pub proof fn each_request_is_stamped(run: Seq<ClientState>, i: int)
    requires
        is_run(run),
        0 <= i < run.len(),
    ensures
        stamping_holds(run[i]),
        run[i].half2.writes <= run[i].stamps.len() <= run[i].half2.reads,
{
    run_holds(run, i);
}

/// A half goes on until the end of the stream or a failure: it is finished
/// exactly when its writer has been shut down for writing, which it does at the
/// end of the stream; and it has failed exactly when a read, a write or the
/// shutdown has failed, with that failure. A read that would have to wait is no
/// failure, for neither half.
pub proof fn half_ends_only_with_a_reason(run: Seq<ClientState>, i: int, first: bool)
    requires
        is_run(run),
        0 <= i < run.len(),
    ensures
        ending_holds(half_of(run[i], first)),
        half_of(run[i], first).at is Finished <==> half_of(run[i], first).shut,
        half_of(run[i], first).at is Failed <==> half_of(run[i], first).failure is Some,
        half_of(run[i], first).shut ==> half_of(run[i], first).at_end,
        half_of(run[i], first).at_end && half_of(run[i], first).failure is None
            && !half_of(run[i], first).shut ==> half_of(run[i], first).at == Progress::Next(
            TransferStep::ShutDown,
        ),
{
    run_holds(run, i);
}

/// Every chunk that is read is written by one write.
pub proof fn each_read_is_one_write(run: Seq<ClientState>, i: int, first: bool)
    requires
        is_run(run),
        0 <= i < run.len(),
    ensures
        pace_holds(half_of(run[i], first)),
        half_of(run[i], first).at is Finished ==> half_of(run[i], first).reads == half_of(
            run[i],
            first,
        ).writes,
{
    run_holds(run, i);
}

/// Where the metered half stands with a chunk, when `base` times were measured
/// by the time that the chunk came in, and `waiting` says whether a token was in
/// the channel then.
spec fn chunk_holds(s: ClientState, base: nat, waiting: bool) -> bool {
    match s.half1.at {
        Progress::Next(TransferStep::TakeToken(_)) => s.times.len() == base && (waiting
            ==> s.tokens.len() > 0),
        Progress::Next(TransferStep::Measure(_)) => s.times.len() == base,
        _ => base <= s.times.len() <= base + 1 && (waiting ==> s.times.len() == base + 1),
    }
}

proof fn chunk_keeps(s: ClientState, t: ClientState, base: nat, waiting: bool)
    requires
        is_sound(s),
        takes(s, t),
        s.half1.at != Progress::Next(TransferStep::Read),
        chunk_holds(s, base, waiting),
    ensures
        chunk_holds(t, base, waiting),
{
    if exists|first: bool, outcome: TransferOutcome, data: Seq<u8>, now: u64|
        can(s, first, outcome, data, now) && t == #[trigger] moves(
            s,
            first,
            outcome,
            data,
            now,
        ) {
        let (first, outcome, data, now) = choose|
            first: bool,
            outcome: TransferOutcome,
            data: Seq<u8>,
            now: u64,
        |
            can(s, first, outcome, data, now) && t == #[trigger] moves(
                s,
                first,
                outcome,
                data,
                now,
            );
        if !first {
            assert(t.half1 == s.half1);
            assert(t.times == s.times);
            assert(t.tokens.len() >= s.tokens.len());
        }
    }
}

proof fn chunk_holds_since(run: Seq<ClientState>, i: int, j: int, n: usize, data: Seq<u8>, now: u64)
    requires
        is_run(run),
        0 <= i < j < run.len(),
        run[i].half1.at == Progress::Next(TransferStep::Read),
        n > 0,
        can(run[i], true, TransferOutcome::Read(n), data, now),
        run[i + 1] == moves(run[i], true, TransferOutcome::Read(n), data, now),
        forall|k: int|
            i < k < j ==> (#[trigger] run[k]).half1.at != Progress::Next(TransferStep::Read),
    ensures
        chunk_holds(run[j], run[i].times.len(), run[i].tokens.len() > 0),
    decreases j - i,
{
    run_holds(run, i);
    if j > i + 1 {
        chunk_holds_since(run, i, j - 1, n, data, now);
        run_holds(run, j - 1);
        assert(takes(run[j - 1], run[j]));
        chunk_keeps(run[j - 1], run[j], run[i].times.len(), run[i].tokens.len() > 0);
    }
}

/// An answer to a request is measured: however the halves are polled, and
/// however many bytes a read from the server took, from that read on one time
/// is put into the table when a token was in the channel as the read came back,
/// and it is there before the bytes are counted, written, or followed by the
/// next read. There is never more than one time for a read.
pub proof fn answer_is_measured(
    run: Seq<ClientState>,
    i: int,
    j: int,
    n: usize,
    data: Seq<u8>,
    now: u64,
)
    requires
        is_run(run),
        0 <= i < j < run.len(),
        run[i].half1.at == Progress::Next(TransferStep::Read),
        n > 0,
        can(run[i], true, TransferOutcome::Read(n), data, now),
        run[i + 1] == moves(run[i], true, TransferOutcome::Read(n), data, now),
        forall|k: int|
            i < k < j ==> (#[trigger] run[k]).half1.at != Progress::Next(TransferStep::Read),
    ensures
        run[i].times.len() <= run[j].times.len() <= run[i].times.len() + 1,
        run[i].tokens.len() > 0 && (run[j].half1.at matches Progress::Next(step) && (
        step is CountBytes || step is CountResponse || step is Write || step is Await
            || step is Read)) ==> run[j].times.len() == run[i].times.len() + 1,
{
    chunk_holds_since(run, i, j, n, data, now);
}

/// A step only adds to the meters and to the traffic.
pub proof fn nothing_is_taken_back(s: ClientState, t: ClientState)
    requires
        takes(s, t),
    ensures
        s.times.is_prefix_of(t.times),
        s.half1.bytes <= t.half1.bytes,
        s.half1.responses <= t.half1.responses,
        s.half1.taken.is_prefix_of(t.half1.taken),
        s.half1.given.is_prefix_of(t.half1.given),
        s.half2.taken.is_prefix_of(t.half2.taken),
        s.half2.given.is_prefix_of(t.half2.given),
{
}

} // verus!
