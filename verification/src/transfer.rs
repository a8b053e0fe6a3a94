//! The two halves of one connection of the event-driven proxy.
//!
//! A half reads from one end and writes to the other, whenever both are ready.
//! It is polled: each poll performs steps, beginning with `Await`, until the
//! half has to wait, is finished or has failed.
//!
//! The half that carries what the client sends marks when each chunk goes out
//! and leaves a token for it; the half that carries what the server sends takes
//! a token, if there is one, for a latency, and reports to the meters.

use crate::clock::StartTime;
use crate::io_error::{IoError, IoErrorKind};
use crate::link::{Tokens, TOKEN};
use vstd::prelude::*;

verus! {

/// The size of the buffer that all connections share, in bytes.
pub const BUFFER_LEN: usize = 65536;

/// An end of a connection.
#[derive(Clone, Copy, Debug, PartialEq, Eq, Structural)]
pub enum End {
    Front,
    Back,
}

/// What a half does next.
#[derive(Clone, Copy, Debug, PartialEq, Eq, Structural)]
pub enum TransferStep {
    /// Ask whether the reader has something and the writer has room; ask both,
    /// so that both wake the half up later.
    Await,
    /// Read into the buffer.
    Read,
    /// Shut down the writer for writing.
    ShutDown,
    /// Move the start time to the present.
    Stamp(usize),
    /// Take a token out of the channel, if there is one.
    TakeToken(usize),
    /// Put the time since the start time into the time table.
    Measure(usize),
    /// Add so many bytes to the byte meter.
    CountBytes(usize),
    /// Add one to the response meter.
    CountResponse(usize),
    /// Write so many bytes of the buffer.
    Write(usize),
    /// Put a token into the channel.
    Notify,
}

/// What came of a step.
#[derive(Debug)]
pub enum TransferOutcome {
    /// Whether the reader and the writer are ready.
    Ready { read: bool, write: bool },
    /// The read failed.
    ReadFailed(IoError),
    /// The read took so many bytes; none means the end of the stream.
    Read(usize),
    /// The writer could not be shut down.
    ShutDownFailed(IoError),
    /// The step was carried out.
    Done,
    /// A token was in the channel and has been taken out.
    TokenTaken,
    /// No token was to be had.
    NoToken,
    /// The write failed.
    WriteFailed(IoError),
    /// The write took so many bytes.
    Written(usize),
}

/// Where a poll stands.
#[derive(Debug)]
pub enum Progress {
    /// The poll goes on with this step.
    Next(TransferStep),
    /// The poll ends; the half has to be polled again later.
    NotReady,
    /// The half is finished and has transferred so many bytes.
    Finished(u64),
    /// The half has failed.
    Failed(IoError),
}

impl TransferStep {
    /// Whether `outcome` can be what came of this step. A write takes all it
    /// is given or fails.
    pub open spec fn answered_by(self, outcome: TransferOutcome) -> bool {
        match self {
            TransferStep::Await => outcome is Ready,
            TransferStep::Read => match outcome {
                TransferOutcome::ReadFailed(_) => true,
                TransferOutcome::Read(n) => n <= BUFFER_LEN,
                _ => false,
            },
            TransferStep::ShutDown => outcome is Done || outcome is ShutDownFailed,
            TransferStep::TakeToken(_) => outcome is TokenTaken || outcome is NoToken,
            TransferStep::Stamp(_)
            | TransferStep::Measure(_)
            | TransferStep::CountBytes(_)
            | TransferStep::CountResponse(_)
            | TransferStep::Notify => outcome is Done,
            TransferStep::Write(n) => match outcome {
                TransferOutcome::WriteFailed(_) => true,
                TransferOutcome::Written(m) => m == n,
                _ => false,
            },
        }
    }

    /// Tells whether `outcome` can be what came of this step.
    pub fn expects(&self, outcome: &TransferOutcome) -> (r: bool)
        ensures
            r == self.answered_by(*outcome),
    {
        match (*self, outcome) {
            (TransferStep::Await, TransferOutcome::Ready { .. }) => true,
            (TransferStep::Read, TransferOutcome::ReadFailed(_)) => true,
            (TransferStep::Read, TransferOutcome::Read(n)) => *n <= BUFFER_LEN,
            (TransferStep::ShutDown, TransferOutcome::Done) => true,
            (TransferStep::ShutDown, TransferOutcome::ShutDownFailed(_)) => true,
            (TransferStep::Stamp(_), TransferOutcome::Done) => true,
            (TransferStep::TakeToken(_), TransferOutcome::TokenTaken) => true,
            (TransferStep::TakeToken(_), TransferOutcome::NoToken) => true,
            (TransferStep::Measure(_), TransferOutcome::Done) => true,
            (TransferStep::CountBytes(_), TransferOutcome::Done) => true,
            (TransferStep::CountResponse(_), TransferOutcome::Done) => true,
            (TransferStep::Notify, TransferOutcome::Done) => true,
            (TransferStep::Write(_), TransferOutcome::WriteFailed(_)) => true,
            (TransferStep::Write(n), TransferOutcome::Written(m)) => *m == n,
            _ => false,
        }
    }

    /// The start time after this step, where `now` is what the clock shows.
    pub open spec fn start_after(self, start: nat, now: u64) -> nat {
        match self {
            TransferStep::Stamp(_) => now as nat,
            _ => start,
        }
    }

    /// Performs the step on the start time, with the clock at `now`.
    pub fn perform_stamp_at(&self, start_time: &mut StartTime, now: u64) -> (outcome:
        TransferOutcome)
        requires
            self is Stamp,
        ensures
            final(start_time)@ == self.start_after(old(start_time)@, now),
            final(start_time)@ == now,
            outcome is Done,
            self.answered_by(outcome),
    {
        start_time.stamp_at(now);
        TransferOutcome::Done
    }

    /// Performs the step on the start time, and returns what the clock showed
    /// beside what came of it.
    pub fn perform_stamp(&self, start_time: &mut StartTime) -> (r: (TransferOutcome, u64))
        requires
            self is Stamp,
        ensures
            final(start_time)@ == self.start_after(old(start_time)@, r.1),
            final(start_time)@ == r.1,
            r.0 is Done,
            self.answered_by(r.0),
    {
        let now: u64 = start_time.stamp();
        (TransferOutcome::Done, now)
    }

    /// The channel after this step.
    pub open spec fn tokens_after(self, tokens: Seq<u8>) -> Seq<u8> {
        match self {
            TransferStep::Notify => tokens.push(TOKEN),
            TransferStep::TakeToken(_) => if tokens.len() > 0 {
                tokens.skip(1)
            } else {
                tokens
            },
            _ => tokens,
        }
    }

    /// What comes of this step on the channel.
    pub open spec fn tokens_outcome(self, tokens: Seq<u8>) -> TransferOutcome {
        match self {
            TransferStep::TakeToken(_) => if tokens.len() > 0 {
                TransferOutcome::TokenTaken
            } else {
                TransferOutcome::NoToken
            },
            _ => TransferOutcome::Done,
        }
    }

    /// Performs a step on the channel; nothing comes of putting a token into it
    /// when the receiver is gone.
    pub fn perform_tokens(&self, tokens: &mut Tokens) -> (r: Option<TransferOutcome>)
        requires
            self is Notify || self is TakeToken,
        ensures
            final(tokens).is_disconnected() == old(tokens).is_disconnected(),
            match r {
                Some(outcome) => {
                    &&& self is TakeToken || !old(tokens).is_disconnected()
                    &&& final(tokens)@ == self.tokens_after(old(tokens)@)
                    &&& outcome == self.tokens_outcome(old(tokens)@)
                    &&& self.answered_by(outcome)
                    &&& self is Notify ==> outcome is Done && final(tokens)@ == old(tokens)@.push(
                        TOKEN,
                    )
                    &&& self is TakeToken && old(tokens)@.len() > 0 ==> outcome is TokenTaken
                        && final(tokens)@ == old(tokens)@.skip(1)
                    &&& self is TakeToken && old(tokens)@.len() == 0 ==> outcome is NoToken
                        && final(tokens)@ == old(tokens)@
                },
                None => {
                    &&& self is Notify && old(tokens).is_disconnected()
                    &&& final(tokens)@ == old(tokens)@
                },
            },
    {
        match self {
            TransferStep::Notify => match tokens.notify() {
                Ok(()) => Some(TransferOutcome::Done),
                Err(_) => None,
            },
            _ => if tokens.take() {
                Some(TransferOutcome::TokenTaken)
            } else {
                Some(TransferOutcome::NoToken)
            },
        }
    }
}

/// The number of bytes that an outcome says were written.
pub open spec fn written(outcome: TransferOutcome) -> nat {
    match outcome {
        TransferOutcome::Written(n) => n as nat,
        _ => 0,
    }
}

/// Where the poll of a half stands when `outcome` came of `step`. `metered`
/// says whether the half reports to the meters, and `amt` is what it has
/// written with this step.
pub open spec fn progress(
    metered: bool,
    amt: u64,
    step: TransferStep,
    outcome: TransferOutcome,
) -> Progress {
    match (step, outcome) {
        (TransferStep::Await, TransferOutcome::Ready { read, write }) => if read && write {
            Progress::Next(TransferStep::Read)
        } else {
            Progress::NotReady
        },
        (TransferStep::Read, TransferOutcome::ReadFailed(e)) => if e.kind is WouldBlock {
            Progress::NotReady
        } else {
            Progress::Failed(e)
        },
        (TransferStep::Read, TransferOutcome::Read(n)) => Progress::Next(
            if n == 0 {
                TransferStep::ShutDown
            } else if metered {
                TransferStep::TakeToken(n)
            } else {
                TransferStep::Stamp(n)
            },
        ),
        (TransferStep::ShutDown, TransferOutcome::ShutDownFailed(e)) => Progress::Failed(e),
        (TransferStep::ShutDown, _) => Progress::Finished(amt),
        (TransferStep::Stamp(n), _) => Progress::Next(TransferStep::Write(n)),
        (TransferStep::TakeToken(n), TransferOutcome::TokenTaken) => Progress::Next(
            TransferStep::Measure(n),
        ),
        (TransferStep::TakeToken(n), _) => Progress::Next(TransferStep::CountBytes(n)),
        (TransferStep::Measure(n), _) => Progress::Next(TransferStep::CountBytes(n)),
        (TransferStep::CountBytes(n), _) => Progress::Next(TransferStep::CountResponse(n)),
        (TransferStep::CountResponse(n), _) => Progress::Next(TransferStep::Write(n)),
        (TransferStep::Write(_), TransferOutcome::WriteFailed(e)) => Progress::Failed(e),
        (TransferStep::Write(_), _) => Progress::Next(
            if metered {
                TransferStep::Await
            } else {
                TransferStep::Notify
            },
        ),
        (TransferStep::Notify, _) => Progress::Next(TransferStep::Await),
        _ => Progress::NotReady,
    }
}

/// Adds what a step wrote, and says where the poll stands.
fn advance(metered: bool, amt: &mut u64, step: TransferStep, outcome: TransferOutcome) -> (p:
    Progress)
    requires
        step.answered_by(outcome),
        *old(amt) + written(outcome) <= u64::MAX,
    ensures
        *final(amt) == *old(amt) + written(outcome),
        p == progress(metered, *final(amt), step, outcome),
{
    match (step, outcome) {
        (TransferStep::Await, TransferOutcome::Ready { read, write }) => {
            if !read || !write {
                Progress::NotReady
            } else {
                Progress::Next(TransferStep::Read)
            }
        },
        (TransferStep::Read, TransferOutcome::ReadFailed(e)) => match e.kind {
            IoErrorKind::WouldBlock => Progress::NotReady,
            _ => Progress::Failed(e),
        },
        (TransferStep::Read, TransferOutcome::Read(n)) => {
            if n == 0 {
                Progress::Next(TransferStep::ShutDown)
            } else if metered {
                Progress::Next(TransferStep::TakeToken(n))
            } else {
                Progress::Next(TransferStep::Stamp(n))
            }
        },
        (TransferStep::ShutDown, TransferOutcome::ShutDownFailed(e)) => Progress::Failed(e),
        (TransferStep::ShutDown, _) => Progress::Finished(*amt),
        (TransferStep::Stamp(n), _) => Progress::Next(TransferStep::Write(n)),
        (TransferStep::TakeToken(n), TransferOutcome::TokenTaken) => Progress::Next(
            TransferStep::Measure(n),
        ),
        (TransferStep::TakeToken(n), _) => Progress::Next(TransferStep::CountBytes(n)),
        (TransferStep::Measure(n), _) => Progress::Next(TransferStep::CountBytes(n)),
        (TransferStep::CountBytes(n), _) => Progress::Next(TransferStep::CountResponse(n)),
        (TransferStep::CountResponse(n), _) => Progress::Next(TransferStep::Write(n)),
        (TransferStep::Write(_), TransferOutcome::WriteFailed(e)) => Progress::Failed(e),
        (TransferStep::Write(_), TransferOutcome::Written(n)) => {
            *amt = *amt + n as u64;
            if metered {
                Progress::Next(TransferStep::Await)
            } else {
                Progress::Next(TransferStep::Notify)
            }
        },
        (TransferStep::Notify, _) => Progress::Next(TransferStep::Await),
        (_, _) => Progress::NotReady,
    }
}

/// A half that reports nothing to the meters, but marks when it hands on what it
/// reads.
#[derive(Debug)]
pub struct TransferBackFront {
    pub reader: End,
    pub writer: End,
    /// The number of bytes written so far.
    pub amt: u64,
}

impl TransferBackFront {
    /// A half that has transferred nothing.
    pub fn new(reader: End, writer: End) -> (t: TransferBackFront)
        ensures
            t.reader == reader,
            t.writer == writer,
            t.amt == 0,
    {
        TransferBackFront { reader, writer, amt: 0 }
    }

    /// One turn of a poll: what follows when `outcome` came of `step`.
    ///
    /// The half waits unless both ends are ready, and when the read would
    /// have to wait after all. What was read is written after the start time
    /// has moved to the present, and a token is left for it. At the end of the
    /// stream the half shuts down the writer and is finished. Any other failure
    /// ends it.
    pub fn poll(&mut self, step: TransferStep, outcome: TransferOutcome) -> (p: Progress)
        requires
            step.answered_by(outcome),
            old(self).amt + written(outcome) <= u64::MAX,
        ensures
            final(self).amt == old(self).amt + written(outcome),
            outcome matches TransferOutcome::Written(n) ==> final(self).amt == old(self).amt + n,
            !(outcome is Written) ==> final(self).amt == old(self).amt,
            final(self).reader == old(self).reader,
            final(self).writer == old(self).writer,
            p == progress(false, final(self).amt, step, outcome),
    {
        advance(false, &mut self.amt, step, outcome)
    }
}

/// A half that reports to the meters: the bytes of each read, each read as one
/// response, and the latency when a token is waiting.
#[derive(Debug)]
pub struct TransferFrontBack {
    pub reader: End,
    pub writer: End,
    /// The number of bytes written so far.
    pub amt: u64,
}

impl TransferFrontBack {
    /// A half that has transferred nothing.
    pub fn new(reader: End, writer: End) -> (t: TransferFrontBack)
        ensures
            t.reader == reader,
            t.writer == writer,
            t.amt == 0,
    {
        TransferFrontBack { reader, writer, amt: 0 }
    }

    /// One turn of a poll, as for the other half, but what was read goes to
    /// the meters before it is written.
    pub fn poll(&mut self, step: TransferStep, outcome: TransferOutcome) -> (p: Progress)
        requires
            step.answered_by(outcome),
            old(self).amt + written(outcome) <= u64::MAX,
        ensures
            final(self).amt == old(self).amt + written(outcome),
            outcome matches TransferOutcome::Written(n) ==> final(self).amt == old(self).amt + n,
            !(outcome is Written) ==> final(self).amt == old(self).amt,
            final(self).reader == old(self).reader,
            final(self).writer == old(self).writer,
            p == progress(true, final(self).amt, step, outcome),
    {
        advance(true, &mut self.amt, step, outcome)
    }
}

} // verus!
