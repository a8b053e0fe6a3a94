//! The two copying loops of one connection.
//!
//! One loop carries requests from the front to the back and marks when each
//! goes out; the other carries responses from the back to the front, counts
//! their bytes and takes the latency. A loop is a step to perform and the rule
//! that turns the outcome of a step into the next one. Each step is a single
//! operation on a socket, on a meter, or on what the two loops share:
//!
//! * a flag, down at first, that a loop raises when it gives up;
//! * the start time of the last request;
//! * a channel with one token for each request handed on.

use crate::clock::StartTime;
use crate::link::{TimedOut, Tokens, TOKEN};
use crate::meters::{SharedCounter, SharedTimeVec};
use vstd::prelude::*;

verus! {

/// How much one read can take, in bytes.
pub const BUFFER_LEN: usize = 1024;

/// How long a read waits, in seconds.
pub const READ_TIMEOUT_SECS: u64 = 1000;

/// What came of a step.
#[derive(Clone, Copy, Debug, PartialEq, Eq, Structural)]
pub enum Outcome {
    /// The read failed or timed out.
    ReadFailed,
    /// The read took so many bytes.
    Read(usize),
    /// The flag was raised, and this is what it was before.
    WasRaised(bool),
    /// The step was carried out.
    Done,
    /// A token was in the channel and has been taken out.
    TokenTaken,
    /// No token was to be had.
    NoToken,
    /// The write failed.
    WriteFailed,
    /// The write took so many bytes.
    Written(usize),
}

/// What the loop FRONT => BACK does next.
#[derive(Clone, Copy, Debug, PartialEq, Eq, Structural)]
pub enum RequestStep {
    /// Read from the front into the buffer.
    Read,
    /// Raise the flag and look at what it was.
    MarkFailed,
    /// Take hold of the start time and move it to the present; keep hold of it
    /// up to the next read.
    Stamp(usize),
    /// Lower the flag.
    MarkAlive(usize),
    /// Write this range of the buffer to the back.
    Write { from: usize, to: usize },
    /// Put a token into the channel.
    Notify,
    /// Raise the flag.
    MarkBroken,
    /// Shut down both sockets and end.
    ShutDown,
    /// End.
    LetGo,
}

/// What the loop BACK => FRONT does next.
#[derive(Clone, Copy, Debug, PartialEq, Eq, Structural)]
pub enum ResponseStep {
    /// Read from the back into the buffer.
    Read,
    /// Raise the flag and look at what it was.
    MarkFailed,
    /// Take a token out of the channel, if there is one.
    TakeToken(usize),
    /// Put the time since the start time into the time table.
    Measure(usize),
    /// Add so many bytes to the byte counter.
    Count(usize),
    /// Lower the flag.
    MarkAlive(usize),
    /// Write this range of the buffer to the front.
    Write { from: usize, to: usize },
    /// Raise the flag.
    MarkBroken,
    /// Shut down both sockets and end.
    ShutDown,
    /// End.
    LetGo,
}

impl RequestStep {
    /// Whether `outcome` can be what came of this step.
    pub open spec fn answered_by(self, outcome: Outcome) -> bool {
        match self {
            RequestStep::Read => match outcome {
                Outcome::ReadFailed => true,
                Outcome::Read(n) => n <= BUFFER_LEN,
                _ => false,
            },
            RequestStep::MarkFailed => outcome is WasRaised,
            RequestStep::Stamp(_)
            | RequestStep::MarkAlive(_)
            | RequestStep::Notify
            | RequestStep::MarkBroken => outcome is Done,
            RequestStep::Write { from, to } => match outcome {
                Outcome::WriteFailed => true,
                Outcome::Written(m) => m <= to - from,
                _ => false,
            },
            RequestStep::ShutDown | RequestStep::LetGo => false,
        }
    }

    /// The step after this one when `outcome` came of it.
    pub open spec fn then_after(self, outcome: Outcome) -> RequestStep {
        match (self, outcome) {
            (RequestStep::Read, Outcome::ReadFailed) => RequestStep::MarkFailed,
            (RequestStep::Read, Outcome::Read(n)) => RequestStep::Stamp(n),
            (RequestStep::MarkFailed, Outcome::WasRaised(true)) => RequestStep::LetGo,
            (RequestStep::MarkFailed, Outcome::WasRaised(false)) => RequestStep::ShutDown,
            (RequestStep::Stamp(n), Outcome::Done) => RequestStep::MarkAlive(n),
            (RequestStep::MarkAlive(n), Outcome::Done) => RequestStep::Write { from: 0, to: n },
            (RequestStep::Write { from, to }, Outcome::Written(m)) => if from + m >= to {
                RequestStep::Notify
            } else if m > 0 {
                RequestStep::Write { from: (from + m) as usize, to }
            } else {
                RequestStep::MarkBroken
            },
            (RequestStep::Write { .. }, Outcome::WriteFailed) => RequestStep::MarkBroken,
            (RequestStep::Notify, Outcome::Done) => RequestStep::Read,
            (RequestStep::MarkBroken, Outcome::Done) => RequestStep::ShutDown,
            _ => self,
        }
    }

    /// Whether the loop has come to its end.
    pub open spec fn ended(self) -> bool {
        self is ShutDown || self is LetGo
    }

    /// Tells whether `outcome` can be what came of this step.
    pub fn expects(&self, outcome: &Outcome) -> (r: bool)
        ensures
            r == self.answered_by(*outcome),
    {
        match (*self, *outcome) {
            (RequestStep::Read, Outcome::ReadFailed) => true,
            (RequestStep::Read, Outcome::Read(n)) => n <= BUFFER_LEN,
            (RequestStep::MarkFailed, Outcome::WasRaised(_)) => true,
            (RequestStep::Stamp(_), Outcome::Done) => true,
            (RequestStep::MarkAlive(_), Outcome::Done) => true,
            (RequestStep::Notify, Outcome::Done) => true,
            (RequestStep::MarkBroken, Outcome::Done) => true,
            (RequestStep::Write { .. }, Outcome::WriteFailed) => true,
            (RequestStep::Write { from, to }, Outcome::Written(m)) => from <= to && m <= to - from,
            _ => false,
        }
    }

    /// Whether this step is one on the flag.
    pub open spec fn touches_flag(self) -> bool {
        self is MarkFailed || self is MarkAlive || self is MarkBroken
    }

    /// The flag after this step, where `raised` says whether it was up before.
    pub open spec fn flag_after(self, raised: bool) -> bool {
        match self {
            RequestStep::MarkFailed | RequestStep::MarkBroken => true,
            RequestStep::MarkAlive(_) => false,
            _ => raised,
        }
    }

    /// What comes of this step on the flag.
    pub open spec fn flag_outcome(self, raised: bool) -> Outcome {
        match self {
            RequestStep::MarkFailed => Outcome::WasRaised(raised),
            _ => Outcome::Done,
        }
    }

    /// Performs a step on the flag.
    pub fn perform_flag(&self, timed_out: &mut TimedOut) -> (outcome: Outcome)
        requires
            self.touches_flag(),
        ensures
            final(timed_out)@ == self.flag_after(old(timed_out)@),
            outcome == self.flag_outcome(old(timed_out)@),
            self.answered_by(outcome),
            final(timed_out)@ == !(self is MarkAlive),
            self is MarkFailed ==> outcome == Outcome::WasRaised(old(timed_out)@),
            !(self is MarkFailed) ==> outcome is Done,
    {
        match self {
            RequestStep::MarkFailed => Outcome::WasRaised(timed_out.mark_failed()),
            RequestStep::MarkAlive(_) => {
                timed_out.mark_alive();
                Outcome::Done
            },
            _ => {
                timed_out.mark_broken();
                Outcome::Done
            },
        }
    }

    /// The start time after this step, where `now` is what the clock shows.
    pub open spec fn start_after(self, start: nat, now: u64) -> nat {
        match self {
            RequestStep::Stamp(_) => now as nat,
            _ => start,
        }
    }

    /// Performs the step on the start time, with the clock at `now`.
    pub fn perform_stamp_at(&self, start_time: &mut StartTime, now: u64) -> (outcome: Outcome)
        requires
            self is Stamp,
        ensures
            final(start_time)@ == self.start_after(old(start_time)@, now),
            final(start_time)@ == now,
            outcome is Done,
            self.answered_by(outcome),
    {
        start_time.stamp_at(now);
        Outcome::Done
    }

    /// Performs the step on the start time, and returns what the clock showed
    /// beside what came of it.
    pub fn perform_stamp(&self, start_time: &mut StartTime) -> (r: (Outcome, u64))
        requires
            self is Stamp,
        ensures
            final(start_time)@ == self.start_after(old(start_time)@, r.1),
            final(start_time)@ == r.1,
            r.0 is Done,
            self.answered_by(r.0),
    {
        let now: u64 = start_time.stamp();
        (Outcome::Done, now)
    }

    /// The channel after this step.
    pub open spec fn tokens_after(self, tokens: Seq<u8>) -> Seq<u8> {
        match self {
            RequestStep::Notify => tokens.push(TOKEN),
            _ => tokens,
        }
    }

    /// Performs the step on the channel; nothing comes of it when the receiver
    /// is gone.
    pub fn perform_notify(&self, tokens: &mut Tokens) -> (r: Option<Outcome>)
        requires
            self is Notify,
        ensures
            final(tokens).is_disconnected() == old(tokens).is_disconnected(),
            match r {
                Some(outcome) => {
                    &&& !old(tokens).is_disconnected()
                    &&& final(tokens)@ == self.tokens_after(old(tokens)@)
                    &&& final(tokens)@ == old(tokens)@.push(TOKEN)
                    &&& self.answered_by(outcome)
                    &&& outcome is Done
                },
                None => old(tokens).is_disconnected() && final(tokens)@ == old(tokens)@,
            },
    {
        match tokens.notify() {
            Ok(()) => Some(Outcome::Done),
            Err(_) => None,
        }
    }
}

impl ResponseStep {
    /// Whether `outcome` can be what came of this step.
    pub open spec fn answered_by(self, outcome: Outcome) -> bool {
        match self {
            ResponseStep::Read => match outcome {
                Outcome::ReadFailed => true,
                Outcome::Read(n) => n <= BUFFER_LEN,
                _ => false,
            },
            ResponseStep::MarkFailed => outcome is WasRaised,
            ResponseStep::TakeToken(_) => outcome is TokenTaken || outcome is NoToken,
            ResponseStep::Measure(_)
            | ResponseStep::Count(_)
            | ResponseStep::MarkAlive(_)
            | ResponseStep::MarkBroken => outcome is Done,
            ResponseStep::Write { from, to } => match outcome {
                Outcome::WriteFailed => true,
                Outcome::Written(m) => m <= to - from,
                _ => false,
            },
            ResponseStep::ShutDown | ResponseStep::LetGo => false,
        }
    }

    /// The step after this one when `outcome` came of it.
    pub open spec fn then_after(self, outcome: Outcome) -> ResponseStep {
        match (self, outcome) {
            (ResponseStep::Read, Outcome::ReadFailed) => ResponseStep::MarkFailed,
            (ResponseStep::Read, Outcome::Read(n)) => ResponseStep::TakeToken(n),
            (ResponseStep::MarkFailed, Outcome::WasRaised(true)) => ResponseStep::LetGo,
            (ResponseStep::MarkFailed, Outcome::WasRaised(false)) => ResponseStep::ShutDown,
            (ResponseStep::TakeToken(n), Outcome::TokenTaken) => ResponseStep::Measure(n),
            (ResponseStep::TakeToken(n), Outcome::NoToken) => ResponseStep::Count(n),
            (ResponseStep::Measure(n), Outcome::Done) => ResponseStep::Count(n),
            (ResponseStep::Count(n), Outcome::Done) => ResponseStep::MarkAlive(n),
            (ResponseStep::MarkAlive(n), Outcome::Done) => ResponseStep::Write { from: 0, to: n },
            (ResponseStep::Write { from, to }, Outcome::Written(m)) => if from + m >= to {
                ResponseStep::Read
            } else if m > 0 {
                ResponseStep::Write { from: (from + m) as usize, to }
            } else {
                ResponseStep::MarkBroken
            },
            (ResponseStep::Write { .. }, Outcome::WriteFailed) => ResponseStep::MarkBroken,
            (ResponseStep::MarkBroken, Outcome::Done) => ResponseStep::ShutDown,
            _ => self,
        }
    }

    /// Whether the loop has come to its end.
    pub open spec fn ended(self) -> bool {
        self is ShutDown || self is LetGo
    }

    /// Tells whether `outcome` can be what came of this step.
    pub fn expects(&self, outcome: &Outcome) -> (r: bool)
        ensures
            r == self.answered_by(*outcome),
    {
        match (*self, *outcome) {
            (ResponseStep::Read, Outcome::ReadFailed) => true,
            (ResponseStep::Read, Outcome::Read(n)) => n <= BUFFER_LEN,
            (ResponseStep::MarkFailed, Outcome::WasRaised(_)) => true,
            (ResponseStep::TakeToken(_), Outcome::TokenTaken) => true,
            (ResponseStep::TakeToken(_), Outcome::NoToken) => true,
            (ResponseStep::Measure(_), Outcome::Done) => true,
            (ResponseStep::Count(_), Outcome::Done) => true,
            (ResponseStep::MarkAlive(_), Outcome::Done) => true,
            (ResponseStep::MarkBroken, Outcome::Done) => true,
            (ResponseStep::Write { .. }, Outcome::WriteFailed) => true,
            (ResponseStep::Write { from, to }, Outcome::Written(m)) => from <= to && m <= to - from,
            _ => false,
        }
    }

    /// Whether this step is one on the flag.
    pub open spec fn touches_flag(self) -> bool {
        self is MarkFailed || self is MarkAlive || self is MarkBroken
    }

    /// The flag after this step, where `raised` says whether it was up before.
    pub open spec fn flag_after(self, raised: bool) -> bool {
        match self {
            ResponseStep::MarkFailed | ResponseStep::MarkBroken => true,
            ResponseStep::MarkAlive(_) => false,
            _ => raised,
        }
    }

    /// What comes of this step on the flag.
    pub open spec fn flag_outcome(self, raised: bool) -> Outcome {
        match self {
            ResponseStep::MarkFailed => Outcome::WasRaised(raised),
            _ => Outcome::Done,
        }
    }

    /// Performs a step on the flag.
    pub fn perform_flag(&self, timed_out: &mut TimedOut) -> (outcome: Outcome)
        requires
            self.touches_flag(),
        ensures
            final(timed_out)@ == self.flag_after(old(timed_out)@),
            outcome == self.flag_outcome(old(timed_out)@),
            self.answered_by(outcome),
            final(timed_out)@ == !(self is MarkAlive),
            self is MarkFailed ==> outcome == Outcome::WasRaised(old(timed_out)@),
            !(self is MarkFailed) ==> outcome is Done,
    {
        match self {
            ResponseStep::MarkFailed => Outcome::WasRaised(timed_out.mark_failed()),
            ResponseStep::MarkAlive(_) => {
                timed_out.mark_alive();
                Outcome::Done
            },
            _ => {
                timed_out.mark_broken();
                Outcome::Done
            },
        }
    }

    /// The channel after this step.
    pub open spec fn tokens_after(self, tokens: Seq<u8>) -> Seq<u8> {
        if self is TakeToken && tokens.len() > 0 {
            tokens.skip(1)
        } else {
            tokens
        }
    }

    /// What comes of this step on the channel.
    pub open spec fn tokens_outcome(self, tokens: Seq<u8>) -> Outcome {
        if tokens.len() > 0 {
            Outcome::TokenTaken
        } else {
            Outcome::NoToken
        }
    }

    /// Performs the step on the channel.
    pub fn perform_take(&self, tokens: &mut Tokens) -> (outcome: Outcome)
        requires
            self is TakeToken,
        ensures
            final(tokens).is_disconnected() == old(tokens).is_disconnected(),
            final(tokens)@ == self.tokens_after(old(tokens)@),
            outcome == self.tokens_outcome(old(tokens)@),
            self.answered_by(outcome),
            old(tokens)@.len() > 0 ==> outcome is TokenTaken && final(tokens)@ == old(tokens)@.skip(
                1,
            ),
            old(tokens)@.len() == 0 ==> outcome is NoToken && final(tokens)@ == old(tokens)@,
    {
        if tokens.take() {
            Outcome::TokenTaken
        } else {
            Outcome::NoToken
        }
    }

    /// The time table after this step, where `ns` is the time since the start
    /// time.
    pub open spec fn times_after(self, times: Seq<u64>, ns: u64) -> Seq<u64> {
        match self {
            ResponseStep::Measure(_) => times.push(ns),
            _ => times,
        }
    }

    /// Performs the step on the time table, with `ns` as the time since the
    /// start time.
    pub fn perform_measure(&self, ns: u64, time_table: &mut SharedTimeVec) -> (outcome: Outcome)
        requires
            self is Measure,
        ensures
            final(time_table)@ == self.times_after(old(time_table)@, ns),
            final(time_table)@ == old(time_table)@.push(ns),
            outcome is Done,
            self.answered_by(outcome),
    {
        time_table.insert(ns);
        Outcome::Done
    }

    /// The byte counter after this step.
    pub open spec fn count_after(self, counted: nat) -> nat {
        match self {
            ResponseStep::Count(n) => counted + n as nat,
            _ => counted,
        }
    }

    /// Performs the step on the byte counter.
    pub fn perform_count(&self, num_bytes: &mut SharedCounter) -> (outcome: Outcome)
        requires
            self is Count,
            self.count_after(old(num_bytes)@) <= usize::MAX,
        ensures
            final(num_bytes)@ == self.count_after(old(num_bytes)@),
            *self matches ResponseStep::Count(n) && final(num_bytes)@ == old(num_bytes)@ + n,
            outcome is Done,
            self.answered_by(outcome),
    {
        if let ResponseStep::Count(n) = self {
            num_bytes.increment(*n);
        }
        Outcome::Done
    }
}

/// One turn of the loop FRONT => BACK: the step that follows `step` when
/// `outcome` came of it.
///
/// What was read is handed to the back, but first the start time moves to the
/// present and the flag goes down. A write that takes only a part is followed by
/// the write of the rest, and once all is taken a token is left for the other
/// loop. A failed read ends the loop, with the sockets shut down unless the flag
/// was up already. A failed write, and one that takes nothing of what is left,
/// raises the flag and ends the loop with the sockets shut down. A read of no
/// bytes does not end the loop.
pub fn keep_copying_bench_2_targ(step: RequestStep, outcome: Outcome) -> (next: RequestStep)
    requires
        step.answered_by(outcome),
    ensures
        next == step.then_after(outcome),
{
    match (step, outcome) {
        (RequestStep::Read, Outcome::Read(n)) => RequestStep::Stamp(n),
        (RequestStep::Read, _) => RequestStep::MarkFailed,
        (RequestStep::MarkFailed, Outcome::WasRaised(other)) => if other {
            RequestStep::LetGo
        } else {
            RequestStep::ShutDown
        },
        (RequestStep::Stamp(n), _) => RequestStep::MarkAlive(n),
        (RequestStep::MarkAlive(n), _) => RequestStep::Write { from: 0, to: n },
        (RequestStep::Write { from, to }, Outcome::Written(m)) => if from + m >= to {
            RequestStep::Notify
        } else if m > 0 {
            RequestStep::Write { from: from + m, to }
        } else {
            RequestStep::MarkBroken
        },
        (RequestStep::Write { .. }, _) => RequestStep::MarkBroken,
        (RequestStep::Notify, _) => RequestStep::Read,
        (RequestStep::MarkBroken, _) => RequestStep::ShutDown,
        (_, _) => step,
    }
}

/// One turn of the loop BACK => FRONT: the step that follows `step` when
/// `outcome` came of it.
///
/// What was read is counted and handed to the front; when a token is waiting,
/// the time since the start time goes into the time table first. Short writes
/// and failures are taken as in the other loop, and a read of no bytes does not
/// end this loop either.
pub fn keep_copying_targ_2_bench(step: ResponseStep, outcome: Outcome) -> (next: ResponseStep)
    requires
        step.answered_by(outcome),
    ensures
        next == step.then_after(outcome),
{
    match (step, outcome) {
        (ResponseStep::Read, Outcome::Read(n)) => ResponseStep::TakeToken(n),
        (ResponseStep::Read, _) => ResponseStep::MarkFailed,
        (ResponseStep::MarkFailed, Outcome::WasRaised(other)) => if other {
            ResponseStep::LetGo
        } else {
            ResponseStep::ShutDown
        },
        (ResponseStep::TakeToken(n), Outcome::TokenTaken) => ResponseStep::Measure(n),
        (ResponseStep::TakeToken(n), _) => ResponseStep::Count(n),
        (ResponseStep::Measure(n), _) => ResponseStep::Count(n),
        (ResponseStep::Count(n), _) => ResponseStep::MarkAlive(n),
        (ResponseStep::MarkAlive(n), _) => ResponseStep::Write { from: 0, to: n },
        (ResponseStep::Write { from, to }, Outcome::Written(m)) => if from + m >= to {
            ResponseStep::Read
        } else if m > 0 {
            ResponseStep::Write { from: from + m, to }
        } else {
            ResponseStep::MarkBroken
        },
        (ResponseStep::Write { .. }, _) => ResponseStep::MarkBroken,
        (ResponseStep::MarkBroken, _) => ResponseStep::ShutDown,
        (_, _) => step,
    }
}

} // verus!
