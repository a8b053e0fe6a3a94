//! What the two copying loops of one connection share, besides the start time.

use std::collections::VecDeque;
use vstd::prelude::*;

verus! {

/// The token that stands for one request handed on.
pub const TOKEN: u8 = 1;

/// A flag that a loop raises when it gives up and lowers when it gets bytes.
#[derive(Debug)]
pub struct TimedOut {
    raised: bool,
}

impl View for TimedOut {
    type V = bool;

    closed spec fn view(&self) -> bool {
        self.raised
    }
}

impl TimedOut {
    /// A flag that is down.
    pub fn new() -> (f: Self)
        ensures
            !f@,
    {
        TimedOut { raised: false }
    }

    /// Raises the flag after a failed read and returns whether it was up.
    pub fn mark_failed(&mut self) -> (was: bool)
        ensures
            final(self)@,
            was == old(self)@,
    {
        let was = self.raised;
        self.raised = true;
        was
    }

    /// Lowers the flag after a read that went well.
    pub fn mark_alive(&mut self)
        ensures
            !final(self)@,
    {
        self.raised = false;
    }

    /// Raises the flag after a failed write.
    pub fn mark_broken(&mut self)
        ensures
            final(self)@,
    {
        self.raised = true;
    }
}

/// A channel of tokens from one loop to the other.
#[derive(Debug)]
pub struct Tokens {
    queue: VecDeque<u8>,
    receiver_gone: bool,
}

impl View for Tokens {
    type V = Seq<u8>;

    closed spec fn view(&self) -> Seq<u8> {
        self.queue@
    }
}

impl Tokens {
    /// Whether the receiving loop has let go of the channel.
    pub closed spec fn is_disconnected(&self) -> bool {
        self.receiver_gone
    }

    /// An empty channel with both ends in place.
    pub fn new() -> (t: Self)
        ensures
            t@ == Seq::<u8>::empty(),
            !t.is_disconnected(),
    {
        Tokens { queue: VecDeque::new(), receiver_gone: false }
    }

    /// Puts one token into the channel; hands it back when the receiver is
    /// gone.
    pub fn notify(&mut self) -> (r: Result<(), u8>)
        ensures
            final(self).is_disconnected() == old(self).is_disconnected(),
            match r {
                Ok(()) => !old(self).is_disconnected() && final(self)@ == old(self)@.push(TOKEN),
                Err(token) => old(self).is_disconnected() && token == TOKEN && final(self)@
                    == old(self)@,
            },
    {
        if self.receiver_gone {
            Err(TOKEN)
        } else {
            self.queue.push_back(TOKEN);
            Ok(())
        }
    }

    /// Takes the first token out, if there is one, and says whether there was.
    pub fn take(&mut self) -> (taken: bool)
        ensures
            final(self).is_disconnected() == old(self).is_disconnected(),
            taken == (old(self)@.len() > 0),
            taken ==> final(self)@ == old(self)@.skip(1),
            !taken ==> final(self)@ == old(self)@,
    {
        match self.queue.pop_front() {
            Some(_) => true,
            None => false,
        }
    }

    /// Lets go of the receiving end: what is in the channel is lost.
    pub fn disconnect(&mut self)
        ensures
            final(self).is_disconnected(),
            final(self)@ == Seq::<u8>::empty(),
    {
        self.queue.clear();
        self.receiver_gone = true;
    }
}

} // verus!
