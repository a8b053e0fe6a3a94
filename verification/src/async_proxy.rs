//! The event-driven proxy.

use crate::clock::StartTime;
use crate::io_error::IoError;
use crate::link::Tokens;
use crate::meters::{total, Reading, SharedTimeVec};
use crate::proxy::{raise_limit, FD_LIMIT, NS_PER_MS};
use crate::text::{
    decimal, decimal_reads_back, decimal_text, endpoint, endpoint_text, value,
};
use crate::transfer::{
    End, TransferBackFront, TransferFrontBack, TransferOutcome, TransferStep,
};
use vstd::prelude::*;
use vstd::string::*;

verus! {

/// How many threads the pool of the proxy has.
pub const POOL_SIZE: usize = 4;

/// The bytes in a kilobyte.
pub const BYTES_PER_KBYTE: u64 = 1024;

/// Where to listen and where to connect, and under which limit on open files.
#[derive(Debug)]
pub struct Routes {
    pub fd_limit: u64,
    pub front_address: String,
    pub back_address: String,
}

/// The text printed for a connection that came to its end, where the halves
/// wrote `a` and `b` bytes.
pub open spec fn proxied_message(a: nat, b: nat, addr: Seq<char>) -> Seq<char> {
    "proxied "@ + decimal(a) + "/"@ + decimal(b) + " bytes for "@ + addr
}

/// The text tells both amounts and the address: the amounts are read off it in
/// base ten, the first after the first word and the second after the slash, and
/// it ends in the address.
pub proof fn proxied_message_tells_all(a: nat, b: nat, addr: Seq<char>)
    ensures
        ({
            let s = proxied_message(a, b, addr);
            let at = 8 + decimal(a).len() as int;
            let end = at + 1 + decimal(b).len();
            &&& s.len() == end + 11 + addr.len()
            &&& s.take(8) == "proxied "@
            &&& value(s.subrange(8, at)) == a
            &&& s[at] == '/'
            &&& value(s.subrange(at + 1, end)) == b
            &&& s.subrange(end, end + 11) == " bytes for "@
            &&& s.skip(end + 11) == addr
        }),
{
    reveal_strlit("proxied ");
    reveal_strlit("/");
    reveal_strlit(" bytes for ");
    let s = proxied_message(a, b, addr);
    let at = 8 + decimal(a).len() as int;
    let end = at + 1 + decimal(b).len();
    assert(s.take(8) =~= "proxied "@);
    assert(s.subrange(8, at) =~= decimal(a));
    assert(s.subrange(at + 1, end) =~= decimal(b));
    assert(s.subrange(end, end + 11) =~= " bytes for "@);
    assert(s.skip(end + 11) =~= addr);
    decimal_reads_back(a);
    decimal_reads_back(b);
}

/// The byte meter after a step.
pub open spec fn bytes_after(step: TransferStep, bytes: nat) -> nat {
    match step {
        TransferStep::CountBytes(n) => bytes + n as nat,
        _ => bytes,
    }
}

/// The response meter after a step.
pub open spec fn responses_after(step: TransferStep, responses: nat) -> nat {
    match step {
        TransferStep::CountResponse(_) => responses + 1,
        _ => responses,
    }
}

/// The time table after a step, where `ns` is the time since the start time.
pub open spec fn times_after(step: TransferStep, times: Seq<u64>, ns: u64) -> Seq<u64> {
    match step {
        TransferStep::Measure(_) => times.push(ns),
        _ => times,
    }
}

/// The two halves of one client's connection, and what they share.
#[derive(Debug)]
pub struct Client {
    pub half1: TransferFrontBack,
    pub half2: TransferBackFront,
    pub start_time: StartTime,
    pub tokens: Tokens,
}

impl Client {
    /// The halves of a new connection: the one that reports to the meters
    /// carries what the server sends, the other what the client sends.
    pub fn serve() -> (c: Client)
        ensures
            c.half1.reader is Back,
            c.half1.writer is Front,
            c.half1.amt == 0,
            c.half2.reader is Front,
            c.half2.writer is Back,
            c.half2.amt == 0,
            c.start_time@ == 0,
            c.tokens@ == Seq::<u8>::empty(),
            !c.tokens.is_disconnected(),
    {
        Client {
            half1: TransferFrontBack::new(End::Back, End::Front),
            half2: TransferBackFront::new(End::Front, End::Back),
            start_time: StartTime::new(),
            tokens: Tokens::new(),
        }
    }
}

/// An event-driven proxy between the application at the back address, which
/// serves, and those that connect to the front address. All handles of one
/// proxy, and all its connections, share one such value.
#[derive(Debug)]
pub struct AsyncMeterProxy {
    pub back_address: String,
    pub back_port: u16,
    pub front_address: String,
    pub front_port: u16,
    /// The bytes that have come from the back side.
    pub num_bytes: u64,
    /// The responses that have come from the back side.
    pub num_resp: u64,
    /// The measured times, in nanoseconds.
    pub times: SharedTimeVec,
}

impl AsyncMeterProxy {
    /// Whether two proxies connect the same pair of addresses.
    pub open spec fn same_route(self, other: AsyncMeterProxy) -> bool {
        &&& self.back_address@ == other.back_address@
        &&& self.back_port == other.back_port
        &&& self.front_address@ == other.front_address@
        &&& self.front_port == other.front_port
    }

    /// A proxy for the given route, with its meters at zero.
    pub fn new(b_addr: String, b_port: u16, f_addr: String, f_port: u16) -> (p: AsyncMeterProxy)
        ensures
            p.back_address == b_addr,
            p.back_port == b_port,
            p.front_address == f_addr,
            p.front_port == f_port,
            p.num_bytes == 0,
            p.num_resp == 0,
            p.times@ == Seq::<u64>::empty(),
    {
        AsyncMeterProxy {
            back_address: b_addr,
            back_port: b_port,
            front_address: f_addr,
            front_port: f_port,
            num_bytes: 0,
            num_resp: 0,
            times: SharedTimeVec::new(),
        }
    }

    /// Where the proxy listens and where it connects to. `current` is the
    /// present limit on open files.
    pub fn start(&self, current: u64) -> (r: Routes)
        ensures
            r.fd_limit == (if current > FD_LIMIT { current } else { FD_LIMIT }),
            r.front_address@ == endpoint(self.front_address@, self.front_port as nat),
            r.back_address@ == endpoint(self.back_address@, self.back_port as nat),
    {
        Routes {
            fd_limit: raise_limit(current),
            front_address: endpoint_text(self.front_address.as_str(), self.front_port),
            back_address: endpoint_text(self.back_address.as_str(), self.back_port),
        }
    }

    /// The text to print when the connection from `addr` has come to its end,
    /// if there is anything to print: a failure is passed over in silence.
    pub fn report(outcome: &Result<(u64, u64), IoError>, addr: &str) -> (message: Option<String>)
        ensures
            match *outcome {
                Ok(amounts) => message matches Some(text) && text@ == proxied_message(
                    amounts.0 as nat,
                    amounts.1 as nat,
                    addr@,
                ) && text@ == "proxied "@ + decimal(amounts.0 as nat) + "/"@ + decimal(
                    amounts.1 as nat,
                ) + " bytes for "@ + addr@,
                Err(_) => message is None,
            },
    {
        match outcome {
            Ok(amounts) => {
                let mut text = String::from_str("proxied ");
                text.append(decimal_text(amounts.0).as_str());
                text.append("/");
                text.append(decimal_text(amounts.1).as_str());
                text.append(" bytes for ");
                text.append(addr);
                Some(text)
            },
            Err(_) => None,
        }
    }

    /// Performs a step on the byte meter or the response meter.
    pub fn perform_count(&mut self, step: &TransferStep) -> (outcome: TransferOutcome)
        requires
            step is CountBytes || step is CountResponse,
            bytes_after(*step, old(self).num_bytes as nat) <= u64::MAX,
            responses_after(*step, old(self).num_resp as nat) <= u64::MAX,
        ensures
            final(self).num_bytes == bytes_after(*step, old(self).num_bytes as nat),
            final(self).num_resp == responses_after(*step, old(self).num_resp as nat),
            match *step {
                TransferStep::CountBytes(n) => final(self).num_bytes == old(self).num_bytes + n
                    && final(self).num_resp == old(self).num_resp,
                _ => final(self).num_resp == old(self).num_resp + 1 && final(self).num_bytes
                    == old(self).num_bytes,
            },
            final(self).times == old(self).times,
            final(self).same_route(*old(self)),
            outcome is Done,
            step.answered_by(outcome),
    {
        match step {
            TransferStep::CountBytes(n) => {
                self.num_bytes = self.num_bytes + *n as u64;
            },
            _ => {
                self.num_resp = self.num_resp + 1;
            },
        }
        TransferOutcome::Done
    }

    /// Performs the step on the time table, with `ns` as the time since the
    /// start time.
    pub fn perform_measure(&mut self, step: &TransferStep, ns: u64) -> (outcome: TransferOutcome)
        requires
            step is Measure,
        ensures
            final(self).times@ == times_after(*step, old(self).times@, ns),
            final(self).times@ == old(self).times@.push(ns),
            final(self).num_bytes == old(self).num_bytes,
            final(self).num_resp == old(self).num_resp,
            final(self).same_route(*old(self)),
            outcome is Done,
            step.answered_by(outcome),
    {
        self.times.insert(ns);
        TransferOutcome::Done
    }

    /// Whether `self` is `before` after its meters were put to zero.
    pub open spec fn is_reset(self, before: AsyncMeterProxy) -> bool {
        &&& self.num_bytes == 0
        &&& self.num_resp == 0
        &&& self.times@ == Seq::<u64>::empty()
        &&& self.same_route(before)
    }

    /// Puts the meters back to zero.
    pub fn reset(&mut self)
        ensures
            final(self).is_reset(*old(self)),
            final(self).num_bytes == 0,
            final(self).num_resp == 0,
            final(self).times@ == Seq::<u64>::empty(),
            final(self).back_address@ == old(self).back_address@,
            final(self).back_port == old(self).back_port,
            final(self).front_address@ == old(self).front_address@,
            final(self).front_port == old(self).front_port,
    {
        self.num_bytes = 0;
        self.num_resp = 0;
        self.times.reset();
    }

    /// The number of kilobytes that have come from the back side, as a reading.
    pub open spec fn kbytes(self) -> Reading {
        Reading { sum: self.num_bytes, count: 1, unit: BYTES_PER_KBYTE }
    }

    /// The mean latency in milliseconds, as a reading: zero when no time was
    /// measured.
    pub open spec fn latency(self) -> Reading {
        Reading {
            sum: total(self.times@) as u64,
            count: if self.times@.len() > 0 {
                self.times@.len() as u64
            } else {
                1
            },
            unit: NS_PER_MS,
        }
    }

    /// The number of kilobytes that have come from the back side.
    pub fn get_num_kbytes_rcvd(&self) -> (kbytes: Reading)
        ensures
            kbytes == self.kbytes(),
            kbytes.sum == self.num_bytes,
            kbytes.count == 1,
            kbytes.unit == BYTES_PER_KBYTE,
            kbytes.unit == 1024,
    {
        Reading { sum: self.num_bytes, count: 1, unit: BYTES_PER_KBYTE }
    }

    /// The mean latency in milliseconds; zero when no time was measured.
    pub fn get_latency(&self) -> (latency: Reading)
        requires
            total(self.times@) <= u64::MAX,
        ensures
            latency == self.latency(),
            latency.sum == total(self.times@),
            latency.count == (if self.times@.len() > 0 { self.times@.len() } else { 1 }),
            latency.unit == NS_PER_MS,
            latency.unit == 1_000_000,
    {
        let mean = self.times.get_avg_value();
        Reading { unit: NS_PER_MS, ..mean }.or_zero()
    }
}

} // verus!
