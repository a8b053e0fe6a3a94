//! The proxy with a thread for each direction of each connection.

use crate::clock::StartTime;
use crate::link::{TimedOut, Tokens};
use crate::meters::{total, Reading, SharedCounter, SharedTimeVec};
use crate::pipe::{RequestStep, ResponseStep};
use crate::text::{paint_red, red};
use vstd::prelude::*;
use vstd::string::*;

verus! {

/// How many files the process must be able to have open while it serves
/// connections.
pub const FD_LIMIT: u64 = 4096;

/// The read timeout of a connection just taken in, in seconds.
pub const ACCEPT_TIMEOUT_SECS: u64 = 3;

/// The nanoseconds in a millisecond.
pub const NS_PER_MS: u64 = 1_000_000;

/// The limit on open files to set when the present one is `current`: it is
/// raised where it is too low, and never lowered.
pub open spec fn raised_limit(current: u64) -> u64 {
    if current > FD_LIMIT {
        current
    } else {
        FD_LIMIT
    }
}

/// Raises a limit on open files that is too low.
pub fn raise_limit(current: u64) -> (limit: u64)
    ensures
        limit == raised_limit(current),
        limit >= current,
        limit >= FD_LIMIT,
        limit == current || limit == FD_LIMIT,
        current <= 4096 ==> limit == 4096,
{
    if current > FD_LIMIT {
        current
    } else {
        FD_LIMIT
    }
}

/// The text printed for a connection that broke before it was taken in.
pub open spec fn broken_message(cause: Seq<char>) -> Seq<char> {
    "Strange connection broken: "@ + cause
}

/// The text printed when the server cannot be reached.
pub open spec fn unreachable_message(cause: Seq<char>) -> Seq<char> {
    red("*****ERROR***** --> "@)
        + " Unable to connect to the Target Application. Maybe a bad configuration: "@ + cause
}

/// How a pipe begins when `connected` came of the connection to the back side,
/// and `before` and `after` say whether a failure has been reported before the
/// attempt and after it.
pub open spec fn begins(
    connected: Result<(), String>,
    before: bool,
    start: PipeStart,
    after: bool,
) -> bool {
    match connected {
        Err(cause) => {
            &&& after
            &&& start matches PipeStart::Refuse { message } && match message {
                Some(text) => !before && text@ == unreachable_message(cause@),
                None => before,
            }
        },
        Ok(()) => {
            &&& after == before
            &&& start matches PipeStart::Run { request, response, timed_out, start_time, tokens }
                && request is Read && response is Read && !timed_out@ && start_time@ == 0 && tokens@
                == Seq::<u8>::empty() && !tokens.is_disconnected()
        },
    }
}

/// Where to listen, and under which limit on open files.
#[derive(Debug)]
pub struct Listen {
    pub fd_limit: u64,
    pub address: String,
    pub port: u16,
}

/// What the listener came up with.
#[derive(Debug)]
pub enum Incoming {
    /// A connection that is broken, with the cause.
    Broken(String),
    /// A connection that stands.
    Accepted,
}

/// What to do about an incoming connection.
#[derive(Debug)]
pub enum Turn {
    /// Take in no more connections.
    Stop,
    /// Print the text and go on listening.
    Report(String),
    /// Start a pipe from the connection to this address and port, and go on
    /// listening.
    Serve { back_address: String, back_port: u16 },
}

/// How a pipe begins.
#[derive(Debug)]
pub enum PipeStart {
    /// Print the text, if there is one, and shut down the connection.
    Refuse { message: Option<String> },
    /// Run the two loops from these steps, over what they share.
    Run {
        request: RequestStep,
        response: ResponseStep,
        timed_out: TimedOut,
        start_time: StartTime,
        tokens: Tokens,
    },
}

/// A proxy between the application at the back address, which serves, and
/// those that connect to the front address. All handles of one proxy share
/// one such value.
#[derive(Debug)]
pub struct MeterProxy {
    pub back_address: String,
    pub back_port: u16,
    pub front_address: String,
    pub front_port: u16,
    /// Raised to stop the proxy; nothing lowers it.
    pub reset_lock_flag: bool,
}

impl MeterProxy {
    /// Whether two proxies connect the same pair of addresses.
    pub open spec fn same_route(self, other: MeterProxy) -> bool {
        &&& self.back_address@ == other.back_address@
        &&& self.back_port == other.back_port
        &&& self.front_address@ == other.front_address@
        &&& self.front_port == other.front_port
    }

    /// What to do about `incoming`.
    pub open spec fn turn(self, incoming: Incoming, turn: Turn) -> bool {
        if self.reset_lock_flag {
            turn is Stop
        } else {
            match incoming {
                Incoming::Broken(cause) => turn matches Turn::Report(text) && text@
                    == broken_message(cause@),
                Incoming::Accepted => turn matches Turn::Serve { back_address, back_port }
                    && back_address@ == self.back_address@ && back_port == self.back_port,
            }
        }
    }

    /// A proxy for the given route, not stopped.
    pub fn new(b_addr: String, b_port: u16, f_addr: String, f_port: u16) -> (p: MeterProxy)
        ensures
            p.back_address == b_addr,
            p.back_port == b_port,
            p.front_address == f_addr,
            p.front_port == f_port,
            !p.reset_lock_flag,
    {
        MeterProxy {
            back_address: b_addr,
            back_port: b_port,
            front_address: f_addr,
            front_port: f_port,
            reset_lock_flag: false,
        }
    }

    /// Where the proxy listens: on its front side. `current` is the present
    /// limit on open files.
    pub fn start(&self, current: u64) -> (l: Listen)
        ensures
            l.fd_limit == (if current > FD_LIMIT { current } else { FD_LIMIT }),
            l.address@ == self.front_address@,
            l.port == self.front_port,
    {
        Listen {
            fd_limit: raise_limit(current),
            address: self.front_address.clone(),
            port: self.front_port,
        }
    }

    /// What to do about an incoming connection. A raised flag stops the proxy
    /// whatever came in; a broken connection is reported; any other is served
    /// at the back side.
    pub fn accept(&self, incoming: &Incoming) -> (turn: Turn)
        ensures
            self.turn(*incoming, turn),
    {
        if self.reset_lock_flag {
            return Turn::Stop;
        }
        match incoming {
            Incoming::Broken(cause) => {
                let mut text = String::from_str("Strange connection broken: ");
                text.append(cause.as_str());
                Turn::Report(text)
            },
            Incoming::Accepted => Turn::Serve {
                back_address: self.back_address.clone(),
                back_port: self.back_port,
            },
        }
    }

    /// Whether `self` is `before` after it was stopped.
    pub open spec fn is_stopped(self, before: MeterProxy) -> bool {
        self.reset_lock_flag && self.same_route(before)
    }

    /// Raises the flag.
    pub fn stop(&mut self)
        ensures
            final(self).is_stopped(*old(self)),
            final(self).reset_lock_flag,
            final(self).back_address@ == old(self).back_address@,
            final(self).back_port == old(self).back_port,
            final(self).front_address@ == old(self).front_address@,
            final(self).front_port == old(self).front_port,
    {
        self.reset_lock_flag = true;
    }

    /// Stops the proxy and clears the meters. What is returned is the address
    /// and port to connect to once, so that the listener wakes up and sees the
    /// flag: those of the front side.
    pub fn stop_and_reset(
        &mut self,
        num_bytes: &mut SharedCounter,
        time_table: &mut SharedTimeVec,
    ) -> (wake: (String, u16))
        ensures
            final(self).is_stopped(*old(self)),
            final(self).reset_lock_flag,
            final(self).back_address@ == old(self).back_address@,
            final(self).back_port == old(self).back_port,
            final(self).front_address@ == old(self).front_address@,
            final(self).front_port == old(self).front_port,
            final(num_bytes)@ == 0,
            final(time_table)@ == Seq::<u64>::empty(),
            wake.0@ == old(self).front_address@,
            wake.1 == old(self).front_port,
    {
        self.stop();
        num_bytes.reset();
        time_table.reset();
        (self.front_address.clone(), self.front_port)
    }

    /// The number of bytes that have come from the back side.
    pub fn get_num_bytes_rcvd(&self, num_bytes: &SharedCounter) -> (n: usize)
        ensures
            n == num_bytes@,
    {
        num_bytes.get()
    }

    /// The mean latency in milliseconds.
    pub fn get_latency_ms(&self, time_table: &SharedTimeVec) -> (latency: Reading)
        requires
            total(time_table@) <= u64::MAX,
        ensures
            latency.sum == total(time_table@),
            latency.count == time_table@.len(),
            latency.unit == NS_PER_MS,
            latency.unit == 1_000_000,
    {
        let mean = time_table.get_avg_value();
        Reading { unit: NS_PER_MS, ..mean }
    }

    /// How a pipe begins once the connection to the back side has been tried.
    /// `error` says whether a failure has been reported before: only the first
    /// one is.
    pub fn start_pipe(connected: Result<(), String>, error: &mut bool) -> (start: PipeStart)
        ensures
            begins(connected, *old(error), start, *final(error)),
    {
        match connected {
            Err(cause) => {
                let message = if *error {
                    None
                } else {
                    let mut text = paint_red("*****ERROR***** --> ");
                    text.append(
                        " Unable to connect to the Target Application. Maybe a bad configuration: ",
                    );
                    text.append(cause.as_str());
                    Some(text)
                };
                *error = true;
                PipeStart::Refuse { message }
            },
            Ok(()) => PipeStart::Run {
                request: RequestStep::Read,
                response: ResponseStep::Read,
                timed_out: TimedOut::new(),
                start_time: StartTime::new(),
                tokens: Tokens::new(),
            },
        }
    }
}

/// One attempt to begin a pipe.
pub struct Attempt {
    pub connected: Result<(), String>,
    pub before: bool,
    pub start: PipeStart,
    pub after: bool,
}

/// The attempts of a process, in order, from the first.
pub open spec fn is_history(tries: Seq<Attempt>) -> bool {
    &&& tries.len() > 0 ==> !tries[0].before
    &&& forall|i: int|
        0 < i < tries.len() ==> (#[trigger] tries[i]).before == tries[i - 1].after
    &&& forall|i: int|
        0 <= i < tries.len() ==> {
            let t = #[trigger] tries[i];
            begins(t.connected, t.before, t.start, t.after)
        }
}

/// The attempt `k` is made as if a failure had been reported exactly when one
/// of the attempts before it failed.
proof fn report_remembers(tries: Seq<Attempt>, k: int)
    requires
        is_history(tries),
        0 <= k < tries.len(),
    ensures
        tries[k].before <==> exists|i: int| 0 <= i < k && (#[trigger] tries[i]).connected is Err,
    decreases k,
{
    if k > 0 {
        report_remembers(tries, k - 1);
        assert(tries[k].before == tries[k - 1].after);
        if tries[k].before && tries[k - 1].connected is Ok {
            let i = choose|i: int| 0 <= i < k - 1 && (#[trigger] tries[i]).connected is Err;
            assert(tries[i].connected is Err);
        }
    }
}

/// Of all the failures to reach the server, in all the connections of a
/// process, the first is reported and no other.
pub proof fn failure_is_reported_once(tries: Seq<Attempt>, k: int)
    requires
        is_history(tries),
        0 <= k < tries.len(),
        tries[k].connected is Err,
    ensures
        tries[k].start is Refuse,
        tries[k].start->message is Some <==> forall|i: int|
            0 <= i < k ==> (#[trigger] tries[i]).connected is Ok,
{
    report_remembers(tries, k);
}

/// A pipe runs exactly when the server was reached, and then from the
/// beginning: both loops at a read, over a flag that is down, no start time, and
/// an open channel without tokens. The connection does not change whether a
/// failure has been reported.
pub proof fn reached_server_is_served(
    connected: Result<(), String>,
    before: bool,
    start: PipeStart,
    after: bool,
)
    requires
        begins(connected, before, start, after),
    ensures
        connected is Ok <==> start is Run,
        connected is Err <==> start is Refuse,
        connected is Ok ==> after == before,
        connected is Err ==> after,
        start matches PipeStart::Run { request, response, timed_out, start_time, tokens } ==> {
            &&& request is Read
            &&& response is Read
            &&& !timed_out@
            &&& start_time@ == 0
            &&& tokens@ == Seq::<u8>::empty()
            &&& !tokens.is_disconnected()
        },
{
}

/// A failure to reach the server is told in full: what is printed begins with
/// the marked error and ends with its cause, whatever that is.
pub proof fn unreachable_server_is_told_in_full(
    cause: String,
    before: bool,
    start: PipeStart,
    after: bool,
)
    requires
        begins(Err(cause), before, start, after),
    ensures
        start matches PipeStart::Refuse { message: Some(text) } ==> {
            let lead = "\x1B[31m"@ + "*****ERROR***** --> "@ + "\x1B[0m"@
                + " Unable to connect to the Target Application. Maybe a bad configuration: "@;
            text@ == lead + cause@
        },
{
}

/// A broken connection is told in full: what is printed says so and ends with
/// the cause, whatever that is, and two connections with one text broke for one
/// cause.
pub proof fn broken_connection_is_told_in_full(
    p: MeterProxy,
    cause: String,
    turn: Turn,
    other_cause: String,
    other_turn: Turn,
)
    requires
        !p.reset_lock_flag,
        p.turn(Incoming::Broken(cause), turn),
        p.turn(Incoming::Broken(other_cause), other_turn),
    ensures
        turn matches Turn::Report(text) && text@ == "Strange connection broken: "@ + cause@,
        turn->Report_0@ == other_turn->Report_0@ ==> cause@ == other_cause@,
{
    let lead = "Strange connection broken: "@;
    assert((lead + cause@).skip(lead.len() as int) =~= cause@);
    assert((lead + other_cause@).skip(lead.len() as int) =~= other_cause@);
}

/// The proxy at each turn of its listener, with what came in and what was done
/// about it. Between two turns the proxy may have been stopped; nothing else
/// changes it.
pub struct ListenerTurn {
    pub proxy: MeterProxy,
    pub incoming: Incoming,
    pub turn: Turn,
}

/// The turns of a listener, in order. They go on as long as none is to stop.
pub open spec fn is_listening(turns: Seq<ListenerTurn>) -> bool {
    &&& forall|i: int|
        0 <= i < turns.len() ==> {
            let t = #[trigger] turns[i];
            t.proxy.turn(t.incoming, t.turn)
        }
    &&& forall|i: int|
        0 < i < turns.len() ==> {
            let p = turns[i - 1].proxy;
            let q = (#[trigger] turns[i]).proxy;
            q == p || q.is_stopped(p)
        }
    &&& forall|i: int| 0 <= i < turns.len() - 1 ==> (#[trigger] turns[i]).turn !is Stop
}

/// The route is the same throughout.
proof fn listener_stays(turns: Seq<ListenerTurn>, k: int)
    requires
        is_listening(turns),
        0 <= k < turns.len(),
    ensures
        turns[k].proxy.same_route(turns[0].proxy),
    decreases k,
{
    if k > 0 {
        listener_stays(turns, k - 1);
        assert(turns[k].proxy == turns[k - 1].proxy || turns[k].proxy.same_route(
            turns[k - 1].proxy,
        ));
    }
}

/// Stopping works: the first turn that finds the proxy stopped, whatever came
/// in, is the last, and the turns before it are not; so nothing that comes in
/// after the proxy was stopped is served.
pub proof fn stopping_ends_the_listener(turns: Seq<ListenerTurn>, k: int)
    requires
        is_listening(turns),
        0 <= k < turns.len(),
    ensures
        turns[k].turn is Stop <==> turns[k].proxy.reset_lock_flag,
        turns[k].proxy.reset_lock_flag ==> k == turns.len() - 1,
{
    assert(turns[k].proxy.turn(turns[k].incoming, turns[k].turn));
    if k < turns.len() - 1 {
        assert(turns[k].turn !is Stop);
    }
}

/// Every connection that comes in and stands, while the proxy is not stopped,
/// is served, and always at the same address and port.
pub proof fn connections_go_to_the_back(turns: Seq<ListenerTurn>, k: int)
    requires
        is_listening(turns),
        0 <= k < turns.len(),
        !turns[k].proxy.reset_lock_flag,
    ensures
        turns[k].incoming is Accepted <==> turns[k].turn is Serve,
        turns[k].turn matches Turn::Serve { back_address, back_port } ==> back_address@
            == turns[0].proxy.back_address@ && back_port == turns[0].proxy.back_port,
{
    listener_stays(turns, k);
    assert(turns[k].proxy.turn(turns[k].incoming, turns[k].turn));
}

} // verus!
