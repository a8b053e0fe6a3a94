//! What holds of the meters that all connections of an event-driven proxy
//! report to.

use crate::sums::{
    gathered, gathered_at_the_ends, gathered_with_empty_row, gathered_with_more, sum, sum_of_push,
    sum_of_update,
};
use crate::transfer_laws::{
    is_sound, nothing_is_taken_back, sound_means, start_is_sound, starts, step_keeps_sound, takes,
    unanswered, unreported, ClientState,
};
use vstd::prelude::*;

verus! {

/// The connections of a proxy at one moment, running or not, with the meters
/// and the time table, and with what the connections had reported when the
/// meters were last put to zero: how many bytes and responses in all, and how
/// many times each of them.
pub struct AsyncFleet {
    pub clients: Seq<ClientState>,
    pub num_bytes: nat,
    pub num_resp: nat,
    pub time_table: Seq<u64>,
    pub bytes_before: nat,
    pub responses_before: nat,
    pub times_before: Seq<nat>,
}

/// What the connections have reported to the byte meter in all.
pub open spec fn bytes_reported(f: AsyncFleet) -> nat {
    sum(f.clients.map_values(|c: ClientState| c.half1.bytes))
}

/// What the servers have sent in all.
pub open spec fn bytes_received(f: AsyncFleet) -> nat {
    sum(f.clients.map_values(|c: ClientState| c.half1.taken.len()))
}

/// What has been read from the servers and is yet to be reported.
pub open spec fn bytes_pending(f: AsyncFleet) -> nat {
    sum(f.clients.map_values(|c: ClientState| unreported(c.half1)))
}

/// What the connections have reported to the response meter in all.
pub open spec fn responses_reported(f: AsyncFleet) -> nat {
    sum(f.clients.map_values(|c: ClientState| c.half1.responses))
}

/// The reads that took something from a server.
pub open spec fn responses_received(f: AsyncFleet) -> nat {
    sum(f.clients.map_values(|c: ClientState| c.half1.reads))
}

/// The reads that are yet to be reported as responses.
pub open spec fn responses_pending(f: AsyncFleet) -> nat {
    sum(f.clients.map_values(|c: ClientState| unanswered(c.half1)))
}

/// The chunks that the servers have been sent in all.
pub open spec fn requests_made(f: AsyncFleet) -> nat {
    sum(f.clients.map_values(|c: ClientState| c.half2.writes))
}

/// The times that each connection has measured.
pub open spec fn times_measured(f: AsyncFleet) -> Seq<Seq<u64>> {
    f.clients.map_values(|c: ClientState| c.times)
}

/// How many times each connection has measured.
pub open spec fn times_counts(f: AsyncFleet) -> Seq<nat> {
    f.clients.map_values(|c: ClientState| c.times.len())
}

/// A proxy as it starts.
pub open spec fn begins(f: AsyncFleet) -> bool {
    &&& f.clients == Seq::<ClientState>::empty()
    &&& f.num_bytes == 0
    &&& f.num_resp == 0
    &&& f.time_table == Seq::<u64>::empty()
    &&& f.bytes_before == 0
    &&& f.responses_before == 0
    &&& f.times_before == Seq::<nat>::empty()
}

/// A connection is opened.
pub open spec fn opens(f: AsyncFleet, g: AsyncFleet) -> bool {
    &&& g.clients.len() == f.clients.len() + 1
    &&& starts(g.clients.last())
    &&& g == (AsyncFleet {
        clients: f.clients.push(g.clients.last()),
        times_before: f.times_before.push(0),
        ..f
    })
}

/// The connection `k` takes a step and reports what came of it.
pub open spec fn works(f: AsyncFleet, g: AsyncFleet, k: int) -> bool {
    let s = f.clients[k];
    let t = g.clients[k];
    &&& 0 <= k < f.clients.len()
    &&& g.clients.len() == f.clients.len()
    &&& takes(s, t)
    &&& g == (AsyncFleet {
        clients: f.clients.update(k, t),
        num_bytes: (f.num_bytes + t.half1.bytes - s.half1.bytes) as nat,
        num_resp: (f.num_resp + t.half1.responses - s.half1.responses) as nat,
        time_table: f.time_table + t.times.skip(s.times.len() as int),
        ..f
    })
}

/// The meters are put to zero.
pub open spec fn clears(f: AsyncFleet, g: AsyncFleet) -> bool {
    g == (AsyncFleet {
        num_bytes: 0,
        num_resp: 0,
        time_table: Seq::empty(),
        bytes_before: bytes_reported(f),
        responses_before: responses_reported(f),
        times_before: times_counts(f),
        ..f
    })
}

/// Whether the proxy goes from `f` to `g` in one step.
pub open spec fn goes(f: AsyncFleet, g: AsyncFleet) -> bool {
    ||| opens(f, g)
    ||| exists|k: int| #[trigger] works(f, g, k)
    ||| clears(f, g)
}

/// The life of a proxy.
pub open spec fn is_run(run: Seq<AsyncFleet>) -> bool {
    &&& run.len() > 0
    &&& begins(run[0])
    &&& forall|i: int| 0 < i < run.len() ==> goes(run[i - 1], #[trigger] run[i])
}

/// The meters agree with the connections, and every connection is sound.
spec fn fleet_holds(f: AsyncFleet) -> bool {
    &&& f.num_bytes + f.bytes_before == bytes_reported(f)
    &&& f.num_resp + f.responses_before == responses_reported(f)
    &&& f.time_table.len() + sum(f.times_before) == sum(times_counts(f))
    &&& f.times_before.len() == f.clients.len()
    &&& forall|k: int|
        0 <= k < f.clients.len() ==> f.times_before[k] <= (#[trigger] f.clients[k]).times.len()
    &&& f.time_table.to_multiset() == gathered(times_measured(f), f.times_before)
    &&& forall|k: int| 0 <= k < f.clients.len() ==> is_sound(#[trigger] f.clients[k])
}

proof fn opening_keeps(f: AsyncFleet, g: AsyncFleet)
    requires
        fleet_holds(f),
        opens(f, g),
    ensures
        fleet_holds(g),
{
    let c = g.clients.last();
    start_is_sound(c);
    assert forall|k: int| 0 <= k < g.clients.len() implies is_sound(#[trigger] g.clients[k])
        && g.times_before[k] <= g.clients[k].times.len() by {
        if k < f.clients.len() {
            assert(g.clients[k] == f.clients[k]);
        }
    }
    let bytes = |c: ClientState| c.half1.bytes;
    assert(g.clients.map_values(bytes) =~= f.clients.map_values(bytes).push(c.half1.bytes));
    sum_of_push(f.clients.map_values(bytes), c.half1.bytes);
    let resp = |c: ClientState| c.half1.responses;
    assert(g.clients.map_values(resp) =~= f.clients.map_values(resp).push(c.half1.responses));
    sum_of_push(f.clients.map_values(resp), c.half1.responses);
    assert(times_counts(g) =~= times_counts(f).push(c.times.len()));
    sum_of_push(times_counts(f), c.times.len());
    sum_of_push(f.times_before, 0);
    assert(times_measured(g) =~= times_measured(f).push(Seq::empty()));
    gathered_with_empty_row(times_measured(f), f.times_before);
}

proof fn working_keeps(f: AsyncFleet, g: AsyncFleet, k: int)
    requires
        fleet_holds(f),
        works(f, g, k),
    ensures
        fleet_holds(g),
{
    let s = f.clients[k];
    let t = g.clients[k];
    step_keeps_sound(s, t);
    nothing_is_taken_back(s, t);
    assert forall|j: int| 0 <= j < g.clients.len() implies is_sound(#[trigger] g.clients[j])
        && g.times_before[j] <= g.clients[j].times.len() by {
        if j != k {
            assert(g.clients[j] == f.clients[j]);
        } else {
            assert(f.times_before[k] <= f.clients[k].times.len());
        }
    }
    let bytes = |c: ClientState| c.half1.bytes;
    assert(g.clients.map_values(bytes) =~= f.clients.map_values(bytes).update(k, t.half1.bytes));
    sum_of_update(f.clients.map_values(bytes), k, t.half1.bytes);
    let resp = |c: ClientState| c.half1.responses;
    assert(g.clients.map_values(resp) =~= f.clients.map_values(resp).update(k, t.half1.responses));
    sum_of_update(f.clients.map_values(resp), k, t.half1.responses);
    assert(times_counts(g) =~= times_counts(f).update(k, t.times.len()));
    sum_of_update(times_counts(f), k, t.times.len());
    let more = t.times.skip(s.times.len() as int);
    assert(t.times =~= s.times + more);
    assert(times_measured(g) =~= times_measured(f).update(k, times_measured(f)[k] + more));
    gathered_with_more(times_measured(f), f.times_before, k, more);
    vstd::seq_lib::lemma_multiset_commutative(f.time_table, more);
}

proof fn clearing_keeps(f: AsyncFleet, g: AsyncFleet)
    requires
        fleet_holds(f),
        clears(f, g),
    ensures
        fleet_holds(g),
{
    broadcast use vstd::seq_lib::group_to_multiset_ensures;

    assert forall|k: int| 0 <= k < times_measured(g).len() implies #[trigger] g.times_before[k]
        == times_measured(g)[k].len() by {
        assert(times_counts(f)[k] == f.clients[k].times.len());
    }
    gathered_at_the_ends(times_measured(g), g.times_before);
    assert(g.time_table.to_multiset() =~= vstd::multiset::Multiset::<u64>::empty());
}

proof fn run_holds(run: Seq<AsyncFleet>, i: int)
    requires
        is_run(run),
        0 <= i < run.len(),
    ensures
        fleet_holds(run[i]),
    decreases i,
{
    if i == 0 {
        broadcast use vstd::seq_lib::group_to_multiset_ensures;

        assert(run[0].time_table.to_multiset() =~= vstd::multiset::Multiset::<u64>::empty());
    } else {
        run_holds(run, i - 1);
        let f = run[i - 1];
        let g = run[i];
        assert(goes(f, g));
        if opens(f, g) {
            opening_keeps(f, g);
        } else if clears(f, g) {
            clearing_keeps(f, g);
        } else {
            let k = choose|k: int| #[trigger] works(f, g, k);
            working_keeps(f, g, k);
        }
    }
}

/// What is reported and what is pending is what was received, over all
/// connections; and no connection takes more times than it hands on chunks.
proof fn clients_add_up(clients: Seq<ClientState>)
    requires
        forall|k: int| 0 <= k < clients.len() ==> is_sound(#[trigger] clients[k]),
    ensures
        sum(clients.map_values(|c: ClientState| c.half1.bytes)) + sum(
            clients.map_values(|c: ClientState| unreported(c.half1)),
        ) == sum(clients.map_values(|c: ClientState| c.half1.taken.len())),
        sum(clients.map_values(|c: ClientState| c.half1.responses)) + sum(
            clients.map_values(|c: ClientState| unanswered(c.half1)),
        ) == sum(clients.map_values(|c: ClientState| c.half1.reads)),
        sum(clients.map_values(|c: ClientState| c.times.len())) <= sum(
            clients.map_values(|c: ClientState| c.half2.writes),
        ),
    decreases clients.len(),
{
    let bytes = |c: ClientState| c.half1.bytes;
    let pending = |c: ClientState| unreported(c.half1);
    let taken = |c: ClientState| c.half1.taken.len();
    let resp = |c: ClientState| c.half1.responses;
    let due = |c: ClientState| unanswered(c.half1);
    let reads = |c: ClientState| c.half1.reads;
    let measured = |c: ClientState| c.times.len();
    let made = |c: ClientState| c.half2.writes;
    if clients.len() > 0 {
        let rest = clients.drop_last();
        assert forall|k: int| 0 <= k < rest.len() implies is_sound(#[trigger] rest[k]) by {
            assert(rest[k] == clients[k]);
        }
        clients_add_up(rest);
        assert(is_sound(clients[clients.len() - 1]));
        sound_means(clients.last());
        assert(clients.map_values(bytes).drop_last() =~= rest.map_values(bytes));
        assert(clients.map_values(pending).drop_last() =~= rest.map_values(pending));
        assert(clients.map_values(taken).drop_last() =~= rest.map_values(taken));
        assert(clients.map_values(resp).drop_last() =~= rest.map_values(resp));
        assert(clients.map_values(due).drop_last() =~= rest.map_values(due));
        assert(clients.map_values(reads).drop_last() =~= rest.map_values(reads));
        assert(clients.map_values(measured).drop_last() =~= rest.map_values(measured));
        assert(clients.map_values(made).drop_last() =~= rest.map_values(made));
    }
}

/// The meters are those of all connections together: however they take turns,
/// the byte meter shows what all servers have sent since the meters were last
/// put to zero, but for the bytes that a half has in hand, and the response
/// meter the number of reads that took it, but for those yet to be reported.
pub proof fn meters_add_up(run: Seq<AsyncFleet>, i: int)
    requires
        is_run(run),
        0 <= i < run.len(),
    ensures
        run[i].num_bytes + run[i].bytes_before + bytes_pending(run[i]) == bytes_received(run[i]),
        run[i].num_resp + run[i].responses_before + responses_pending(run[i])
            == responses_received(run[i]),
{
    run_holds(run, i);
    clients_add_up(run[i].clients);
}

/// The latency is that of all connections together: however they take turns,
/// the time table holds exactly the times that they have measured since the
/// meters were last put to zero, in some order, and never more times than
/// chunks were handed to a server.
pub proof fn latencies_add_up(run: Seq<AsyncFleet>, i: int)
    requires
        is_run(run),
        0 <= i < run.len(),
    ensures
        run[i].time_table.to_multiset() == gathered(times_measured(run[i]), run[i].times_before),
        run[i].time_table.len() + sum(run[i].times_before) <= requests_made(run[i]),
{
    run_holds(run, i);
    clients_add_up(run[i].clients);
}

} // verus!
