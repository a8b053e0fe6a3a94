//! What holds of the meters that all connections of a process report to.

use crate::pipe_laws::{
    is_sound, nothing_is_taken_back, sound_means, start_is_sound, starts, step_keeps_sound, takes,
    to_be_counted, PipeState,
};
use crate::sums::{
    gathered, gathered_at_the_ends, gathered_with_empty_row, gathered_with_more, sum, sum_of_push,
    sum_of_update,
};
use vstd::prelude::*;

verus! {

/// The connections of a process at one moment, open and closed, with the byte
/// counter and the time table, and with what the connections had reported
/// when the meters were last cleared: how many bytes in all, and how many times
/// each of them.
pub struct Fleet {
    pub pipes: Seq<PipeState>,
    pub num_bytes: nat,
    pub time_table: Seq<u64>,
    pub bytes_before: nat,
    pub times_before: Seq<nat>,
}

/// What the connections have reported to the byte counter in all.
pub open spec fn bytes_reported(f: Fleet) -> nat {
    sum(f.pipes.map_values(|p: PipeState| p.counted))
}

/// The times that each connection has measured.
pub open spec fn times_measured(f: Fleet) -> Seq<Seq<u64>> {
    f.pipes.map_values(|p: PipeState| p.times)
}

/// How many times each connection has measured.
pub open spec fn times_counts(f: Fleet) -> Seq<nat> {
    f.pipes.map_values(|p: PipeState| p.times.len())
}

/// What the servers have sent in all.
pub open spec fn bytes_received(f: Fleet) -> nat {
    sum(f.pipes.map_values(|p: PipeState| p.from_back.len()))
}

/// What the connections have read from the servers and not yet reported.
pub open spec fn bytes_pending(f: Fleet) -> nat {
    sum(f.pipes.map_values(|p: PipeState| to_be_counted(p)))
}

/// The requests that the servers have accepted in all.
pub open spec fn requests_made(f: Fleet) -> nat {
    sum(f.pipes.map_values(|p: PipeState| p.handed_on))
}

/// A process as it starts.
pub open spec fn begins(f: Fleet) -> bool {
    &&& f.pipes == Seq::<PipeState>::empty()
    &&& f.num_bytes == 0
    &&& f.time_table == Seq::<u64>::empty()
    &&& f.bytes_before == 0
    &&& f.times_before == Seq::<nat>::empty()
}

/// A connection is opened.
pub open spec fn opens(f: Fleet, g: Fleet) -> bool {
    &&& g.pipes.len() == f.pipes.len() + 1
    &&& starts(g.pipes.last())
    &&& g == (Fleet {
        pipes: f.pipes.push(g.pipes.last()),
        times_before: f.times_before.push(0),
        ..f
    })
}

/// The connection `k` takes a step and reports what came of it.
pub open spec fn works(f: Fleet, g: Fleet, k: int) -> bool {
    &&& 0 <= k < f.pipes.len()
    &&& g.pipes.len() == f.pipes.len()
    &&& takes(f.pipes[k], g.pipes[k])
    &&& g == (Fleet {
        pipes: f.pipes.update(k, g.pipes[k]),
        num_bytes: (f.num_bytes + g.pipes[k].counted - f.pipes[k].counted) as nat,
        time_table: f.time_table + g.pipes[k].times.skip(f.pipes[k].times.len() as int),
        ..f
    })
}

/// The meters are cleared.
pub open spec fn clears(f: Fleet, g: Fleet) -> bool {
    g == (Fleet {
        num_bytes: 0,
        time_table: Seq::empty(),
        bytes_before: bytes_reported(f),
        times_before: times_counts(f),
        ..f
    })
}

/// Whether the process goes from `f` to `g` in one step.
pub open spec fn goes(f: Fleet, g: Fleet) -> bool {
    ||| opens(f, g)
    ||| exists|k: int| #[trigger] works(f, g, k)
    ||| clears(f, g)
}

/// The life of a process.
pub open spec fn is_run(run: Seq<Fleet>) -> bool {
    &&& run.len() > 0
    &&& begins(run[0])
    &&& forall|i: int| 0 < i < run.len() ==> goes(run[i - 1], #[trigger] run[i])
}

/// The meters agree with the connections, and every connection is sound.
spec fn fleet_holds(f: Fleet) -> bool {
    &&& f.num_bytes + f.bytes_before == bytes_reported(f)
    &&& f.time_table.len() + sum(f.times_before) == sum(times_counts(f))
    &&& f.times_before.len() == f.pipes.len()
    &&& forall|k: int|
        0 <= k < f.pipes.len() ==> f.times_before[k] <= (#[trigger] f.pipes[k]).times.len()
    &&& f.time_table.to_multiset() == gathered(times_measured(f), f.times_before)
    &&& forall|k: int| 0 <= k < f.pipes.len() ==> is_sound(#[trigger] f.pipes[k])
}

proof fn opening_keeps(f: Fleet, g: Fleet)
    requires
        fleet_holds(f),
        opens(f, g),
    ensures
        fleet_holds(g),
{
    let p = g.pipes.last();
    start_is_sound(p);
    assert forall|k: int| 0 <= k < g.pipes.len() implies is_sound(#[trigger] g.pipes[k]) by {
        if k < f.pipes.len() {
            assert(g.pipes[k] == f.pipes[k]);
        }
    }
    let counted = |p: PipeState| p.counted;
    assert(g.pipes.map_values(counted) =~= f.pipes.map_values(counted).push(p.counted));
    sum_of_push(f.pipes.map_values(counted), p.counted);
    let measured = |p: PipeState| p.times.len();
    assert(g.pipes.map_values(measured) =~= f.pipes.map_values(measured).push(p.times.len()));
    sum_of_push(f.pipes.map_values(measured), p.times.len());
    sum_of_push(f.times_before, 0);
    assert(times_measured(g) =~= times_measured(f).push(Seq::empty()));
    gathered_with_empty_row(times_measured(f), f.times_before);
    assert forall|k: int| 0 <= k < g.pipes.len() implies g.times_before[k] <= (
    #[trigger] g.pipes[k]).times.len() by {
        if k < f.pipes.len() {
            assert(g.pipes[k] == f.pipes[k]);
        }
    }
}

proof fn working_keeps(f: Fleet, g: Fleet, k: int)
    requires
        fleet_holds(f),
        works(f, g, k),
    ensures
        fleet_holds(g),
{
    let s = f.pipes[k];
    let t = g.pipes[k];
    step_keeps_sound(s, t);
    nothing_is_taken_back(s, t);
    assert forall|j: int| 0 <= j < g.pipes.len() implies is_sound(#[trigger] g.pipes[j]) by {
        if j != k {
            assert(g.pipes[j] == f.pipes[j]);
        }
    }
    let counted = |p: PipeState| p.counted;
    assert(g.pipes.map_values(counted) =~= f.pipes.map_values(counted).update(k, t.counted));
    sum_of_update(f.pipes.map_values(counted), k, t.counted);
    let measured = |p: PipeState| p.times.len();
    assert(g.pipes.map_values(measured) =~= f.pipes.map_values(measured).update(k, t.times.len()));
    sum_of_update(f.pipes.map_values(measured), k, t.times.len());
    let more = t.times.skip(s.times.len() as int);
    assert(t.times =~= s.times + more);
    assert(times_measured(g) =~= times_measured(f).update(k, times_measured(f)[k] + more));
    gathered_with_more(times_measured(f), f.times_before, k, more);
    vstd::seq_lib::lemma_multiset_commutative(f.time_table, more);
    assert forall|j: int| 0 <= j < g.pipes.len() implies g.times_before[j] <= (
    #[trigger] g.pipes[j]).times.len() by {
        if j != k {
            assert(g.pipes[j] == f.pipes[j]);
        } else {
            assert(f.times_before[k] <= f.pipes[k].times.len());
        }
    }
}

proof fn clearing_keeps(f: Fleet, g: Fleet)
    requires
        fleet_holds(f),
        clears(f, g),
    ensures
        fleet_holds(g),
{
    broadcast use vstd::seq_lib::group_to_multiset_ensures;

    assert(g.pipes == f.pipes);
    assert(times_counts(g) == times_counts(f));
    assert forall|k: int| 0 <= k < times_measured(g).len() implies #[trigger] g.times_before[k]
        == times_measured(g)[k].len() by {
        assert(times_counts(f)[k] == f.pipes[k].times.len());
    }
    gathered_at_the_ends(times_measured(g), g.times_before);
    assert(g.time_table.to_multiset() =~= vstd::multiset::Multiset::<u64>::empty());
}

proof fn run_holds(run: Seq<Fleet>, i: int)
    requires
        is_run(run),
        0 <= i < run.len(),
    ensures
        fleet_holds(run[i]),
    decreases i,
{
    if i == 0 {
        broadcast use vstd::seq_lib::group_to_multiset_ensures;

        assert(run[0].time_table.to_multiset() =~= vstd::multiset::Multiset::<u64>::empty());
    } else {
        run_holds(run, i - 1);
        let f = run[i - 1];
        let g = run[i];
        assert(goes(f, g));
        if opens(f, g) {
            opening_keeps(f, g);
        } else if clears(f, g) {
            clearing_keeps(f, g);
        } else {
            let k = choose|k: int| works(f, g, k);
            working_keeps(f, g, k);
        }
    }
}

/// What is reported and what is pending is what was received, over all
/// connections; and no connection takes more times than it makes requests.
proof fn pipes_add_up(pipes: Seq<PipeState>)
    requires
        forall|k: int| 0 <= k < pipes.len() ==> is_sound(#[trigger] pipes[k]),
    ensures
        sum(pipes.map_values(|p: PipeState| p.counted)) + sum(
            pipes.map_values(|p: PipeState| to_be_counted(p)),
        ) == sum(pipes.map_values(|p: PipeState| p.from_back.len())),
        sum(pipes.map_values(|p: PipeState| p.times.len())) <= sum(
            pipes.map_values(|p: PipeState| p.handed_on),
        ),
    decreases pipes.len(),
{
    let counted = |p: PipeState| p.counted;
    let pending = |p: PipeState| to_be_counted(p);
    let received = |p: PipeState| p.from_back.len();
    let measured = |p: PipeState| p.times.len();
    let made = |p: PipeState| p.handed_on;
    if pipes.len() > 0 {
        let rest = pipes.drop_last();
        assert forall|k: int| 0 <= k < rest.len() implies is_sound(#[trigger] rest[k]) by {
            assert(rest[k] == pipes[k]);
        }
        pipes_add_up(rest);
        assert(is_sound(pipes[pipes.len() - 1]));
        sound_means(pipes.last());
        assert(pipes.map_values(counted).drop_last() =~= rest.map_values(counted));
        assert(pipes.map_values(pending).drop_last() =~= rest.map_values(pending));
        assert(pipes.map_values(received).drop_last() =~= rest.map_values(received));
        assert(pipes.map_values(measured).drop_last() =~= rest.map_values(measured));
        assert(pipes.map_values(made).drop_last() =~= rest.map_values(made));
    }
}

/// The throughput is that of all connections together: however they take
/// turns, the byte counter shows what all servers have sent since the meters
/// were last cleared, but for the bytes that a connection has in hand.
pub proof fn throughput_adds_up(run: Seq<Fleet>, i: int)
    requires
        is_run(run),
        0 <= i < run.len(),
    ensures
        run[i].num_bytes + run[i].bytes_before == bytes_reported(run[i]),
        run[i].num_bytes + run[i].bytes_before + bytes_pending(run[i]) == bytes_received(run[i]),
{
    run_holds(run, i);
    pipes_add_up(run[i].pipes);
}

/// The latency is that of all connections together: however they take turns,
/// the time table holds exactly the times that they have measured since the
/// meters were last cleared, in some order, and never more times than requests
/// were made.
pub proof fn latencies_add_up(run: Seq<Fleet>, i: int)
    requires
        is_run(run),
        0 <= i < run.len(),
    ensures
        run[i].time_table.to_multiset() == gathered(times_measured(run[i]), run[i].times_before),
        run[i].time_table.len() + sum(run[i].times_before) == sum(times_counts(run[i])),
        run[i].time_table.len() + sum(run[i].times_before) <= requests_made(run[i]),
{
    run_holds(run, i);
    pipes_add_up(run[i].pipes);
}

} // verus!
