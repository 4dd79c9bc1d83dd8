use vstd::prelude::*;
use crate::snapshot::MemorySnapshot;
use crate::average::{MemAverage, mem_average_of};
use crate::aggregator::{
    AggregatorModel, Observation, record_spec, record_all, reports_of, flush_reports_of,
    lemma_record_wf,
};

verus! {

/// The memory readings that `obs` holds for `pid`, in order.
pub open spec fn readings_of(obs: Seq<Observation>, pid: u32) -> Seq<MemorySnapshot>
    decreases obs.len(),
{
    if obs.len() == 0 {
        Seq::empty()
    } else {
        let o = obs.last();
        let rest = readings_of(obs.drop_last(), pid);
        match o.reading {
            Some(r) => if o.pid == pid {
                rest.push(r.mem)
            } else {
                rest
            },
            None => rest,
        }
    }
}

/// Every observation of `pid` in `obs` carries a reading.
pub open spec fn always_readable(obs: Seq<Observation>, pid: u32) -> bool {
    forall|i: int| 0 <= i < obs.len() && #[trigger] obs[i].pid == pid ==> obs[i].reading.is_some()
}

/// The reports in `r` that concern `pid`, in order.
pub open spec fn reports_for(r: Seq<MemAverage>, pid: u32) -> Seq<MemAverage>
    decreases r.len(),
{
    if r.len() == 0 {
        Seq::empty()
    } else {
        let rest = reports_for(r.drop_last(), pid);
        if r.last().pid == pid {
            rest.push(r.last())
        } else {
            rest
        }
    }
}

/// Taking in observations keeps the aggregator's invariant.
pub proof fn lemma_record_all_wf(m: AggregatorModel, obs: Seq<Observation>)
    requires
        m.wf(),
    ensures
        record_all(m, obs).wf(),
    decreases obs.len(),
{
    if obs.len() > 0 {
        lemma_record_all_wf(m, obs.drop_last());
        lemma_record_wf(record_all(m, obs.drop_last()), obs.last());
    }
}

/// Observations taken in two runs give the state of one run over both.
pub proof fn lemma_record_all_concat(m: AggregatorModel, a: Seq<Observation>, b: Seq<Observation>)
    ensures
        record_all(m, a + b) == record_all(record_all(m, a), b),
    decreases b.len(),
{
    if b.len() == 0 {
        assert(a + b =~= a);
    } else {
        assert((a + b).drop_last() =~= a + b.drop_last());
        assert((a + b).last() == b.last());
        lemma_record_all_concat(m, a, b.drop_last());
    }
}

/// Once a process is taken as exited it stays so, exactly once in the
/// exited list, and its histories never grow again.
pub proof fn lemma_done_is_frozen(m: AggregatorModel, obs: Seq<Observation>, pid: u32)
    requires
        m.wf(),
        m.done.contains(pid),
    ensures
        record_all(m, obs).done.contains(pid),
        record_all(m, obs).done.no_duplicates(),
        record_all(m, obs).history(pid) == m.history(pid),
        record_all(m, obs).cpu_history(pid) == m.cpu_history(pid),
    decreases obs.len(),
{
    lemma_record_all_wf(m, obs);
    if obs.len() > 0 {
        lemma_done_is_frozen(m, obs.drop_last(), pid);
        let prev = record_all(m, obs.drop_last());
        let o = obs.last();
        if !prev.done.contains(o.pid) && o.reading.is_none() {
            let i = choose|i: int| 0 <= i < prev.done.len() && prev.done[i] == pid;
            assert(prev.done.push(o.pid)[i] == pid);
        }
    }
}

/// A failed read marks the process as exited: after that observation and
/// any later ones it is in the exited list exactly once, and its memory
/// and CPU histories are those it had before the failed read.
pub proof fn lemma_exit_is_final(m: AggregatorModel, o: Observation, later: Seq<Observation>)
    requires
        m.wf(),
        o.reading.is_none(),
    ensures
        record_all(record_spec(m, o), later).done.contains(o.pid),
        record_all(record_spec(m, o), later).done.no_duplicates(),
        record_all(record_spec(m, o), later).history(o.pid) == m.history(o.pid),
        record_all(record_spec(m, o), later).cpu_history(o.pid) == m.cpu_history(o.pid),
{
    lemma_record_wf(m, o);
    let n = record_spec(m, o);
    if !m.done.contains(o.pid) {
        assert(n.done[m.done.len() as int] == o.pid);
    }
    lemma_done_is_frozen(n, later, o.pid);
}

/// A process that is not taken as exited and whose every observation
/// carries a reading keeps not being taken as exited, and its memory
/// history grows by exactly its readings, in order.
pub proof fn lemma_history_follows_readings(m: AggregatorModel, obs: Seq<Observation>, pid: u32)
    requires
        m.wf(),
        !m.done.contains(pid),
        always_readable(obs, pid),
    ensures
        !record_all(m, obs).done.contains(pid),
        record_all(m, obs).history(pid) == m.history(pid) + readings_of(obs, pid),
    decreases obs.len(),
{
    if obs.len() == 0 {
        assert(m.history(pid) + Seq::<MemorySnapshot>::empty() =~= m.history(pid));
    } else {
        let pre = obs.drop_last();
        assert forall|i: int| 0 <= i < pre.len() && #[trigger] pre[i].pid == pid implies pre[i].reading.is_some() by {
            assert(obs[i] == pre[i]);
        }
        lemma_history_follows_readings(m, pre, pid);
        let prev = record_all(m, pre);
        let o = obs.last();
        assert(obs[obs.len() - 1] == o);
        if o.pid != pid && !prev.done.contains(o.pid) && o.reading.is_none() {
            assert forall|i: int| 0 <= i < prev.done.push(o.pid).len() implies prev.done.push(o.pid)[i] != pid by {
                if i < prev.done.len() {
                    assert(prev.done.push(o.pid)[i] == prev.done[i]);
                }
            }
        }
        if o.pid == pid {
            match o.reading {
                Some(r) => {
                    assert(m.history(pid) + readings_of(pre, pid).push(r.mem) =~= (m.history(pid)
                        + readings_of(pre, pid)).push(r.mem));
                },
                None => {},
            }
        }
    }
}

proof fn lemma_flush_prefix_reports(f: AggregatorModel, pid: u32, k: int)
    requires
        f.wf(),
        f.mem.contains_key(pid),
        !f.done.contains(pid),
        0 <= k <= f.order.len(),
    ensures
        reports_for(flush_reports_of(f, f.order.subrange(0, k)), pid) == if f.order.subrange(
            0,
            k,
        ).contains(pid) {
            seq![mem_average_of(pid, f.mem[pid])]
        } else {
            Seq::<MemAverage>::empty()
        },
    decreases k,
{
    let s = f.order.subrange(0, k);
    if k > 0 {
        lemma_flush_prefix_reports(f, pid, k - 1);
        let pre = f.order.subrange(0, k - 1);
        assert(s.drop_last() =~= pre);
        let p = s.last();
        let rest = flush_reports_of(f, pre);
        assert forall|x: u32| s.contains(x) <==> (pre.contains(x) || x == p) by {
            if s.contains(x) && x != p {
                let i = choose|i: int| 0 <= i < s.len() && s[i] == x;
                assert(pre[i] == x);
            }
            if pre.contains(x) {
                let i = choose|i: int| 0 <= i < pre.len() && pre[i] == x;
                assert(s[i] == x);
            }
            assert(s[k - 1] == p);
        }
        if p == pid {
            if pre.contains(pid) {
                let i = choose|i: int| 0 <= i < pre.len() && pre[i] == pid;
                assert(f.order[i] == f.order[k - 1]);
            }
            let a = mem_average_of(pid, f.mem[pid]);
            assert(rest.push(a).drop_last() =~= rest);
            assert(seq![a] =~= Seq::<MemAverage>::empty().push(a));
        } else {
            if f.mem.contains_key(p) && !f.done.contains(p) {
                let a = mem_average_of(p, f.mem[p]);
                assert(rest.push(a).drop_last() =~= rest);
            }
        }
    } else {
        assert(s =~= Seq::<u32>::empty());
    }
}

/// At the final flush every process with a history that was never taken
/// as exited is reported exactly once, over its whole history.
pub proof fn lemma_flush_reports_survivor_once(f: AggregatorModel, pid: u32)
    requires
        f.wf(),
        f.mem.contains_key(pid),
        !f.done.contains(pid),
    ensures
        reports_for(flush_reports_of(f, f.order), pid) == seq![mem_average_of(pid, f.mem[pid])],
{
    lemma_flush_prefix_reports(f, pid, f.order.len() as int);
    assert(f.order.subrange(0, f.order.len() as int) =~= f.order);
}

/// A process that can be read on every observation of a run, and was read
/// at least once, is never taken as exited; the final flush reports it
/// exactly once, over all of its readings of the run.
pub proof fn lemma_survivor_reported_at_flush(m: AggregatorModel, obs: Seq<Observation>, pid: u32)
    requires
        m.wf(),
        !m.done.contains(pid),
        !m.mem.contains_key(pid),
        always_readable(obs, pid),
        readings_of(obs, pid).len() > 0,
    ensures
        !record_all(m, obs).done.contains(pid),
        record_all(m, obs).history(pid) == readings_of(obs, pid),
        reports_for(flush_reports_of(record_all(m, obs), record_all(m, obs).order), pid) == seq![
            mem_average_of(pid, readings_of(obs, pid)),
        ],
{
    lemma_record_all_wf(m, obs);
    lemma_history_follows_readings(m, obs, pid);
    assert(m.history(pid) + readings_of(obs, pid) =~= readings_of(obs, pid));
    lemma_flush_reports_survivor_once(record_all(m, obs), pid);
}

/// A process first read during a run and then failing a read has, from then
/// on, a history of exactly the readings it had before the failure.
pub proof fn lemma_exited_history(
    m: AggregatorModel,
    before: Seq<Observation>,
    gone: Observation,
    after: Seq<Observation>,
)
    requires
        m.wf(),
        !m.done.contains(gone.pid),
        !m.mem.contains_key(gone.pid),
        always_readable(before, gone.pid),
        gone.reading.is_none(),
    ensures
        record_all(m, before.push(gone) + after).history(gone.pid) == readings_of(before, gone.pid),
        record_all(m, before.push(gone) + after).done.contains(gone.pid),
{
    let pid = gone.pid;
    lemma_record_all_wf(m, before);
    lemma_history_follows_readings(m, before, pid);
    assert(m.history(pid) + readings_of(before, pid) =~= readings_of(before, pid));
    let mid = record_all(m, before);
    assert(before.push(gone).drop_last() =~= before);
    assert(record_all(m, before.push(gone)) == record_spec(mid, gone));
    lemma_exit_is_final(mid, gone, after);
    lemma_record_all_concat(m, before.push(gone), after);
}

proof fn lemma_tick_prefix_reports(m: AggregatorModel, pid: u32, k: int)
    requires
        m.wf(),
        !m.done.contains(pid),
        0 <= k <= m.pending.len(),
    ensures
        reports_for(reports_of(m, m.pending.subrange(0, k)), pid) == Seq::<MemAverage>::empty(),
    decreases k,
{
    if k > 0 {
        let s = m.pending.subrange(0, k);
        let pre = m.pending.subrange(0, k - 1);
        assert(s.drop_last() =~= pre);
        lemma_tick_prefix_reports(m, pid, k - 1);
        let p = s.last();
        assert(m.pending[k - 1] == p);
        assert(m.pending.contains(p));
        let rest = reports_of(m, pre);
        if m.mem.contains_key(p) {
            assert(rest.push(mem_average_of(p, m.mem[p])).drop_last() =~= rest);
        }
    }
}

/// The reports made at the end of a tick concern only processes taken as
/// exited: a process that never was is reported by none of them.
pub proof fn lemma_tick_reports_only_exited(m: AggregatorModel, pid: u32)
    requires
        m.wf(),
        !m.done.contains(pid),
    ensures
        reports_for(reports_of(m, m.pending), pid) == Seq::<MemAverage>::empty(),
{
    lemma_tick_prefix_reports(m, pid, m.pending.len() as int);
    assert(m.pending.subrange(0, m.pending.len() as int) =~= m.pending);
}

/// Which exited processes are still to be reported has no bearing on how
/// observations are taken in: the rest of the state comes out the same.
pub proof fn lemma_pending_has_no_bearing(
    m: AggregatorModel,
    pending: Seq<u32>,
    obs: Seq<Observation>,
)
    ensures
        record_all(AggregatorModel { pending, ..m }, obs).mem == record_all(m, obs).mem,
        record_all(AggregatorModel { pending, ..m }, obs).cpu == record_all(m, obs).cpu,
        record_all(AggregatorModel { pending, ..m }, obs).cmd == record_all(m, obs).cmd,
        record_all(AggregatorModel { pending, ..m }, obs).done == record_all(m, obs).done,
        record_all(AggregatorModel { pending, ..m }, obs).order == record_all(m, obs).order,
    decreases obs.len(),
{
    if obs.len() > 0 {
        lemma_pending_has_no_bearing(m, pending, obs.drop_last());
    }
}

} // verus!
