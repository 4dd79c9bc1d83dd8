use vstd::prelude::*;
use std::collections::HashMap;
use crate::snapshot::{MemorySnapshot, CpuSnapshot};
use crate::average::{MemAverage, mem_average_of, mem_avg};

verus! {

broadcast use vstd::std_specs::hash::group_hash_axioms;

/// Memory and CPU counters read for one process at one tick.
#[derive(Clone, Copy, Debug, PartialEq, Eq, Structural)]
pub struct Reading {
    pub mem: MemorySnapshot,
    pub cpu: CpuSnapshot,
}

/// What one tick learned of one tracked process: its id, its command line,
/// and its counters, or `None` when they could not be read (the process
/// is taken to have exited).
pub struct Observation {
    pub pid: u32,
    pub cmd: Vec<String>,
    pub reading: Option<Reading>,
}

/// Abstract state of an [`Aggregator`].
pub struct AggregatorModel {
    /// Memory history of each process with at least one reading.
    pub mem: Map<u32, Seq<MemorySnapshot>>,
    /// CPU history of each process with at least one reading.
    pub cpu: Map<u32, Seq<CpuSnapshot>>,
    /// Command line of each process, as first observed.
    pub cmd: Map<u32, Seq<String>>,
    /// Processes taken to have exited, in order of detection.
    pub done: Seq<u32>,
    /// Exited processes not yet reported.
    pub pending: Seq<u32>,
    /// Processes with a history, in order of first reading.
    pub order: Seq<u32>,
}

impl AggregatorModel {
    pub open spec fn wf(self) -> bool {
        &&& self.mem.dom() == self.cpu.dom()
        &&& forall|p: u32| #[trigger]
            self.mem.contains_key(p) ==> self.mem[p].len() > 0 && self.cpu[p].len()
                == self.mem[p].len()
        &&& self.order.no_duplicates()
        &&& forall|p: u32| #[trigger] self.order.contains(p) <==> self.mem.contains_key(p)
        &&& self.done.no_duplicates()
        &&& self.pending.no_duplicates()
        &&& forall|p: u32| #[trigger] self.pending.contains(p) ==> self.done.contains(p)
    }

    /// Memory history of `pid`, empty if it has none.
    pub open spec fn history(self, pid: u32) -> Seq<MemorySnapshot> {
        if self.mem.contains_key(pid) {
            self.mem[pid]
        } else {
            Seq::empty()
        }
    }

    /// CPU history of `pid`, empty if it has none.
    pub open spec fn cpu_history(self, pid: u32) -> Seq<CpuSnapshot> {
        if self.cpu.contains_key(pid) {
            self.cpu[pid]
        } else {
            Seq::empty()
        }
    }
}

/// The state after taking in one observation: the command line is kept
/// from the first observation; a process already taken as exited gets
/// nothing more; a failed read marks the process exited; a reading is
/// appended to the process's histories.
pub open spec fn record_spec(m: AggregatorModel, o: Observation) -> AggregatorModel {
    let pid = o.pid;
    let cmd = if m.cmd.contains_key(pid) {
        m.cmd
    } else {
        m.cmd.insert(pid, o.cmd@)
    };
    if m.done.contains(pid) {
        AggregatorModel { cmd, ..m }
    } else {
        match o.reading {
            None => AggregatorModel {
                cmd,
                done: m.done.push(pid),
                pending: m.pending.push(pid),
                ..m
            },
            Some(r) => AggregatorModel {
                cmd,
                mem: m.mem.insert(pid, m.history(pid).push(r.mem)),
                cpu: m.cpu.insert(pid, m.cpu_history(pid).push(r.cpu)),
                order: if m.mem.contains_key(pid) {
                    m.order
                } else {
                    m.order.push(pid)
                },
                ..m
            },
        }
    }
}

/// The state after taking in a sequence of observations, in order.
pub open spec fn record_all(m: AggregatorModel, obs: Seq<Observation>) -> AggregatorModel
    decreases obs.len(),
{
    if obs.len() == 0 {
        m
    } else {
        record_spec(record_all(m, obs.drop_last()), obs.last())
    }
}

/// Reports of those of `pids` that have a history, in order.
pub open spec fn reports_of(m: AggregatorModel, pids: Seq<u32>) -> Seq<MemAverage>
    decreases pids.len(),
{
    if pids.len() == 0 {
        Seq::empty()
    } else {
        let p = pids.last();
        let rest = reports_of(m, pids.drop_last());
        if m.mem.contains_key(p) {
            rest.push(mem_average_of(p, m.mem[p]))
        } else {
            rest
        }
    }
}

/// Reports of those of `pids` that have a history and were never taken
/// as exited, in order.
pub open spec fn flush_reports_of(m: AggregatorModel, pids: Seq<u32>) -> Seq<MemAverage>
    decreases pids.len(),
{
    if pids.len() == 0 {
        Seq::empty()
    } else {
        let p = pids.last();
        let rest = flush_reports_of(m, pids.drop_last());
        if m.mem.contains_key(p) && !m.done.contains(p) {
            rest.push(mem_average_of(p, m.mem[p]))
        } else {
            rest
        }
    }
}

proof fn lemma_push_distinct(s: Seq<u32>, x: u32)
    requires
        s.no_duplicates(),
        !s.contains(x),
    ensures
        s.push(x).no_duplicates(),
        forall|y: u32| #[trigger] s.push(x).contains(y) <==> (s.contains(y) || y == x),
{
    let t = s.push(x);
    assert forall|y: u32| #[trigger] t.contains(y) <==> (s.contains(y) || y == x) by {
        if t.contains(y) && y != x {
            let i = choose|i: int| 0 <= i < t.len() && t[i] == y;
            assert(s[i] == y);
        }
        if s.contains(y) {
            let i = choose|i: int| 0 <= i < s.len() && s[i] == y;
            assert(t[i] == y);
        }
        if y == x {
            assert(t[s.len() as int] == x);
        }
    }
    assert forall|i: int, j: int| 0 <= i < t.len() && 0 <= j < t.len() && i != j implies t[i]
        != t[j] by {
        if i == s.len() {
            assert(s.contains(t[j]));
        } else if j == s.len() {
            assert(s.contains(t[i]));
        }
    }
}

pub proof fn lemma_record_wf(m: AggregatorModel, o: Observation)
    requires
        m.wf(),
    ensures
        record_spec(m, o).wf(),
{
    let n = record_spec(m, o);
    let pid = o.pid;
    if !m.done.contains(pid) {
        match o.reading {
            None => {
                assert(!m.pending.contains(pid));
                lemma_push_distinct(m.done, pid);
                lemma_push_distinct(m.pending, pid);
            },
            Some(r) => {
                if !m.mem.contains_key(pid) {
                    assert(!m.order.contains(pid));
                    lemma_push_distinct(m.order, pid);
                }
                assert(n.mem.dom() =~= n.cpu.dom());
            },
        }
    }
}

/// Per-process memory and CPU histories, keyed by process id, with the set
/// of processes taken to have exited.
pub struct Aggregator {
    mem: HashMap<u32, Vec<MemorySnapshot>>,
    cpu: HashMap<u32, Vec<CpuSnapshot>>,
    cmd: HashMap<u32, Vec<String>>,
    done: Vec<u32>,
    pending: Vec<u32>,
    order: Vec<u32>,
}

impl View for Aggregator {
    type V = AggregatorModel;

    closed spec fn view(&self) -> AggregatorModel {
        AggregatorModel {
            mem: self.mem@.map_values(|v: Vec<MemorySnapshot>| v@),
            cpu: self.cpu@.map_values(|v: Vec<CpuSnapshot>| v@),
            cmd: self.cmd@.map_values(|v: Vec<String>| v@),
            done: self.done@,
            pending: self.pending@,
            order: self.order@,
        }
    }
}

fn contains_pid(v: &Vec<u32>, pid: u32) -> (r: bool)
    ensures
        r == v@.contains(pid),
{
    let mut i: usize = 0;
    while i < v.len()
        invariant
            0 <= i <= v@.len(),
            forall|j: int| 0 <= j < i ==> v@[j] != pid,
        decreases v@.len() - i,
    {
        if v[i] == pid {
            return true;
        }
        i = i + 1;
    }
    false
}

impl Aggregator {
    pub open spec fn wf(&self) -> bool {
        self@.wf()
    }

    /// An aggregator that has seen nothing.
    pub fn new() -> (r: Aggregator)
        ensures
            r.wf(),
            r@.mem == Map::<u32, Seq<MemorySnapshot>>::empty(),
            r@.cpu == Map::<u32, Seq<CpuSnapshot>>::empty(),
            r@.cmd == Map::<u32, Seq<String>>::empty(),
            r@.done == Seq::<u32>::empty(),
            r@.pending == Seq::<u32>::empty(),
            r@.order == Seq::<u32>::empty(),
    {
        let r = Aggregator {
            mem: HashMap::new(),
            cpu: HashMap::new(),
            cmd: HashMap::new(),
            done: Vec::new(),
            pending: Vec::new(),
            order: Vec::new(),
        };
        assert(r@.mem =~= Map::<u32, Seq<MemorySnapshot>>::empty());
        assert(r@.cpu =~= Map::<u32, Seq<CpuSnapshot>>::empty());
        assert(r@.cmd =~= Map::<u32, Seq<String>>::empty());
        r
    }

    /// Takes in one observation; returns whether it marked the process as
    /// exited just now.
    pub fn record(&mut self, obs: Observation) -> (newly_done: bool)
        requires
            old(self).wf(),
        ensures
            final(self).wf(),
            final(self)@ == record_spec(old(self)@, obs),
            newly_done == (!old(self)@.done.contains(obs.pid) && obs.reading.is_none()),
    {
        proof {
            lemma_record_wf(self@, obs);
        }
        let ghost m = self@;
        let ghost o = obs;
        let Observation { pid, cmd, reading } = obs;
        if !self.cmd.contains_key(&pid) {
            self.cmd.insert(pid, cmd);
        }
        assert(self@.cmd =~= record_spec(m, o).cmd);
        if contains_pid(&self.done, pid) {
            assert(self@ == record_spec(m, o));
            return false;
        }
        match reading {
            None => {
                self.done.push(pid);
                self.pending.push(pid);
                assert(self@ == record_spec(m, o));
                true
            },
            Some(r) => {
                let had = self.mem.contains_key(&pid);
                let mut mv = match self.mem.remove(&pid) {
                    Some(v) => v,
                    None => Vec::new(),
                };
                mv.push(r.mem);
                self.mem.insert(pid, mv);
                let mut cv = match self.cpu.remove(&pid) {
                    Some(v) => v,
                    None => Vec::new(),
                };
                cv.push(r.cpu);
                self.cpu.insert(pid, cv);
                if !had {
                    self.order.push(pid);
                }
                assert(self@.mem =~= record_spec(m, o).mem);
                assert(self@.cpu =~= record_spec(m, o).cpu);
                assert(self@ == record_spec(m, o));
                false
            },
        }
    }

    /// Takes in one tick's observations, in order; returns the processes
    /// that they marked as exited, in order of detection.
    pub fn observe_tick(&mut self, obs: Vec<Observation>) -> (exited: Vec<u32>)
        requires
            old(self).wf(),
        ensures
            final(self).wf(),
            final(self)@ == record_all(old(self)@, obs@),
            old(self)@.done + exited@ == final(self)@.done,
    {
        let ghost m0 = self@;
        let ghost all = obs@;
        let mut rest = obs;
        let mut exited: Vec<u32> = Vec::new();
        let ghost mut i: int = 0;
        assert(all.subrange(0, 0) =~= Seq::<Observation>::empty());
        assert(m0.done + exited@ =~= m0.done);
        while rest.len() > 0
            invariant
                self.wf(),
                0 <= i <= all.len(),
                rest@ == all.subrange(i, all.len() as int),
                self@ == record_all(m0, all.subrange(0, i)),
                m0.done + exited@ == self@.done,
            decreases rest@.len(),
        {
            let o = rest.remove(0);
            proof {
                assert(o == all[i]);
                let next = all.subrange(0, i + 1);
                assert(next.drop_last() =~= all.subrange(0, i));
                assert(next.last() == o);
            }
            let ghost before = self@;
            let pid = o.pid;
            let gone = self.record(o);
            if gone {
                exited.push(pid);
                assert(m0.done + exited@ =~= self@.done);
            } else {
                assert(self@.done == before.done);
            }
            proof {
                i = i + 1;
                assert(rest@ =~= all.subrange(i, all.len() as int));
            }
        }
        assert(all.subrange(0, all.len() as int) =~= all);
        exited
    }

    /// Reports each process marked as exited since the last call that has
    /// a history, in order of detection, and forgets them as pending.
    pub fn end_tick(&mut self) -> (reports: Vec<MemAverage>)
        requires
            old(self).wf(),
        ensures
            final(self).wf(),
            reports@ == reports_of(old(self)@, old(self)@.pending),
            final(self)@ == (AggregatorModel { pending: Seq::empty(), ..old(self)@ }),
    {
        let mut reports: Vec<MemAverage> = Vec::new();
        let mut i: usize = 0;
        while i < self.pending.len()
            invariant
                self.wf(),
                0 <= i <= self@.pending.len(),
                reports@ == reports_of(self@, self@.pending.subrange(0, i as int)),
            decreases self@.pending.len() - i,
        {
            let p = self.pending[i];
            proof {
                let next = self@.pending.subrange(0, i + 1);
                assert(next.drop_last() =~= self@.pending.subrange(0, i as int));
                assert(next.last() == p);
            }
            match self.mem.get(&p) {
                Some(v) => {
                    assert(self@.mem[p] == v@);
                    reports.push(mem_avg(p, v));
                },
                None => {},
            }
            i = i + 1;
        }
        assert(self@.pending.subrange(0, i as int) =~= self@.pending);
        let ghost m = self@;
        self.pending = Vec::new();
        assert(self@ =~= (AggregatorModel { pending: Seq::empty(), ..m }));
        reports
    }

    /// Reports every process with a history that was never marked as
    /// exited, in order of first reading.
    pub fn final_flush(&self) -> (reports: Vec<MemAverage>)
        requires
            self.wf(),
        ensures
            reports@ == flush_reports_of(self@, self@.order),
    {
        let mut reports: Vec<MemAverage> = Vec::new();
        let mut i: usize = 0;
        while i < self.order.len()
            invariant
                self.wf(),
                0 <= i <= self@.order.len(),
                reports@ == flush_reports_of(self@, self@.order.subrange(0, i as int)),
            decreases self@.order.len() - i,
        {
            let p = self.order[i];
            proof {
                let next = self@.order.subrange(0, i + 1);
                assert(next.drop_last() =~= self@.order.subrange(0, i as int));
                assert(next.last() == p);
            }
            if !contains_pid(&self.done, p) {
                match self.mem.get(&p) {
                    Some(v) => {
                        assert(self@.mem[p] == v@);
                        reports.push(mem_avg(p, v));
                    },
                    None => {},
                }
            }
            i = i + 1;
        }
        assert(self@.order.subrange(0, i as int) =~= self@.order);
        reports
    }

    /// Memory history of `pid`, if it has one.
    pub fn mem_history(&self, pid: u32) -> (r: Option<&Vec<MemorySnapshot>>)
        requires
            self.wf(),
        ensures
            r.is_some() == self@.mem.contains_key(pid),
            r matches Some(v) ==> v@ == self@.mem[pid],
    {
        self.mem.get(&pid)
    }

    /// CPU history of `pid`, if it has one.
    pub fn cpu_history(&self, pid: u32) -> (r: Option<&Vec<CpuSnapshot>>)
        requires
            self.wf(),
        ensures
            r.is_some() == self@.cpu.contains_key(pid),
            r matches Some(v) ==> v@ == self@.cpu[pid],
    {
        self.cpu.get(&pid)
    }

    /// Command line of `pid` as first observed, if it was observed.
    pub fn command(&self, pid: u32) -> (r: Option<&Vec<String>>)
        requires
            self.wf(),
        ensures
            r.is_some() == self@.cmd.contains_key(pid),
            r matches Some(v) ==> v@ == self@.cmd[pid],
    {
        self.cmd.get(&pid)
    }

    /// Processes taken to have exited, in order of detection.
    pub fn done_pids(&self) -> (r: &Vec<u32>)
        ensures
            r@ == self@.done,
    {
        &self.done
    }

    /// Processes with a history, in order of first reading.
    pub fn tracked_pids(&self) -> (r: &Vec<u32>)
        ensures
            r@ == self@.order,
    {
        &self.order
    }
}

} // verus!
