use pagurus::aggregator::{Aggregator, Observation, Reading};
use pagurus::average::{avgmem, mem_avg, MemAverage};
use pagurus::driver::{action_of, next_phase, start, Action, Phase, TICKS};
use pagurus::sampler::{
    command_or_unknown, is_listed_owner, is_tracked_owner, observe_process, proc_row,
    UNKNOWN_COMMAND,
};
use pagurus::snapshot::{CpuSnapshot, MemField, MemorySnapshot};

fn mem(vms: u64, rss: u64, shared: u64) -> MemorySnapshot {
    MemorySnapshot::new(vms, rss, shared)
}

fn cpu(n: u128) -> CpuSnapshot {
    CpuSnapshot::new(n, n, 2 * n)
}

fn seen(pid: u32, name: &str, m: MemorySnapshot, c: CpuSnapshot) -> Observation {
    Observation { pid, cmd: vec![name.to_string()], reading: Some(Reading { mem: m, cpu: c }) }
}

fn unreadable(pid: u32, name: &str) -> Observation {
    Observation { pid, cmd: vec![name.to_string()], reading: None }
}

#[test]
fn average_truncates_mean() {
    let h = vec![mem(10, 7, 1), mem(21, 8, 2)];
    assert_eq!(avgmem(&h, MemField::VirtualSize), 15);
    assert_eq!(avgmem(&h, MemField::ResidentSize), 7);
    assert_eq!(avgmem(&h, MemField::SharedSize), 1);
}

#[test]
fn average_of_single_snapshot_is_identity() {
    let h = vec![mem(2000, 1000, 500)];
    assert_eq!(avgmem(&h, MemField::VirtualSize), 2000);
    assert_eq!(avgmem(&h, MemField::ResidentSize), 1000);
    assert_eq!(avgmem(&h, MemField::SharedSize), 500);
}

#[test]
fn average_of_largest_counters_does_not_overflow() {
    let h = vec![mem(u64::MAX, u64::MAX, 0), mem(u64::MAX, u64::MAX - 1, 1)];
    assert_eq!(avgmem(&h, MemField::VirtualSize), u64::MAX);
    assert_eq!(avgmem(&h, MemField::ResidentSize), u64::MAX - 1);
    assert_eq!(avgmem(&h, MemField::SharedSize), 0);
}

#[test]
fn mem_avg_reports_three_means() {
    let h = vec![mem(3, 6, 9), mem(4, 7, 10), mem(5, 8, 12)];
    assert_eq!(mem_avg(42, &h), MemAverage { pid: 42, vms: 4, rss: 7, shared: 10 });
}

#[test]
fn failed_read_marks_exited_once_and_freezes_history() {
    let mut a = Aggregator::new();
    assert!(!a.record(seen(7, "p", mem(1, 1, 1), cpu(1))));
    assert!(a.record(unreadable(7, "p")));
    assert!(!a.record(unreadable(7, "p")));
    assert!(!a.record(seen(7, "p", mem(9, 9, 9), cpu(9))));
    assert_eq!(a.done_pids(), &vec![7]);
    assert_eq!(a.mem_history(7).unwrap(), &vec![mem(1, 1, 1)]);
    assert_eq!(a.cpu_history(7).unwrap(), &vec![cpu(1)]);
}

#[test]
fn exited_process_reported_at_end_of_its_tick_only() {
    let mut a = Aggregator::new();
    a.observe_tick(vec![seen(3, "x", mem(4, 2, 1), cpu(1))]);
    assert!(a.end_tick().is_empty());
    let exited = a.observe_tick(vec![unreadable(3, "x")]);
    assert_eq!(exited, vec![3]);
    assert_eq!(a.end_tick(), vec![MemAverage { pid: 3, vms: 4, rss: 2, shared: 1 }]);
    a.observe_tick(vec![unreadable(3, "x")]);
    assert!(a.end_tick().is_empty());
    assert!(a.final_flush().is_empty());
}

#[test]
fn process_without_history_is_never_reported() {
    let mut a = Aggregator::new();
    let exited = a.observe_tick(vec![unreadable(5, "y")]);
    assert_eq!(exited, vec![5]);
    assert!(a.end_tick().is_empty());
    assert!(a.final_flush().is_empty());
    assert_eq!(a.command(5).unwrap(), &vec!["y".to_string()]);
    assert!(a.mem_history(5).is_none());
}

#[test]
fn survivor_reported_once_at_final_flush_with_full_history() {
    let mut a = Aggregator::new();
    for t in 0..TICKS {
        let exited = a.observe_tick(vec![seen(11, "s", mem(t as u64, 2 * t as u64, 3), cpu(1))]);
        assert!(exited.is_empty());
        assert!(a.end_tick().is_empty());
    }
    assert_eq!(a.mem_history(11).unwrap().len(), 100);
    assert!(a.done_pids().is_empty());
    assert_eq!(a.tracked_pids(), &vec![11]);
    let flushed = a.final_flush();
    assert_eq!(flushed, vec![MemAverage { pid: 11, vms: 49, rss: 99, shared: 3 }]);
}

#[test]
fn midrun_process_has_twenty_snapshots() {
    let mut a = Aggregator::new();
    let mut reports = Vec::new();
    for t in 0..TICKS {
        let mut obs = vec![seen(1, "a", mem(2, 2, 2), cpu(1))];
        if (30..50).contains(&t) {
            obs.push(seen(2, "b", mem(8, 6, 4), cpu(2)));
        } else if t >= 50 {
            obs.push(unreadable(2, "b"));
        }
        a.observe_tick(obs);
        reports.extend(a.end_tick());
    }
    assert_eq!(a.mem_history(2).unwrap().len(), 20);
    assert_eq!(a.cpu_history(2).unwrap().len(), 20);
    assert_eq!(reports, vec![MemAverage { pid: 2, vms: 8, rss: 6, shared: 4 }]);
    assert_eq!(a.done_pids(), &vec![2]);
}

#[test]
fn two_process_scenario() {
    let mut a = Aggregator::new();
    let mut lines: Vec<(usize, MemAverage)> = Vec::new();
    for t in 0..TICKS {
        let mut obs = vec![seen(100, "proc-a", mem(2000, 1000, 500), cpu(t as u128))];
        let b_cmd = if t == 0 { "proc-b" } else { "renamed-b" };
        if t < 10 {
            obs.push(seen(200, b_cmd, mem(4000, 3000, 700), cpu(t as u128)));
        } else {
            obs.push(unreadable(200, b_cmd));
        }
        let exited = a.observe_tick(obs);
        if t == 10 {
            assert_eq!(exited, vec![200]);
        } else {
            assert!(exited.is_empty());
        }
        for r in a.end_tick() {
            lines.push((t as usize, r));
        }
    }
    for r in a.final_flush() {
        lines.push((TICKS as usize, r));
    }
    assert_eq!(
        lines,
        vec![
            (10, MemAverage { pid: 200, vms: 4000, rss: 3000, shared: 700 }),
            (100, MemAverage { pid: 100, vms: 2000, rss: 1000, shared: 500 }),
        ]
    );
    assert_eq!(a.command(100).unwrap(), &vec!["proc-a".to_string()]);
    assert_eq!(a.command(200).unwrap(), &vec!["proc-b".to_string()]);
    assert_eq!(a.mem_history(200).unwrap().len(), 10);
    assert_eq!(a.mem_history(100).unwrap().len(), 100);
}

#[test]
fn listing_failure_aborts_run() {
    let p = next_phase(start(), false);
    assert_eq!(p, Phase::Aborted);
    assert_eq!(action_of(p), Action::Stop);
    assert_eq!(next_phase(p, true), Phase::Aborted);
}

#[test]
fn run_samples_hundred_ticks_then_flushes() {
    let mut p = start();
    let mut samples = 0;
    while action_of(p) == Action::SampleTick {
        samples += 1;
        p = next_phase(p, true);
    }
    assert_eq!(samples, 100);
    assert_eq!(p, Phase::FinalFlush);
    assert_eq!(action_of(p), Action::Flush);
    let p = next_phase(p, true);
    assert_eq!(p, Phase::Terminated);
    assert_eq!(action_of(p), Action::Stop);
}

#[test]
fn owner_filters() {
    assert!(!is_tracked_owner(None));
    assert!(!is_tracked_owner(Some(0)));
    assert!(is_tracked_owner(Some(1000)));
    assert!(is_listed_owner(Some(1001)));
    assert!(!is_listed_owner(Some(1000)));
    assert!(!is_listed_owner(None));
}

#[test]
fn command_defaults_to_unknown() {
    let c = vec!["ls".to_string(), "-l".to_string()];
    assert_eq!(command_or_unknown(Some(Some(c.clone()))), c);
    assert_eq!(command_or_unknown(Some(None)), vec![UNKNOWN_COMMAND.to_string()]);
    assert_eq!(command_or_unknown(None), vec!["unkown".to_string()]);
}

#[test]
fn observation_needs_both_reads() {
    let o = observe_process(9, None, Some(mem(1, 2, 3)), None);
    assert_eq!(o.pid, 9);
    assert!(o.reading.is_none());
    assert_eq!(o.cmd, vec!["unkown".to_string()]);
    let o = observe_process(9, Some(Some(vec!["z".to_string()])), Some(mem(1, 2, 3)), Some(cpu(4)));
    assert_eq!(o.reading, Some(Reading { mem: mem(1, 2, 3), cpu: cpu(4) }));
    assert_eq!(o.cmd, vec!["z".to_string()]);
}

#[test]
fn listing_row_needs_both_reads() {
    assert!(proc_row(4, None, None, Some(cpu(1))).is_none());
    let row = proc_row(4, Some(None), Some(mem(5, 6, 7)), Some(cpu(1))).unwrap();
    assert_eq!(row.pid, 4);
    assert_eq!(row.mem, mem(5, 6, 7));
    assert_eq!(row.cpu, cpu(1));
    assert_eq!(row.cmd, vec!["unkown".to_string()]);
}
