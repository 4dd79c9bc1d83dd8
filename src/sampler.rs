use vstd::prelude::*;
use crate::snapshot::{MemorySnapshot, CpuSnapshot};
use crate::aggregator::{Observation, Reading};

verus! {

/// Command line recorded when a process's own cannot be read.
pub const UNKNOWN_COMMAND: &'static str = "unkown";

/// The only owner listed by the one-shot listing of current processes.
pub const LISTED_UID: u32 = 1001;

/// Owner id of a process; one that cannot be read counts as the superuser.
pub open spec fn owner_or_root(uid: Option<u32>) -> u32 {
    match uid {
        Some(u) => u,
        None => 0,
    }
}

/// The command line stands for one that could not be read.
pub open spec fn is_unknown_command(c: Seq<String>) -> bool {
    c.len() == 1 && c[0]@ == UNKNOWN_COMMAND@
}

/// Whether the sampling run tracks a process with owner `uid` (`None` when
/// the owner could not be read): every owner but the superuser.
pub fn is_tracked_owner(uid: Option<u32>) -> (r: bool)
    ensures
        r == (owner_or_root(uid) != 0),
{
    match uid {
        Some(u) => u != 0,
        None => false,
    }
}

/// Whether the one-shot listing shows a process with owner `uid`.
pub fn is_listed_owner(uid: Option<u32>) -> (r: bool)
    ensures
        r == (owner_or_root(uid) == LISTED_UID),
{
    match uid {
        Some(u) => u == LISTED_UID,
        None => false,
    }
}

/// The command line to record: the one read, or the unknown command when
/// the read failed (`None`) or the process has none (`Some(None)`).
pub fn command_or_unknown(cmd: Option<Option<Vec<String>>>) -> (r: Vec<String>)
    ensures
        match cmd {
            Some(Some(c)) => r@ == c@,
            _ => is_unknown_command(r@),
        },
{
    match cmd {
        Some(Some(c)) => c,
        _ => {
            proof {
                reveal_strlit("unkown");
            }
            let mut r: Vec<String> = Vec::new();
            r.push(UNKNOWN_COMMAND.to_owned());
            r
        },
    }
}

/// What one tick learned of a tracked process: a reading when both its
/// memory and its CPU times could be read, else none.
pub fn observe_process(
    pid: u32,
    cmd: Option<Option<Vec<String>>>,
    mem: Option<MemorySnapshot>,
    cpu: Option<CpuSnapshot>,
) -> (r: Observation)
    ensures
        r.pid == pid,
        match cmd {
            Some(Some(c)) => r.cmd@ == c@,
            _ => is_unknown_command(r.cmd@),
        },
        r.reading == match (mem, cpu) {
            (Some(m), Some(c)) => Some(Reading { mem: m, cpu: c }),
            _ => None,
        },
{
    let cmd = command_or_unknown(cmd);
    let reading = match (mem, cpu) {
        (Some(m), Some(c)) => Some(Reading { mem: m, cpu: c }),
        _ => None,
    };
    Observation { pid, cmd, reading }
}

/// One line of the one-shot listing of current processes.
pub struct ProcRow {
    pub pid: u32,
    pub cmd: Vec<String>,
    pub mem: MemorySnapshot,
    pub cpu: CpuSnapshot,
}

/// The listing line of a listed process: present only when both its
/// memory and its CPU times could be read.
pub fn proc_row(
    pid: u32,
    cmd: Option<Option<Vec<String>>>,
    mem: Option<MemorySnapshot>,
    cpu: Option<CpuSnapshot>,
) -> (r: Option<ProcRow>)
    ensures
        r.is_some() == (mem.is_some() && cpu.is_some()),
        r matches Some(row) ==> {
            &&& row.pid == pid
            &&& Some(row.mem) == mem
            &&& Some(row.cpu) == cpu
            &&& match cmd {
                Some(Some(c)) => row.cmd@ == c@,
                _ => is_unknown_command(row.cmd@),
            }
        },
{
    match (mem, cpu) {
        (Some(m), Some(c)) => {
            let cmd = command_or_unknown(cmd);
            Some(ProcRow { pid, cmd, mem: m, cpu: c })
        },
        _ => None,
    }
}

} // verus!
