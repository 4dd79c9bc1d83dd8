use vstd::prelude::*;

verus! {

/// Memory footprint of one process at one tick, in bytes.
#[derive(Clone, Copy, Debug, PartialEq, Eq, Structural)]
pub struct MemorySnapshot {
    pub vms: u64,
    pub rss: u64,
    pub shared: u64,
}

/// CPU time consumed by one process up to one tick, in nanoseconds.
#[derive(Clone, Copy, Debug, PartialEq, Eq, Structural)]
pub struct CpuSnapshot {
    pub user_ns: u128,
    pub system_ns: u128,
    pub busy_ns: u128,
}

/// Which memory counter an average is taken over.
#[derive(Clone, Copy, Debug, PartialEq, Eq, Structural)]
pub enum MemField {
    VirtualSize,
    ResidentSize,
    SharedSize,
}

/// The counter of `m` that `f` selects.
pub open spec fn field_of(m: MemorySnapshot, f: MemField) -> u64 {
    match f {
        MemField::VirtualSize => m.vms,
        MemField::ResidentSize => m.rss,
        MemField::SharedSize => m.shared,
    }
}

impl MemorySnapshot {
    pub fn new(vms: u64, rss: u64, shared: u64) -> (r: MemorySnapshot)
        ensures
            r == (MemorySnapshot { vms, rss, shared }),
    {
        MemorySnapshot { vms, rss, shared }
    }

    /// Reads the counter that `f` selects.
    pub fn field(&self, f: MemField) -> (r: u64)
        ensures
            r == field_of(*self, f),
    {
        match f {
            MemField::VirtualSize => self.vms,
            MemField::ResidentSize => self.rss,
            MemField::SharedSize => self.shared,
        }
    }
}

impl CpuSnapshot {
    pub fn new(user_ns: u128, system_ns: u128, busy_ns: u128) -> (r: CpuSnapshot)
        ensures
            r == (CpuSnapshot { user_ns, system_ns, busy_ns }),
    {
        CpuSnapshot { user_ns, system_ns, busy_ns }
    }
}

} // verus!
