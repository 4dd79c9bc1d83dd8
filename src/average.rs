use vstd::prelude::*;
use crate::snapshot::{MemorySnapshot, MemField, field_of};

verus! {

/// Sum of the selected counter over a history.
pub open spec fn field_sum(h: Seq<MemorySnapshot>, f: MemField) -> int
    decreases h.len(),
{
    if h.len() == 0 {
        0
    } else {
        field_sum(h.drop_last(), f) + field_of(h.last(), f)
    }
}

/// Integer-truncated arithmetic mean of the selected counter over a
/// non-empty history.
pub open spec fn field_mean(h: Seq<MemorySnapshot>, f: MemField) -> int
    recommends
        h.len() > 0,
{
    field_sum(h, f) / (h.len() as int)
}

/// The three averaged counters reported for one finished process.
#[derive(Clone, Copy, Debug, PartialEq, Eq, Structural)]
pub struct MemAverage {
    pub pid: u32,
    pub vms: u64,
    pub rss: u64,
    pub shared: u64,
}

/// The report of `pid` over history `h`.
pub open spec fn mem_average_of(pid: u32, h: Seq<MemorySnapshot>) -> MemAverage
    recommends
        h.len() > 0,
{
    MemAverage {
        pid,
        vms: field_mean(h, MemField::VirtualSize) as u64,
        rss: field_mean(h, MemField::ResidentSize) as u64,
        shared: field_mean(h, MemField::SharedSize) as u64,
    }
}

proof fn lemma_field_sum_bounds(h: Seq<MemorySnapshot>, f: MemField)
    ensures
        0 <= field_sum(h, f) <= h.len() * (u64::MAX as int),
    decreases h.len(),
{
    if h.len() > 0 {
        lemma_field_sum_bounds(h.drop_last(), f);
        assert((h.len() - 1) * (u64::MAX as int) + u64::MAX == h.len() * (u64::MAX as int))
            by (nonlinear_arith);
    }
}

/// The mean lies between zero and the largest counter value.
proof fn lemma_field_mean_fits(h: Seq<MemorySnapshot>, f: MemField)
    requires
        h.len() > 0,
    ensures
        0 <= field_mean(h, f) <= u64::MAX,
{
    lemma_field_sum_bounds(h, f);
    let s = field_sum(h, f);
    let n = h.len() as int;
    assert(s / n <= u64::MAX) by (nonlinear_arith)
        requires
            0 <= s <= n * (u64::MAX as int),
            n > 0,
    {
        vstd::arithmetic::div_mod::lemma_div_is_ordered(s, n * (u64::MAX as int), n);
        vstd::arithmetic::div_mod::lemma_div_by_multiple(u64::MAX as int, n);
    }
    assert(s / n >= 0) by (nonlinear_arith)
        requires
            s >= 0,
            n > 0,
    ;
}

/// Averaging a history of one snapshot gives that snapshot's counter back.
pub proof fn lemma_single_snapshot_mean(m: MemorySnapshot, f: MemField)
    ensures
        field_mean(seq![m], f) == field_of(m, f),
{
    let h = seq![m];
    assert(h.drop_last() =~= Seq::<MemorySnapshot>::empty());
    assert(field_sum(h.drop_last(), f) == 0);
    assert(h.last() == m);
    assert(field_sum(h, f) == field_of(m, f));
}

/// Integer-truncated mean of the selected counter over a non-empty history.
pub fn avgmem(history: &Vec<MemorySnapshot>, field: MemField) -> (r: u64)
    requires
        history@.len() > 0,
    ensures
        r == field_mean(history@, field),
        history@.len() == 1 ==> r == field_of(history@[0], field),
{
    let n: usize = history.len();
    let mut total: u128 = 0;
    let mut i: usize = 0;
    while i < n
        invariant
            n == history@.len(),
            0 <= i <= n,
            total == field_sum(history@.subrange(0, i as int), field),
        decreases n - i,
    {
        proof {
            let pre = history@.subrange(0, i as int);
            let next = history@.subrange(0, i + 1);
            assert(next.drop_last() =~= pre);
            lemma_field_sum_bounds(pre, field);
            assert(i * (u64::MAX as int) + u64::MAX < u128::MAX) by (nonlinear_arith)
                requires
                    i < n,
                    n <= usize::MAX,
            ;
        }
        total = total + history[i].field(field) as u128;
        i = i + 1;
    }
    proof {
        assert(history@.subrange(0, n as int) =~= history@);
        lemma_field_mean_fits(history@, field);
        if n == 1 {
            assert(history@ =~= seq![history@[0]]);
            lemma_single_snapshot_mean(history@[0], field);
        }
    }
    (total / (n as u128)) as u64
}

/// The report of one finished process: its three averaged counters.
pub fn mem_avg(pid: u32, history: &Vec<MemorySnapshot>) -> (r: MemAverage)
    requires
        history@.len() > 0,
    ensures
        r == mem_average_of(pid, history@),
{
    let vms = avgmem(history, MemField::VirtualSize);
    let rss = avgmem(history, MemField::ResidentSize);
    let shared = avgmem(history, MemField::SharedSize);
    MemAverage { pid, vms, rss, shared }
}

} // verus!
