use vstd::prelude::*;

use crate::text::{
    chars_of, chars_start_with, deep_chars, lines, parse_u64, parse_u64_chars, sat_sub, split_lines,
    split_words, starts_with, words,
};

verus! {

/// Cumulative per-core CPU time counters, in clock ticks, as listed on a
/// `cpuN` line of `/proc/stat`.
#[derive(Clone, Copy, Debug, PartialEq, Eq)]
pub struct CpuTimes {
    pub user: u64,
    pub nice: u64,
    pub system: u64,
    pub idle: u64,
    pub iowait: u64,
    pub irq: u64,
    pub softirq: u64,
    pub steal: u64,
}

impl CpuTimes {
    /// Sum of all eight counters, as a mathematical integer.
    pub open spec fn spec_total(&self) -> int {
        self.user + self.nice + self.system + self.idle + self.iowait + self.irq + self.softirq
            + self.steal
    }

    /// Idle time: `idle` plus `iowait`.
    pub open spec fn spec_idle_total(&self) -> int {
        self.idle + self.iowait
    }

    /// Total time spent in all states.
    pub fn total(&self) -> (r: u64)
        requires
            self.spec_total() <= u64::MAX,
        ensures
            r == self.spec_total(),
    {
        self.user + self.nice + self.system + self.idle + self.iowait + self.irq + self.softirq
            + self.steal
    }

    /// Time spent idle or waiting for I/O.
    pub fn idle_total(&self) -> (r: u64)
        requires
            self.spec_idle_total() <= u64::MAX,
        ensures
            r == self.spec_idle_total(),
    {
        self.idle + self.iowait
    }
}


/// A counter field of a `/proc/stat` line: the word parsed as `u64`, or 0
/// when it does not parse.
pub open spec fn counter(ws: Seq<Seq<char>>, i: int) -> u64 {
    match parse_u64(ws[i]) {
        Some(v) => v,
        None => 0,
    }
}

/// The counters of one `/proc/stat` line: only per-core lines (`cpu`
/// followed by something other than a space) with at least eight counters
/// after the label yield an entry.
pub open spec fn stat_line(line: Seq<char>) -> Option<CpuTimes> {
    let ws = words(line);
    if starts_with(line, "cpu"@) && !starts_with(line, "cpu "@) && ws.len() >= 9 {
        Some(
            CpuTimes {
                user: counter(ws, 1),
                nice: counter(ws, 2),
                system: counter(ws, 3),
                idle: counter(ws, 4),
                iowait: counter(ws, 5),
                irq: counter(ws, 6),
                softirq: counter(ws, 7),
                steal: counter(ws, 8),
            },
        )
    } else {
        None
    }
}

/// The per-core entries of a sequence of `/proc/stat` lines, in order.
pub open spec fn stat_entries(ls: Seq<Seq<char>>) -> Seq<CpuTimes>
    decreases ls.len(),
{
    if ls.len() == 0 {
        seq![]
    } else {
        let rest = stat_entries(ls.drop_last());
        match stat_line(ls.last()) {
            Some(t) => rest.push(t),
            None => rest,
        }
    }
}

fn counter_at(ws: &Vec<Vec<char>>, i: usize) -> (r: u64)
    requires
        i < ws.len(),
    ensures
        r == counter(deep_chars(ws@), i as int),
{
    match parse_u64_chars(&ws[i]) {
        Some(v) => v,
        None => 0,
    }
}

fn parse_stat_line(line: &Vec<char>) -> (r: Option<CpuTimes>)
    ensures
        r == stat_line(line@),
{
    if !chars_start_with(line, "cpu") || chars_start_with(line, "cpu ") {
        return None;
    }
    let ws = split_words(line);
    if ws.len() < 9 {
        return None;
    }
    Some(
        CpuTimes {
            user: counter_at(&ws, 1),
            nice: counter_at(&ws, 2),
            system: counter_at(&ws, 3),
            idle: counter_at(&ws, 4),
            iowait: counter_at(&ws, 5),
            irq: counter_at(&ws, 6),
            softirq: counter_at(&ws, 7),
            steal: counter_at(&ws, 8),
        },
    )
}

/// Per-core time counters from the text of `/proc/stat`, one entry per
/// `cpuN` line, in the order the lines appear; the aggregate `cpu ` line and
/// lines with fewer than eight counters are skipped, and a counter that does
/// not parse counts as 0.
pub fn parse_proc_stat(content: &str) -> (r: Vec<CpuTimes>)
    ensures
        r@ == stat_entries(lines(content@)),
{
    let cs = chars_of(content);
    let ls = split_lines(&cs);
    let ghost lv = deep_chars(ls@);
    let mut out: Vec<CpuTimes> = Vec::new();
    let mut i: usize = 0;
    while i < ls.len()
        invariant
            i <= ls.len(),
            lv == deep_chars(ls@),
            out@ == stat_entries(lv.take(i as int)),
        decreases ls.len() - i,
    {
        assert(lv.take(i + 1).drop_last() =~= lv.take(i as int));
        assert(lv.take(i + 1).last() == ls@[i as int]@);
        match parse_stat_line(&ls[i]) {
            Some(t) => out.push(t),
            None => {},
        }
        i += 1;
    }
    assert(lv.take(ls.len() as int) =~= lv);
    out
}

/// Busy and total clock ticks between two snapshots of one core:
/// `total` is the growth of the total counter and `busy` that growth less
/// the growth of the idle counter, each growth floored at zero.  Both are
/// zero when the total did not grow.
pub fn usage_ticks(prev: &CpuTimes, curr: &CpuTimes) -> (r: (u64, u64))
    requires
        prev.spec_total() <= u64::MAX,
        curr.spec_total() <= u64::MAX,
        sat_sub(curr.spec_total(), prev.spec_total()) == 0 || sat_sub(
            curr.spec_idle_total(),
            prev.spec_idle_total(),
        ) <= sat_sub(curr.spec_total(), prev.spec_total()),
    ensures
        r.1 == sat_sub(curr.spec_total(), prev.spec_total()),
        r.1 == 0 ==> r.0 == 0,
        r.1 > 0 ==> r.0 == r.1 - sat_sub(curr.spec_idle_total(), prev.spec_idle_total()),
        r.0 <= r.1,
{
    let total_delta = curr.total().saturating_sub(prev.total());
    let idle_delta = curr.idle_total().saturating_sub(prev.idle_total());
    if total_delta == 0 {
        return (0, 0);
    }
    (total_delta - idle_delta, total_delta)
}

} // verus!
