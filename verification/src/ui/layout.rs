//! Column and chart widths of the three-column sections.
use vstd::prelude::*;

use crate::disk::io::{byte_len, names};
use crate::memory::usage::{is_max_pair_width, max_mem_pair_width, max_pair_width, MemInfo};
use crate::text::{dec, decimal_len};

verus! {

/// Width of a core label such as `#12`: the `#` and the digits of the
/// highest core number; 2 when there are no cores.
pub fn label_width(core_count: usize) -> (r: usize)
    ensures
        r == (if core_count == 0 {
            2
        } else {
            1 + dec((core_count - 1) as nat).len()
        }),
{
    if core_count == 0 {
        return 2;
    }
    1 + decimal_len((core_count - 1) as u64)
}

pub open spec fn ceil_div(n: int, d: int) -> int {
    (n + d - 1) / d
}

/// How `core_columns` splits `n` cores.
pub open spec fn core_split(n: int) -> Seq<int> {
    if n == 0 {
        seq![0, 0]
    } else {
        let per = ceil_div(n, 3);
        let col2 = if per <= n - per { per } else { if n - per >= 0 { n - per } else { 0 } };
        let col3 = n - per - col2;
        if col3 > 0 {
            seq![per, col2, col3]
        } else {
            let half = ceil_div(n, 2);
            seq![half, n - half]
        }
    }
}

/// Split cores across utilization sub-columns.
///
/// Tries a 3-column layout (ceil(n/3) per column, remainder in the last).
/// Falls back to 2 columns when the third column would be empty.
pub fn core_columns(core_count: usize) -> (r: Vec<usize>)
    ensures
        r@.len() == core_split(core_count as int).len(),
        forall|i: int| 0 <= i < r@.len() ==> r@[i] == #[trigger] core_split(core_count as int)[i],
        r@.len() == 2 || r@.len() == 3,
        r@.len() == 2 ==> r@[0] + r@[1] == core_count,
        r@.len() == 3 ==> r@[0] + r@[1] + r@[2] == core_count && r@[2] > 0,
{
    if core_count == 0 {
        return vec![0, 0];
    }
    let n = core_count;
    let per = n / 3 + if n % 3 != 0 { 1 } else { 0 };
    assert(per == ceil_div(n as int, 3));
    let col1 = per;
    let rest = n.saturating_sub(per);
    let col2 = if per < rest { per } else { rest };
    let col3 = n.saturating_sub(col1 + col2);
    if col3 > 0 {
        vec![col1, col2, col3]
    } else {
        let half = n / 2 + if n % 2 != 0 { 1 } else { 0 };
        assert(half == ceil_div(n as int, 2));
        let other = n - half;
        vec![half, other]
    }
}

/// Width of a sensor label column: the longest label in bytes, at least 3;
/// 3 (for `N/A`) when there are no sensors.
pub open spec fn sensor_label_width(labels: Seq<Seq<char>>) -> nat
    decreases labels.len(),
{
    if labels.len() == 0 {
        3
    } else {
        let rest = sensor_label_width(labels.drop_last());
        let w = byte_len(labels.last());
        if w > rest {
            w
        } else {
            rest
        }
    }
}

/// Width of the CPU temperature label column for the given sensor labels:
/// the longest label in bytes, at least 3 (the width of `N/A`).
pub fn temp_label_width(labels: &Vec<String>) -> (r: usize)
    requires
        forall|i: int| 0 <= i < labels.len() ==> byte_len(#[trigger] labels@[i]@) <= usize::MAX,
    ensures
        r == sensor_label_width(names(labels@)),
        r >= 3,
{
    let mut w: usize = 3;
    let mut i: usize = 0;
    while i < labels.len()
        invariant
            w >= 3,
            i <= labels.len(),
            forall|k: int| 0 <= k < labels.len() ==> byte_len(#[trigger] labels@[k]@) <= usize::MAX,
            w == sensor_label_width(names(labels@).take(i as int)),
        decreases labels.len() - i,
    {
        assert(names(labels@).take(i + 1).drop_last() =~= names(labels@).take(i as int));
        let n = labels[i].as_str().len();
        assert(n == byte_len(labels@[i as int]@));
        if n > w {
            w = n;
        }
        i += 1;
    }
    assert(names(labels@).take(labels.len() as int) =~= names(labels@));
    w
}

/// Width of the DIMM temperature label column; same rule as for CPU
/// sensors.
pub fn mem_temp_label_width(labels: &Vec<String>) -> (r: usize)
    requires
        forall|i: int| 0 <= i < labels.len() ==> byte_len(#[trigger] labels@[i]@) <= usize::MAX,
    ensures
        r == sensor_label_width(names(labels@)),
{
    temp_label_width(labels)
}

/// `col` less `fixed`, or 8 when that leaves no room.
pub open spec fn chart_room(col: int, fixed: int) -> int {
    if col > fixed {
        col - fixed
    } else {
        8
    }
}

/// Compute the chart width for a utilization column.
/// Layout: " " + label + " " + chart + " " + "NNN%" + padding(2)
///          1  + lw    + 1   + cw    + 1   + 4      + 2  = lw + cw + 9
pub fn util_chart_width(col_width: usize, lw: usize) -> (r: usize)
    requires
        lw + 9 <= usize::MAX,
    ensures
        r == chart_room(col_width as int, lw + 9),
{
    let fixed = lw + 9;
    if col_width > fixed {
        col_width - fixed
    } else {
        8
    }
}

/// Compute the chart width for the temperature column.
/// Layout: " " + label + " " + chart + " NNN°C (NNN°F)" + " │"
///          1  + tlw   + 1   + cw    + 14                + 2  = tlw + cw + 18
pub fn temp_chart_width(col_with_border: usize, tlw: usize) -> (r: usize)
    requires
        tlw + 18 <= usize::MAX,
    ensures
        r == chart_room(col_with_border as int, tlw + 18),
{
    let fixed = tlw + 18;
    if col_with_border > fixed {
        col_with_border - fixed
    } else {
        8
    }
}

/// Maximum width of the absolute value text (e.g. `5.1GB/8.0GB`) for both
/// RAM and SWP across all possible used values, so the chart width stays
/// stable as usage fluctuates across unit boundaries.
pub fn mem_abs_width(current: &MemInfo) -> (r: usize)
    ensures
        r == (if max_pair_width(current.mem_total_kb as nat) >= max_pair_width(
            current.swap_total_kb as nat,
        ) {
            max_pair_width(current.mem_total_kb as nat)
        } else {
            max_pair_width(current.swap_total_kb as nat)
        }),
        r <= 61,
{
    let a = max_mem_pair_width(current.mem_total_kb);
    let b = max_mem_pair_width(current.swap_total_kb);
    if a >= b {
        a
    } else {
        b
    }
}

/// Compute the chart width for a memory column (RAM or SWAP) in the
/// three-column layout; `col_inner` is the inner width of the column.
/// Layout: " " + label(3) + " " + chart + " " + abs + "  " + "NNN%"
///          1   + 3        + 1   + cw    + 1   + aw  + 2    + 4     = 12 + aw + cw
pub fn mem_col_chart_width(col_inner: usize, abs_w: usize) -> (r: usize)
    requires
        abs_w + 12 <= usize::MAX,
    ensures
        r == chart_room(col_inner as int, abs_w + 12),
{
    let fixed = 12 + abs_w;
    if col_inner > fixed {
        col_inner - fixed
    } else {
        8
    }
}

/// Maximum width of the absolute value text for GPU memory of the given
/// total across all possible used values, so the chart width stays stable.
pub fn gpu_abs_width(mem_total_kb: u64) -> (r: usize)
    ensures
        is_max_pair_width(mem_total_kb as nat, r as nat),
        r == max_pair_width(mem_total_kb as nat),
        r <= 61,
{
    max_mem_pair_width(mem_total_kb)
}

/// Compute the chart width for a disk space column.
/// Layout: " " + label + " " + chart + " " + abs + "  " + "NNN%"
///          1  + lw    + 1   + cw    + 1   + aw  + 2   + 4   = lw + aw + cw + 9
pub fn disk_space_chart_width(col_width: usize, lw: usize, aw: usize) -> (r: usize)
    requires
        lw + aw + 9 <= usize::MAX,
    ensures
        r == chart_room(col_width as int, lw + aw + 9),
{
    let fixed = lw + aw + 9;
    if col_width > fixed {
        col_width - fixed
    } else {
        8
    }
}

/// Compute the chart width for a disk I/O column (right half with trailing │).
/// Layout: " " + label + " " + chart + " " + rate + " │"
///          1  + lw    + 1   + cw    + 1   + rw   + 2   = lw + rw + cw + 5
pub fn disk_io_chart_width(col_with_border: usize, lw: usize, rw: usize) -> (r: usize)
    requires
        lw + rw + 5 <= usize::MAX,
    ensures
        r == chart_room(col_with_border as int, lw + rw + 5),
{
    let fixed = lw + rw + 5;
    if col_with_border > fixed {
        col_with_border - fixed
    } else {
        8
    }
}

/// A chart is never wider than its column or 8.
pub proof fn lemma_chart_room_le(col: int, fixed: int)
    requires
        col >= 0,
        fixed >= 0,
    ensures
        chart_room(col, fixed) <= (if col > 8 { col } else { 8 }),
{
}

/// Labels held in memory give a label column of at most `isize::MAX`.
pub proof fn lemma_sensor_label_width_bound(labels: Seq<Seq<char>>)
    requires
        forall|i: int| 0 <= i < labels.len() ==> byte_len(#[trigger] labels[i]) <= isize::MAX,
    ensures
        sensor_label_width(labels) <= isize::MAX,
    decreases labels.len(),
{
    if labels.len() > 0 {
        lemma_sensor_label_width_bound(labels.drop_last());
        assert(byte_len(labels[labels.len() - 1]) <= isize::MAX);
    }
}

} // verus!
