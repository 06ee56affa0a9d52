//! Rows of the memory section: RAM and swap columns.
use vstd::prelude::*;

use crate::text::{pad_right, push_pad_right, push_spaces, push_str, repeat, sat_sub, spaces};
use crate::ui::colors::{COLOR_DIM_GRAY, COLOR_RESET, COLOR_WHITE};
use crate::ui::gpu::{push_subtitle_line3, subtitle_line3};
use crate::ui::sparkline::{
    amount_pct_text, bar, chart, empty_cell, push_amount_pct, push_bar, push_chart,
    push_empty_cells, Cell,
};

verus! {

/// The chart, amounts and percentage of a memory column; all dim, with an
/// empty chart, when `dim` is set (swap disabled).
pub open spec fn mem_body(
    label: Seq<char>,
    cells: Seq<Cell>,
    cw: nat,
    abs: Seq<char>,
    current: Seq<char>,
    color: Seq<char>,
    dim: bool,
) -> Seq<char> {
    let c = if dim { COLOR_DIM_GRAY@ } else { color };
    COLOR_WHITE@ + pad_right(label, 3) + COLOR_RESET@ + " "@ + (if dim {
        repeat(empty_cell(), cw)
    } else {
        chart(cells, cw)
    }) + amount_pct_text(abs, current, c)
}

fn push_mem_body(
    buf: &mut String,
    label: &str,
    cells: &Vec<Cell>,
    cw: usize,
    abs_formatted: &str,
    current: &str,
    color: &str,
    dim: bool,
)
    ensures
        final(buf)@ == old(buf)@ + mem_body(
            label@,
            cells@,
            cw as nat,
            abs_formatted@,
            current@,
            color@,
            dim,
        ),
{
    push_str(buf, COLOR_WHITE);
    push_pad_right(buf, label, 3);
    push_str(buf, COLOR_RESET);
    push_str(buf, " ");
    if dim {
        push_empty_cells(buf, cw);
    } else {
        push_chart(buf, cells, cw);
    }
    let c: &str = if dim { COLOR_DIM_GRAY } else { color };
    push_amount_pct(buf, abs_formatted, current, c);
    assert(buf@ =~= old(buf)@ + mem_body(
        label@,
        cells@,
        cw as nat,
        abs_formatted@,
        current@,
        color@,
        dim,
    ));
}

/// Appends the first memory column (`│ RAM chart used/total  NNN%`),
/// padded to `section_width`.  `current` is the newest percentage printed
/// three wide and `color` its colour; with `dim` the chart is empty and
/// everything is dim.
pub fn render_mem_col_first(
    buf: &mut String,
    label: &str,
    cells: &Vec<Cell>,
    cw: usize,
    abs_formatted: &str,
    current: &str,
    color: &str,
    section_width: usize,
    dim: bool,
)
    requires
        2 + 3 + 1 + cw + 1 + abs_formatted.len() + 2 + 4 <= usize::MAX,
    ensures
        final(buf)@ == old(buf)@ + bar() + " "@ + mem_body(
            label@,
            cells@,
            cw as nat,
            abs_formatted@,
            current@,
            color@,
            dim,
        ) + spaces(
            sat_sub(
                section_width as int,
                (2 + 3 + 1 + cw + 1 + abs_formatted.len() + 2 + 4) as int,
            ),
        ),
{
    push_bar(buf);
    push_str(buf, " ");
    push_mem_body(buf, label, cells, cw, abs_formatted, current, color, dim);
    let used = 2 + 3 + 1 + cw + 1 + abs_formatted.len() + 2 + 4;
    let pad = if section_width > used { section_width - used } else { 0 };
    push_spaces(buf, pad);
}

/// Appends a later memory column (` SWP chart used/total  NNN%`), padded
/// to `col_width`, without a left border.
pub fn render_mem_col_inner(
    buf: &mut String,
    label: &str,
    cells: &Vec<Cell>,
    cw: usize,
    abs_formatted: &str,
    current: &str,
    color: &str,
    col_width: usize,
    dim: bool,
)
    requires
        1 + 3 + 1 + cw + 1 + abs_formatted.len() + 2 + 4 <= usize::MAX,
    ensures
        final(buf)@ == old(buf)@ + " "@ + mem_body(
            label@,
            cells@,
            cw as nat,
            abs_formatted@,
            current@,
            color@,
            dim,
        ) + spaces(
            sat_sub(col_width as int, (1 + 3 + 1 + cw + 1 + abs_formatted.len() + 2 + 4) as int),
        ),
{
    push_str(buf, " ");
    push_mem_body(buf, label, cells, cw, abs_formatted, current, color, dim);
    let used = 1 + 3 + 1 + cw + 1 + abs_formatted.len() + 2 + 4;
    let pad = if col_width > used { col_width - used } else { 0 };
    push_spaces(buf, pad);
}

/// Appends the subtitle line of the memory section: `RAM Utilization`,
/// `Swap Utilization` and `Temperature` centred over their columns.
pub fn render_mem_subtitle_line(buf: &mut String, col1: usize, col2: usize, col3: usize)
    ensures
        final(buf)@ == old(buf)@ + subtitle_line3(
            "RAM Utilization"@,
            "RAM Utilization".len() as nat,
            col1 as nat,
            "Swap Utilization"@,
            "Swap Utilization".len() as nat,
            col2 as nat,
            "Temperature"@,
            "Temperature".len() as nat,
            col3 as nat,
        ),
{
    push_subtitle_line3(buf, "RAM Utilization", col1, "Swap Utilization", col2, "Temperature", col3);
}

} // verus!
