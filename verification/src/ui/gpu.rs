//! The row of the GPU section: utilization, VRAM and temperature columns.
use vstd::prelude::*;

use crate::text::{push_spaces, push_str, sat_sub, spaces};
use crate::ui::colors::{COLOR_RESET, COLOR_WHITE};
use crate::ui::sparkline::{
    amount_pct_text, bar, centered, chart, opt_text, push_amount_pct, pct_text, push_bar, push_centered, push_chart, push_pct,
    push_reading, reading_text, Cell,
};

verus! {

/// `render_gpu_util_col_first`.
pub open spec fn gpu_util_col_first(
    cells: Seq<Cell>,
    current: Seq<char>,
    color: Seq<char>,
    cw: nat,
    section_width: nat,
) -> Seq<char> {
    bar() + " "@ + COLOR_WHITE@ + "USE"@ + COLOR_RESET@ + " "@ + chart(cells, cw) + pct_text(
        current,
        color,
    ) + spaces(sat_sub(section_width as int, (2 + 3 + 1 + cw + 1 + 4) as int))
}

/// Appends the GPU utilization column: `│ USE chart NNN%`, padded to
/// `section_width`.
pub fn render_gpu_util_col_first(
    buf: &mut String,
    cells: &Vec<Cell>,
    current: &str,
    color: &str,
    cw: usize,
    section_width: usize,
)
    requires
        2 + 3 + 1 + cw + 1 + 4 <= usize::MAX,
    ensures
        final(buf)@ == old(buf)@ + gpu_util_col_first(
            cells@,
            current@,
            color@,
            cw as nat,
            section_width as nat,
        ),
{
    push_bar(buf);
    push_str(buf, " ");
    push_str(buf, COLOR_WHITE);
    push_str(buf, "USE");
    push_str(buf, COLOR_RESET);
    push_str(buf, " ");
    push_chart(buf, cells, cw);
    push_pct(buf, current, color);
    let used = 2 + 3 + 1 + cw + 1 + 4;
    let pad = if section_width > used { section_width - used } else { 0 };
    push_spaces(buf, pad);
    assert(buf@ =~= old(buf)@ + gpu_util_col_first(
        cells@,
        current@,
        color@,
        cw as nat,
        section_width as nat,
    ));
}

/// `render_gpu_mem_col_inner`.
pub open spec fn gpu_mem_col_inner(
    cells: Seq<Cell>,
    cw: nat,
    abs: Seq<char>,
    abs_w: nat,
    current: Seq<char>,
    color: Seq<char>,
    col_width: nat,
) -> Seq<char> {
    " "@ + COLOR_WHITE@ + "MEM"@ + COLOR_RESET@ + " "@ + chart(cells, cw) + amount_pct_text(
        abs,
        current,
        color,
    ) + spaces(
        sat_sub(col_width as int, (1 + 3 + 1 + cw + 1 + abs_w + 2 + 4) as int),
    )
}

/// Appends the VRAM column: ` MEM chart used/total  NNN%`, padded to
/// `col_width`.
pub fn render_gpu_mem_col_inner(
    buf: &mut String,
    cells: &Vec<Cell>,
    cw: usize,
    abs_formatted: &str,
    current: &str,
    color: &str,
    col_width: usize,
)
    requires
        1 + 3 + 1 + cw + 1 + abs_formatted.len() + 2 + 4 <= usize::MAX,
    ensures
        final(buf)@ == old(buf)@ + gpu_mem_col_inner(
            cells@,
            cw as nat,
            abs_formatted@,
            abs_formatted.len() as nat,
            current@,
            color@,
            col_width as nat,
        ),
{
    push_str(buf, " ");
    push_str(buf, COLOR_WHITE);
    push_str(buf, "MEM");
    push_str(buf, COLOR_RESET);
    push_str(buf, " ");
    push_chart(buf, cells, cw);
    let abs_w = abs_formatted.len();
    push_amount_pct(buf, abs_formatted, current, color);
    let used = 1 + 3 + 1 + cw + 1 + abs_w + 2 + 4;
    let pad = if col_width > used { col_width - used } else { 0 };
    push_spaces(buf, pad);
    assert(buf@ =~= old(buf)@ + gpu_mem_col_inner(
        cells@,
        cw as nat,
        abs_formatted@,
        abs_formatted.len() as nat,
        current@,
        color@,
        col_width as nat,
    ));
}

/// `render_gpu_temp_col_right`.
pub open spec fn gpu_temp_col_right(
    cells: Seq<Cell>,
    current: Option<Seq<char>>,
    color: Seq<char>,
    cw: nat,
    half_width: nat,
) -> Seq<char> {
    " "@ + COLOR_WHITE@ + "TMP"@ + COLOR_RESET@ + " "@ + chart(cells, cw) + reading_text(
        current,
        color,
    ) + spaces(sat_sub(half_width as int, (1 + 3 + 1 + cw + 14 + 2) as int)) + " "@ + bar()
}

/// Appends the GPU temperature column: ` TMP chart NNN°C (NNN°F)` (or
/// `N/A°C (N/A°F)` without a reading), padded to `half_width`, and the
/// right border.
pub fn render_gpu_temp_col_right(
    buf: &mut String,
    cells: &Vec<Cell>,
    current: Option<&str>,
    color: &str,
    cw: usize,
    half_width: usize,
)
    requires
        1 + 3 + 1 + cw + 14 + 2 <= usize::MAX,
    ensures
        final(buf)@ == old(buf)@ + gpu_temp_col_right(
            cells@,
            opt_text(current),
            color@,
            cw as nat,
            half_width as nat,
        ),
{
    push_str(buf, " ");
    push_str(buf, COLOR_WHITE);
    push_str(buf, "TMP");
    push_str(buf, COLOR_RESET);
    push_str(buf, " ");
    push_chart(buf, cells, cw);
    push_reading(buf, current, color);
    let used = 1 + 3 + 1 + cw + 14;
    let pad = if half_width > used + 2 { half_width - (used + 2) } else { 0 };
    push_spaces(buf, pad);
    push_str(buf, " ");
    push_bar(buf);
    assert(buf@ =~= old(buf)@ + gpu_temp_col_right(
        cells@,
        opt_text(current),
        color@,
        cw as nat,
        half_width as nat,
    ));
}

/// Three titles centred over their columns, each followed by a border,
/// after a left border, ending the line.
pub open spec fn subtitle_line3(
    t1: Seq<char>,
    l1: nat,
    c1: nat,
    t2: Seq<char>,
    l2: nat,
    c2: nat,
    t3: Seq<char>,
    l3: nat,
    c3: nat,
) -> Seq<char> {
    bar() + centered(t1, l1, c1) + bar() + centered(t2, l2, c2) + bar() + centered(t3, l3, c3)
        + bar() + "\r\n"@
}

/// Appends `subtitle_line3` for the given titles and column widths.
pub fn push_subtitle_line3(
    buf: &mut String,
    t1: &str,
    c1: usize,
    t2: &str,
    c2: usize,
    t3: &str,
    c3: usize,
)
    ensures
        final(buf)@ == old(buf)@ + subtitle_line3(
            t1@,
            t1.len() as nat,
            c1 as nat,
            t2@,
            t2.len() as nat,
            c2 as nat,
            t3@,
            t3.len() as nat,
            c3 as nat,
        ),
{
    push_bar(buf);
    push_centered(buf, t1, c1);
    push_bar(buf);
    push_centered(buf, t2, c2);
    push_bar(buf);
    push_centered(buf, t3, c3);
    push_bar(buf);
    push_str(buf, "\r\n");
    assert(buf@ =~= old(buf)@ + subtitle_line3(
        t1@,
        t1.len() as nat,
        c1 as nat,
        t2@,
        t2.len() as nat,
        c2 as nat,
        t3@,
        t3.len() as nat,
        c3 as nat,
    ));
}

/// Appends the subtitle line of the GPU section: `GPU Utilization`,
/// `VRAM Utilization` and `Temperature` centred over their columns.
pub fn render_gpu_subtitle_line(buf: &mut String, col1: usize, col2: usize, col3: usize)
    ensures
        final(buf)@ == old(buf)@ + subtitle_line3(
            "GPU Utilization"@,
            "GPU Utilization".len() as nat,
            col1 as nat,
            "VRAM Utilization"@,
            "VRAM Utilization".len() as nat,
            col2 as nat,
            "Temperature"@,
            "Temperature".len() as nat,
            col3 as nat,
        ),
{
    push_subtitle_line3(buf, "GPU Utilization", col1, "VRAM Utilization", col2, "Temperature", col3);
}

} // verus!
