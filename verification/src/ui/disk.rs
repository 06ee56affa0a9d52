//! Rows of the disk section: space per mount point, I/O rate per device.
use vstd::prelude::*;

use crate::text::{pad_left, push_pad_left, push_spaces, push_str, sat_sub, spaces};
use crate::ui::colors::COLOR_RESET;
use crate::ui::sparkline::{
    amount_pct_text, bar, centered, chart, label_text, push_amount_pct, push_bar, push_centered,
    push_chart, push_label, Cell,
};

verus! {

/// `render_disk_space_col_first`.
pub open spec fn disk_space_col_first(
    label: Seq<char>,
    lw: nat,
    cells: Seq<Cell>,
    cw: nat,
    abs: Seq<char>,
    abs_w: nat,
    current: Seq<char>,
    color: Seq<char>,
    section_width: nat,
) -> Seq<char> {
    bar() + " "@ + label_text(label, lw) + chart(cells, cw) + amount_pct_text(abs, current, color)
        + spaces(sat_sub(section_width as int, (2 + lw + 1 + cw + 1 + abs_w + 2 + 4) as int))
}

/// Appends a disk space row: `│ label chart used/total  NNN%`, padded to
/// `section_width`.  `current` is the newest percentage printed three wide;
/// `color` colours both it and the amounts.
pub fn render_disk_space_col_first(
    buf: &mut String,
    label: &str,
    lw: usize,
    cells: &Vec<Cell>,
    cw: usize,
    abs_formatted: &str,
    current: &str,
    color: &str,
    section_width: usize,
)
    requires
        2 + lw + 1 + cw + 1 + abs_formatted.len() + 2 + 4 <= usize::MAX,
    ensures
        final(buf)@ == old(buf)@ + disk_space_col_first(
            label@,
            lw as nat,
            cells@,
            cw as nat,
            abs_formatted@,
            abs_formatted.len() as nat,
            current@,
            color@,
            section_width as nat,
        ),
{
    push_bar(buf);
    push_str(buf, " ");
    push_label(buf, label, lw);
    push_chart(buf, cells, cw);
    let abs_w = abs_formatted.len();
    push_amount_pct(buf, abs_formatted, current, color);
    let used = 2 + lw + 1 + cw + 1 + abs_w + 2 + 4;
    let pad = if section_width > used { section_width - used } else { 0 };
    push_spaces(buf, pad);
    assert(buf@ =~= old(buf)@ + disk_space_col_first(
        label@,
        lw as nat,
        cells@,
        cw as nat,
        abs_formatted@,
        abs_formatted.len() as nat,
        current@,
        color@,
        section_width as nat,
    ));
}

/// `render_disk_io_col_right`.
pub open spec fn disk_io_col_right(
    label: Seq<char>,
    lw: nat,
    cells: Seq<Cell>,
    cw: nat,
    rate: Seq<char>,
    color: Seq<char>,
    rw: nat,
    half_width: nat,
) -> Seq<char> {
    " "@ + label_text(label, lw) + chart(cells, cw) + " "@ + color + pad_left(rate, rw) + COLOR_RESET@ + spaces(
        sat_sub(half_width as int, (1 + lw + 1 + cw + 1 + rw + 2) as int),
    ) + " "@ + bar()
}

/// Appends a disk I/O row: ` label chart rate`, the rate right-aligned in
/// `rw` columns, padded to `half_width`, and the right border.  `rate` is
/// the newest rate as text and `color` its colour.
pub fn render_disk_io_col_right(
    buf: &mut String,
    label: &str,
    lw: usize,
    cells: &Vec<Cell>,
    cw: usize,
    rate: &str,
    color: &str,
    rw: usize,
    half_width: usize,
)
    requires
        1 + lw + 1 + cw + 1 + rw + 2 <= usize::MAX,
    ensures
        final(buf)@ == old(buf)@ + disk_io_col_right(
            label@,
            lw as nat,
            cells@,
            cw as nat,
            rate@,
            color@,
            rw as nat,
            half_width as nat,
        ),
{
    push_str(buf, " ");
    push_label(buf, label, lw);
    push_chart(buf, cells, cw);
    push_str(buf, " ");
    push_str(buf, color);
    push_pad_left(buf, rate, rw);
    push_str(buf, COLOR_RESET);
    let used = 1 + lw + 1 + cw + 1 + rw;
    let pad = if half_width > used + 2 { half_width - (used + 2) } else { 0 };
    push_spaces(buf, pad);
    push_str(buf, " ");
    push_bar(buf);
    assert(buf@ =~= old(buf)@ + disk_io_col_right(
        label@,
        lw as nat,
        cells@,
        cw as nat,
        rate@,
        color@,
        rw as nat,
        half_width as nat,
    ));
}

/// Appends the subtitle line of the disk section: `Space` centred over
/// `space_span` columns and `I/O` over `io_col`, between borders.
pub fn render_disk_subtitle_line(buf: &mut String, space_span: usize, io_col: usize)
    ensures
        final(buf)@ == old(buf)@ + bar() + centered("Space"@, "Space".len() as nat, space_span as nat)
            + bar() + centered("I/O"@, "I/O".len() as nat, io_col as nat) + bar() + "\r\n"@,
{
    push_bar(buf);
    push_centered(buf, "Space", space_span);
    push_bar(buf);
    push_centered(buf, "I/O", io_col);
    push_bar(buf);
    push_str(buf, "\r\n");
    assert(buf@ =~= old(buf)@ + bar() + centered("Space"@, "Space".len() as nat, space_span as nat)
        + bar() + centered("I/O"@, "I/O".len() as nat, io_col as nat) + bar() + "\r\n"@);
}

} // verus!
