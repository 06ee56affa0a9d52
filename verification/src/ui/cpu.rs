//! Rows of the CPU section: per-core utilization rows and per-sensor
//! temperature rows.
use vstd::prelude::*;

use crate::text::{
    pad_left, pad_right, push_pad_left, push_pad_right, push_spaces, push_str, repeat, sat_sub,
    spaces,
};
use crate::ui::colors::{COLOR_DIM_GRAY, COLOR_RESET, COLOR_WHITE};
use crate::ui::sparkline::{
    bar, chart, empty_cell, opt_text, pct_text, push_bar, push_chart, push_empty_cells, push_pct,
    push_reading, reading_text, Cell,
};

verus! {

/// `render_util_row`: left border, left-aligned label, chart, current
/// percentage, padding to `half_width`.
pub open spec fn util_row(
    label: Seq<char>,
    lw: nat,
    cells: Seq<Cell>,
    current: Seq<char>,
    current_color: Seq<char>,
    cw: nat,
    half_width: nat,
) -> Seq<char> {
    bar() + " "@ + COLOR_WHITE@ + pad_right(label, lw) + COLOR_RESET@ + " "@ + chart(cells, cw)
        + " "@ + current_color + current + "%"@ + COLOR_RESET@ + spaces(
        sat_sub(half_width as int, (2 + lw + 1 + cw + 1 + 4) as int),
    )
}

/// Appends a utilization row of the first column: `│ label chart NNN%`,
/// padded to `half_width`.  `cells` are the samples as drawn, oldest
/// first; `current` is the newest percentage printed three wide and
/// `current_color` its colour.
pub fn render_util_row(
    buf: &mut String,
    label: &str,
    lw: usize,
    cells: &Vec<Cell>,
    current: &str,
    current_color: &str,
    cw: usize,
    half_width: usize,
)
    requires
        2 + lw + 1 + cw + 1 + 4 <= usize::MAX,
    ensures
        final(buf)@ == old(buf)@ + util_row(
            label@,
            lw as nat,
            cells@,
            current@,
            current_color@,
            cw as nat,
            half_width as nat,
        ),
{
    push_str(buf, COLOR_DIM_GRAY);
    push_str(buf, "│");
    push_str(buf, COLOR_RESET);
    push_str(buf, " ");
    push_str(buf, COLOR_WHITE);
    push_pad_right(buf, label, lw);
    push_str(buf, COLOR_RESET);
    push_str(buf, " ");
    push_chart(buf, cells, cw);
    push_str(buf, " ");
    push_str(buf, current_color);
    push_str(buf, current);
    push_str(buf, "%");
    push_str(buf, COLOR_RESET);
    let used = 2 + lw + 1 + cw + 1 + 4;
    let pad = if half_width > used { half_width - used } else { 0 };
    push_spaces(buf, pad);
    assert(buf@ =~= old(buf)@ + util_row(
        label@,
        lw as nat,
        cells@,
        current@,
        current_color@,
        cw as nat,
        half_width as nat,
    ));
}

/// `render_util_row_inner`: like `util_row` but without the left border.
pub open spec fn util_row_inner(
    label: Seq<char>,
    lw: nat,
    cells: Seq<Cell>,
    current: Seq<char>,
    current_color: Seq<char>,
    cw: nat,
    col_width: nat,
) -> Seq<char> {
    " "@ + COLOR_WHITE@ + pad_right(label, lw) + COLOR_RESET@ + " "@ + chart(cells, cw) + pct_text(
        current,
        current_color,
    ) + spaces(sat_sub(col_width as int, (1 + lw + 1 + cw + 1 + 4) as int))
}

/// Appends a utilization row of a later column: ` label chart NNN%`,
/// padded to `col_width`, without a left border.
pub fn render_util_row_inner(
    buf: &mut String,
    label: &str,
    lw: usize,
    cells: &Vec<Cell>,
    current: &str,
    current_color: &str,
    cw: usize,
    col_width: usize,
)
    requires
        1 + lw + 1 + cw + 1 + 4 <= usize::MAX,
    ensures
        final(buf)@ == old(buf)@ + util_row_inner(
            label@,
            lw as nat,
            cells@,
            current@,
            current_color@,
            cw as nat,
            col_width as nat,
        ),
{
    push_str(buf, " ");
    push_str(buf, COLOR_WHITE);
    push_pad_right(buf, label, lw);
    push_str(buf, COLOR_RESET);
    push_str(buf, " ");
    push_chart(buf, cells, cw);
    push_pct(buf, current, current_color);
    let used = 1 + lw + 1 + cw + 1 + 4;
    let pad = if col_width > used { col_width - used } else { 0 };
    push_spaces(buf, pad);
    assert(buf@ =~= old(buf)@ + util_row_inner(
        label@,
        lw as nat,
        cells@,
        current@,
        current_color@,
        cw as nat,
        col_width as nat,
    ));
}

/// Appends an empty first column: the left border and blanks up to
/// `section_width`.
pub fn render_empty_first_col(buf: &mut String, section_width: usize)
    ensures
        final(buf)@ == old(buf)@ + bar() + spaces(sat_sub(section_width as int, 1)),
{
    push_bar(buf);
    let inner = if section_width > 1 { section_width - 1 } else { 0 };
    push_spaces(buf, inner);
}

/// Appends an empty later column: `col_width` blanks.
pub fn render_empty_col(buf: &mut String, col_width: usize)
    ensures
        final(buf)@ == old(buf)@ + spaces(col_width as nat),
{
    push_spaces(buf, col_width);
}

/// `render_temp_row`: right-aligned label, chart, reading, padding to
/// `half_width`, right border.
pub open spec fn temp_row(
    label: Seq<char>,
    tlw: nat,
    cells: Seq<Cell>,
    current: Option<Seq<char>>,
    current_color: Seq<char>,
    cw: nat,
    half_width: nat,
) -> Seq<char> {
    " "@ + COLOR_WHITE@ + pad_left(label, tlw) + COLOR_RESET@ + " "@ + chart(cells, cw)
        + reading_text(current, current_color) + spaces(
        sat_sub(half_width as int, (1 + tlw + 1 + cw + 14 + 2) as int),
    ) + " "@ + bar()
}

/// Appends a temperature row: ` label chart NNN°C (NNN°F)`, padded to
/// `half_width`, and the right border.  `current` is the newest reading
/// printed as `NNN°C (NNN°F)`, `None` when the sensor has no sample yet.
pub fn render_temp_row(
    buf: &mut String,
    label: &str,
    tlw: usize,
    cells: &Vec<Cell>,
    current: Option<&str>,
    current_color: &str,
    cw: usize,
    half_width: usize,
)
    requires
        1 + tlw + 1 + cw + 14 + 2 <= usize::MAX,
    ensures
        final(buf)@ == old(buf)@ + temp_row(
            label@,
            tlw as nat,
            cells@,
            opt_text(current),
            current_color@,
            cw as nat,
            half_width as nat,
        ),
{
    push_str(buf, " ");
    push_str(buf, COLOR_WHITE);
    push_pad_left(buf, label, tlw);
    push_str(buf, COLOR_RESET);
    push_str(buf, " ");
    push_chart(buf, cells, cw);
    push_reading(buf, current, current_color);
    let used = 1 + tlw + 1 + cw + 14;
    let pad = if half_width > used + 2 { half_width - (used + 2) } else { 0 };
    push_spaces(buf, pad);
    push_str(buf, " ");
    push_bar(buf);
    assert(buf@ =~= old(buf)@ + temp_row(
        label@,
        tlw as nat,
        cells@,
        opt_text(current),
        current_color@,
        cw as nat,
        half_width as nat,
    ));
}

/// Appends an empty temperature cell: blanks and the right border, in
/// `half_width` columns.
pub fn render_empty_right_half(buf: &mut String, half_width: usize)
    ensures
        final(buf)@ == old(buf)@ + spaces(sat_sub(half_width as int, 1)) + bar(),
{
    let inner = if half_width > 1 { half_width - 1 } else { 0 };
    push_spaces(buf, inner);
    push_bar(buf);
}

/// `render_na_temp_row`: the row shown when no sensor was found.
pub open spec fn na_temp_row(tlw: nat, cw: nat, half_width: nat) -> Seq<char> {
    " "@ + COLOR_WHITE@ + pad_left("N/A"@, tlw) + COLOR_RESET@ + " "@ + repeat(empty_cell(), cw)
        + reading_text(None, seq![]) + spaces(
        sat_sub(half_width as int, (1 + tlw + 1 + cw + 14 + 2) as int),
    ) + " "@ + bar()
}

/// Appends the temperature row shown when no sensor was found: `N/A`, an
/// empty chart, `N/A°C (N/A°F)`, padding and the right border.
pub fn render_na_temp_row(buf: &mut String, tlw: usize, cw: usize, half_width: usize)
    requires
        1 + tlw + 1 + cw + 14 + 2 <= usize::MAX,
    ensures
        final(buf)@ == old(buf)@ + na_temp_row(tlw as nat, cw as nat, half_width as nat),
{
    push_str(buf, " ");
    push_str(buf, COLOR_WHITE);
    push_pad_left(buf, "N/A", tlw);
    push_str(buf, COLOR_RESET);
    push_str(buf, " ");
    push_empty_cells(buf, cw);
    push_reading(buf, None, "");
    let used = 1 + tlw + 1 + cw + 14;
    let pad = if half_width > used + 2 { half_width - (used + 2) } else { 0 };
    push_spaces(buf, pad);
    push_str(buf, " ");
    push_bar(buf);
    assert(buf@ =~= old(buf)@ + na_temp_row(tlw as nat, cw as nat, half_width as nat));
}

} // verus!
