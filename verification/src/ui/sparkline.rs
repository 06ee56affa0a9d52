//! Sparkline charts: one coloured block element per sample, oldest on the
//! left, padded on the left with dim baseline blocks until the history
//! fills the chart.
use vstd::prelude::*;

use crate::text::{pad_right, push_pad_right, push_spaces, push_str, repeat, sat_sub, spaces};
use crate::ui::colors::{COLOR_BOLD_CYAN, COLOR_DIM_CHART, COLOR_DIM_GRAY, COLOR_RESET, COLOR_WHITE};

verus! {

/// One sample as drawn: its block element and its colour.
#[derive(Clone, Copy, Debug)]
pub struct Cell {
    pub glyph: char,
    pub color: &'static str,
}

pub open spec fn cell_text(c: Cell) -> Seq<char> {
    c.color@ + seq![c.glyph] + COLOR_RESET@
}

pub open spec fn cells_text(cs: Seq<Cell>) -> Seq<char>
    decreases cs.len(),
{
    if cs.len() == 0 {
        seq![]
    } else {
        cells_text(cs.drop_last()) + cell_text(cs.last())
    }
}

/// A chart position without data: a dim lowest block.
pub open spec fn empty_cell() -> Seq<char> {
    COLOR_DIM_CHART@ + "▁"@ + COLOR_RESET@
}

/// A chart `cw` positions wide: the newest `cw` samples, right-aligned,
/// after dim blocks for the positions that have no sample yet.
pub open spec fn chart(cells: Seq<Cell>, cw: nat) -> Seq<char> {
    repeat(empty_cell(), sat_sub(cw as int, cells.len() as int)) + cells_text(
        cells.skip(sat_sub(cells.len() as int, cw as int) as int),
    )
}

/// A dim vertical border.
pub open spec fn bar() -> Seq<char> {
    COLOR_DIM_GRAY@ + "│"@ + COLOR_RESET@
}

/// Appends `n` dim baseline blocks.
pub fn push_empty_cells(buf: &mut String, n: usize)
    ensures
        final(buf)@ == old(buf)@ + repeat(empty_cell(), n as nat),
{
    let mut i: usize = 0;
    while i < n
        invariant
            i <= n,
            buf@ == old(buf)@ + repeat(empty_cell(), i as nat),
        decreases n - i,
    {
        push_str(buf, COLOR_DIM_CHART);
        push_str(buf, "▁");
        push_str(buf, COLOR_RESET);
        i += 1;
        assert(repeat(empty_cell(), i as nat) == repeat(empty_cell(), (i - 1) as nat)
            + empty_cell());
        assert(buf@ =~= old(buf)@ + repeat(empty_cell(), i as nat));
    }
}

/// Appends a chart of `cw` positions for the samples `cells`.
pub fn push_chart(buf: &mut String, cells: &Vec<Cell>, cw: usize)
    ensures
        final(buf)@ == old(buf)@ + chart(cells@, cw as nat),
{
    let len = cells.len();
    let empty = if cw > len { cw - len } else { 0 };
    push_empty_cells(buf, empty);
    let start = if len > cw { len - cw } else { 0 };
    let ghost mid = buf@;
    let ghost shown = cells@.skip(start as int);
    let mut i: usize = start;
    while i < len
        invariant
            start <= i <= len,
            len == cells.len(),
            shown == cells@.skip(start as int),
            buf@ == mid + cells_text(cells@.subrange(start as int, i as int)),
        decreases len - i,
    {
        let c = cells[i];
        push_str(buf, c.color);
        crate::text::push_char(buf, c.glyph);
        push_str(buf, COLOR_RESET);
        i += 1;
        assert(cells@.subrange(start as int, i as int).drop_last() =~= cells@.subrange(
            start as int,
            i - 1,
        ));
        assert(buf@ =~= mid + cells_text(cells@.subrange(start as int, i as int)));
    }
    assert(cells@.subrange(start as int, len as int) =~= shown);
}

/// `title`, `tl` bytes long, centred in `w` columns (extra column on the
/// right), in bold cyan.
pub open spec fn centered(title: Seq<char>, tl: nat, w: nat) -> Seq<char> {
    let pl = sat_sub(w as int, tl as int) / 2;
    let pr = sat_sub(w as int, (pl + tl) as int);
    spaces(pl) + COLOR_BOLD_CYAN@ + title + COLOR_RESET@ + spaces(pr)
}

/// Appends `title` centred in `w` columns.
pub fn push_centered(buf: &mut String, title: &str, w: usize)
    ensures
        final(buf)@ == old(buf)@ + centered(title@, title.len() as nat, w as nat),
{
    let tl = title.len();
    let pl = (if w > tl { w - tl } else { 0 }) / 2;
    let used = pl + tl;
    let pr = if w > used { w - used } else { 0 };
    push_spaces(buf, pl);
    push_str(buf, COLOR_BOLD_CYAN);
    push_str(buf, title);
    push_str(buf, COLOR_RESET);
    push_spaces(buf, pr);
    assert(buf@ =~= old(buf)@ + centered(title@, title.len() as nat, w as nat));
}

/// Appends a dim vertical border.
pub fn push_bar(buf: &mut String)
    ensures
        final(buf)@ == old(buf)@ + bar(),
{
    push_str(buf, COLOR_DIM_GRAY);
    push_str(buf, "│");
    push_str(buf, COLOR_RESET);
    assert(buf@ =~= old(buf)@ + bar());
}

/// The current-value text of a percentage row: ` NNN%` in `color`.
pub open spec fn pct_text(current: Seq<char>, color: Seq<char>) -> Seq<char> {
    " "@ + color + current + "%"@ + COLOR_RESET@
}

/// The current-value text of a temperature row: the reading in `color`,
/// or a dim `N/A°C (N/A°F)` when there is none.
pub open spec fn reading_text(current: Option<Seq<char>>, color: Seq<char>) -> Seq<char> {
    match current {
        Some(t) => " "@ + color + t + COLOR_RESET@,
        None => " "@ + COLOR_DIM_GRAY@ + "N/A°C (N/A°F)"@ + COLOR_RESET@,
    }
}

pub open spec fn opt_text(o: Option<&str>) -> Option<Seq<char>> {
    match o {
        Some(t) => Some(t@),
        None => None,
    }
}

/// Appends ` NNN%` in `color`.
pub fn push_pct(buf: &mut String, current: &str, color: &str)
    ensures
        final(buf)@ == old(buf)@ + pct_text(current@, color@),
{
    push_str(buf, " ");
    push_str(buf, color);
    push_str(buf, current);
    push_str(buf, "%");
    push_str(buf, COLOR_RESET);
    assert(buf@ =~= old(buf)@ + pct_text(current@, color@));
}

/// Appends the reading of a temperature row, or the dim `N/A` reading.
pub fn push_reading(buf: &mut String, current: Option<&str>, color: &str)
    ensures
        final(buf)@ == old(buf)@ + reading_text(opt_text(current), color@),
{
    push_str(buf, " ");
    match current {
        Some(t) => {
            push_str(buf, color);
            push_str(buf, t);
        },
        None => {
            push_str(buf, COLOR_DIM_GRAY);
            push_str(buf, "N/A°C (N/A°F)");
        },
    }
    push_str(buf, COLOR_RESET);
    assert(buf@ =~= old(buf)@ + reading_text(opt_text(current), color@));
}

/// The amounts and percentage of a usage row: ` used/total  NNN%`, both in
/// `color`.
pub open spec fn amount_pct_text(abs: Seq<char>, current: Seq<char>, color: Seq<char>) -> Seq<
    char,
> {
    " "@ + color + abs + COLOR_RESET@ + "  "@ + color + current + "%"@ + COLOR_RESET@
}

/// Appends ` used/total  NNN%` in `color`.
pub fn push_amount_pct(buf: &mut String, abs: &str, current: &str, color: &str)
    ensures
        final(buf)@ == old(buf)@ + amount_pct_text(abs@, current@, color@),
{
    push_str(buf, " ");
    push_str(buf, color);
    push_str(buf, abs);
    push_str(buf, COLOR_RESET);
    push_str(buf, "  ");
    push_str(buf, color);
    push_str(buf, current);
    push_str(buf, "%");
    push_str(buf, COLOR_RESET);
    assert(buf@ =~= old(buf)@ + amount_pct_text(abs@, current@, color@));
}

/// A row label in white, `{:<w$}`, followed by a space.
pub open spec fn label_text(label: Seq<char>, w: nat) -> Seq<char> {
    COLOR_WHITE@ + pad_right(label, w) + COLOR_RESET@ + " "@
}

/// Appends a white left-aligned label and a space.
pub fn push_label(buf: &mut String, label: &str, w: usize)
    ensures
        final(buf)@ == old(buf)@ + label_text(label@, w as nat),
{
    push_str(buf, COLOR_WHITE);
    push_pad_right(buf, label, w);
    push_str(buf, COLOR_RESET);
    push_str(buf, " ");
    assert(buf@ =~= old(buf)@ + label_text(label@, w as nat));
}

} // verus!
