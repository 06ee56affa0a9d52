//! Rendering of the full-screen frame: boxed sections with sparkline rows.
pub mod colors;
pub mod cpu;
pub mod disk;
pub mod frame;
pub mod gpu;
pub mod halves;
pub mod layout;
pub mod lines;
pub mod memory;
pub mod screen;
pub mod shown;
pub mod sparkline;
pub mod width;

pub use colors::{COLOR_GREEN, COLOR_ORANGE, COLOR_RED, COLOR_YELLOW, SPARKLINE_CHARS};
pub use layout::{
    core_columns, gpu_abs_width, label_width, mem_abs_width, mem_col_chart_width,
    mem_temp_label_width, temp_chart_width, temp_label_width, util_chart_width,
};
pub use screen::render_frame;

use vstd::prelude::*;

use crate::text::{push_char, push_repeat, push_spaces, push_str, sat_sub, spaces};
use crate::ui::colors::{COLOR_BOLD_CYAN, COLOR_DIM_GRAY, COLOR_RESET};
use crate::ui::sparkline::{bar, centered, push_bar, push_centered};

verus! {

pub open spec fn dashes(n: nat) -> Seq<char> {
    Seq::new(n, |i: int| '─')
}

/// A box edge `width` columns wide: corner, dashes with an optional title
/// after the first dash, corner.
pub open spec fn horizontal_border(
    left: char,
    right: char,
    width: nat,
    title: Option<(Seq<char>, nat)>,
) -> Seq<char> {
    COLOR_DIM_GRAY@ + seq![left] + "─"@ + match title {
        Some((t, tl)) => " "@ + COLOR_BOLD_CYAN@ + t + COLOR_RESET@ + COLOR_DIM_GRAY@ + " "@
            + dashes(sat_sub(width as int, (3 + tl + 2) as int)),
        None => dashes(sat_sub(width as int, 3)),
    } + seq![right] + COLOR_RESET@ + "\r\n"@
}

pub open spec fn title_text(title: Option<&str>) -> Option<(Seq<char>, nat)> {
    match title {
        Some(t) => Some((t@, t.len() as nat)),
        None => None,
    }
}

/// Appends the top or bottom edge of a box `width` columns wide, with the
/// section title near its left end when there is one.
#[verifier::spinoff_prover]
pub fn render_horizontal_border(
    buf: &mut String,
    left: char,
    right: char,
    width: u16,
    title: Option<&str>,
)
    requires
        title matches Some(t) ==> t.len() + 5 <= usize::MAX,
    ensures
        final(buf)@ == old(buf)@ + horizontal_border(left, right, width as nat, title_text(title)),
{
    push_str(buf, COLOR_DIM_GRAY);
    push_char(buf, left);
    push_str(buf, "─");
    match title {
        Some(t) => {
            push_str(buf, " ");
            push_str(buf, COLOR_BOLD_CYAN);
            push_str(buf, t);
            push_str(buf, COLOR_RESET);
            push_str(buf, COLOR_DIM_GRAY);
            push_str(buf, " ");
            let title_chars = t.len() + 2;
            let w = width as usize;
            let fill = if w > 3 + title_chars { w - (3 + title_chars) } else { 0 };
            push_repeat(buf, '─', fill);
        },
        None => {
            let w = width as usize;
            let fill = if w > 3 { w - 3 } else { 0 };
            push_repeat(buf, '─', fill);
        },
    }
    push_char(buf, right);
    push_str(buf, COLOR_RESET);
    push_str(buf, "\r\n");
    assert(buf@ =~= old(buf)@ + horizontal_border(left, right, width as nat, title_text(title)));
}

/// The subtitle line of the CPU section: one title centred over the
/// utilization columns, one over the temperature column.
pub open spec fn subtitle_line(
    util_title: Seq<char>,
    util_len: nat,
    temp_title: Seq<char>,
    temp_len: nat,
    util_span: nat,
    temp_col: nat,
) -> Seq<char> {
    bar() + centered(util_title, util_len, util_span) + bar() + centered(
        temp_title,
        temp_len,
        temp_col,
    ) + bar() + "\r\n"@
}

/// Appends the subtitle line of the CPU section.
pub fn render_subtitle_line(
    buf: &mut String,
    util_title: &str,
    temp_title: &str,
    util_span: usize,
    temp_col: usize,
)
    ensures
        final(buf)@ == old(buf)@ + subtitle_line(
            util_title@,
            util_title.len() as nat,
            temp_title@,
            temp_title.len() as nat,
            util_span as nat,
            temp_col as nat,
        ),
{
    push_bar(buf);
    push_centered(buf, util_title, util_span);
    push_bar(buf);
    push_centered(buf, temp_title, temp_col);
    push_bar(buf);
    push_str(buf, "\r\n");
    assert(buf@ =~= old(buf)@ + subtitle_line(
        util_title@,
        util_title.len() as nat,
        temp_title@,
        temp_title.len() as nat,
        util_span as nat,
        temp_col as nat,
    ));
}

pub open spec fn blank_columns(widths: Seq<usize>) -> Seq<char>
    decreases widths.len(),
{
    if widths.len() == 0 {
        seq![]
    } else {
        blank_columns(widths.drop_last()) + bar() + spaces(widths.last() as nat)
    }
}

/// A line of empty columns of the given widths between borders.
pub open spec fn separator_line(widths: Seq<usize>) -> Seq<char> {
    blank_columns(widths) + bar() + "\r\n"@
}

/// Appends a line of empty columns of the given widths, with a border
/// before each column and after the last.
pub fn render_separator_line(buf: &mut String, col_widths: &Vec<usize>)
    ensures
        final(buf)@ == old(buf)@ + separator_line(col_widths@),
{
    let mut i: usize = 0;
    while i < col_widths.len()
        invariant
            i <= col_widths.len(),
            buf@ == old(buf)@ + blank_columns(col_widths@.take(i as int)),
        decreases col_widths.len() - i,
    {
        push_bar(buf);
        push_spaces(buf, col_widths[i]);
        i += 1;
        assert(col_widths@.take(i as int).drop_last() =~= col_widths@.take(i - 1));
        assert(buf@ =~= old(buf)@ + blank_columns(col_widths@.take(i as int)));
    }
    assert(col_widths@.take(col_widths.len() as int) =~= col_widths@);
    push_bar(buf);
    push_str(buf, "\r\n");
    assert(buf@ =~= old(buf)@ + separator_line(col_widths@));
}

} // verus!
