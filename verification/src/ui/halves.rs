//! The two-half CPU screen: per-core utilization rows on the left half,
//! temperature sensor rows on the right half.
use vstd::prelude::*;

use crate::disk::io::{byte_len, names};
use crate::text::{
    dec, decimal_len, pad_left, push_char, push_decimal, push_pad_left, push_repeat, push_spaces,
    push_str, repeat, sat_sub, spaces,
};
use crate::ui::colors::{COLOR_BOLD_CYAN, COLOR_DIM_GRAY, COLOR_RESET, COLOR_WHITE};
use crate::ui::cpu::render_empty_right_half;
use crate::ui::frame::{
    clear_line, joined, label_list, lemma_ascii_len, lemma_joined_all, lemma_joined_take,
    opt_view, push_clear_lines, push_sensor_reading, push_status_bar, sensor_labels, status_bar,
    Sensor, Series,
};
use crate::ui::layout::{
    chart_room, lemma_chart_room_le, lemma_sensor_label_width_bound, sensor_label_width,
};
use crate::ui::sparkline::{
    bar, chart, empty_cell, pct_text, push_bar, push_chart, push_empty_cells, push_pct,
    push_reading, reading_text,
};
use crate::ui::lines::{
    crlfs, lead_ok, lemma_chart_no_nl, lemma_crlfs_add, lemma_dec_no_nl, lemma_joined_crlfs,
    lemma_no_nl_pure, lemma_one_crlf, lemma_pad_left_crlfs, lemma_pure_add, lemma_repeat_crlfs,
    lemma_repeat_no_nl, lemma_styles_end, lemma_styles_no_nl, lemma_wrap_pure, no_nl, pure, reading_ok,
    series_ok,
};
use crate::ui::{dashes, title_text};

verus! {

/// Width of the core label column: the digits of the highest core
/// number, at least 2.
pub fn label_width(core_count: usize) -> (r: usize)
    ensures
        r == (if core_count == 0 || dec((core_count - 1) as nat).len() < 2 {
            2
        } else {
            dec((core_count - 1) as nat).len()
        }),
{
    if core_count == 0 {
        return 2;
    }
    let digits = decimal_len((core_count - 1) as u64);
    if digits < 2 {
        2
    } else {
        digits
    }
}

/// Width of the sensor label column: the longest label in bytes, at least
/// 3 (the width of `N/A`, shown when there is no sensor).
pub fn temp_label_width(labels: &Vec<String>) -> (r: usize)
    requires
        forall|i: int| 0 <= i < labels.len() ==> byte_len(#[trigger] labels@[i]@) <= usize::MAX,
    ensures
        r == sensor_label_width(names(labels@)),
{
    crate::ui::layout::temp_label_width(labels)
}

/// Chart width of the left (utilization) half.
/// Layout: "│ " + label + " " + chart + " " + "NNN%" + " │"
///          2   + lw    + 1   + cw    + 1   + 4      + 2  = lw + cw + 10
pub fn left_chart_width(half_cols: usize, lw: usize) -> (r: usize)
    requires
        lw + 10 <= usize::MAX,
    ensures
        r == chart_room(half_cols as int, lw + 10),
{
    let fixed = lw + 10;
    if half_cols > fixed {
        half_cols - fixed
    } else {
        8
    }
}

/// Chart width of the right (temperature) half.
/// Layout: " " + label + " " + chart + " " + "NNN°C (NNN°F)" + " │"
///          1  + tlw   + 1   + cw    + 1   + 14               + 2  = tlw + cw + 19
pub fn right_chart_width(half_cols: usize, tlw: usize) -> (r: usize)
    requires
        tlw + 19 <= usize::MAX,
    ensures
        r == chart_room(half_cols as int, tlw + 19),
{
    let fixed = tlw + 19;
    if half_cols > fixed {
        half_cols - fixed
    } else {
        8
    }
}

/// A utilization row of the left half: border, right-aligned label,
/// chart, percentage, padding to `half_width`.
pub open spec fn util_row(
    label: Seq<char>,
    lw: nat,
    s: Series,
    cw: nat,
    half_width: nat,
) -> Seq<char> {
    bar() + " "@ + COLOR_WHITE@ + pad_left(label, lw) + COLOR_RESET@ + " "@ + chart(s.cells@, cw)
        + pct_text(s.current@, s.color@) + spaces(
        sat_sub(half_width as int, (2 + lw + 1 + cw + 1 + 4) as int),
    )
}

#[verifier::spinoff_prover]
fn render_util_row(buf: &mut String, label: &str, lw: usize, s: &Series, cw: usize, half_width: usize)
    requires
        2 + lw + 1 + cw + 1 + 4 <= usize::MAX,
    ensures
        final(buf)@ == old(buf)@ + util_row(label@, lw as nat, *s, cw as nat, half_width as nat),
{
    push_bar(buf);
    push_str(buf, " ");
    push_str(buf, COLOR_WHITE);
    push_pad_left(buf, label, lw);
    push_str(buf, COLOR_RESET);
    push_str(buf, " ");
    push_chart(buf, &s.cells, cw);
    push_pct(buf, s.current.as_str(), s.color);
    let used = 2 + lw + 1 + cw + 1 + 4;
    let pad = if half_width > used { half_width - used } else { 0 };
    push_spaces(buf, pad);
    assert(buf@ =~= old(buf)@ + util_row(label@, lw as nat, *s, cw as nat, half_width as nat));
}

/// A temperature row of the right half: right-aligned label, chart,
/// reading, padding, right border.
pub open spec fn temp_row(label: Seq<char>, tlw: nat, s: Sensor, cw: nat, half_width: nat) -> Seq<
    char,
> {
    " "@ + COLOR_WHITE@ + pad_left(label, tlw) + COLOR_RESET@ + " "@ + chart(s.reading.cells@, cw)
        + reading_text(opt_view(s.reading.current), s.reading.color@) + spaces(
        sat_sub(half_width as int, (1 + tlw + 1 + cw + 1 + 14 + 2) as int),
    ) + " "@ + bar()
}

#[verifier::spinoff_prover]
fn render_temp_row(buf: &mut String, s: &Sensor, tlw: usize, cw: usize, half_width: usize)
    requires
        1 + tlw + 1 + cw + 1 + 14 + 2 <= usize::MAX,
    ensures
        final(buf)@ == old(buf)@ + temp_row(s.label@, tlw as nat, *s, cw as nat, half_width as nat),
{
    push_str(buf, " ");
    push_str(buf, COLOR_WHITE);
    push_pad_left(buf, s.label.as_str(), tlw);
    push_str(buf, COLOR_RESET);
    push_str(buf, " ");
    push_chart(buf, &s.reading.cells, cw);
    push_sensor_reading(buf, &s.reading);
    let used = 1 + tlw + 1 + cw + 1 + 14;
    let pad = if half_width > used + 2 { half_width - (used + 2) } else { 0 };
    push_spaces(buf, pad);
    push_str(buf, " ");
    push_bar(buf);
    assert(buf@ =~= old(buf)@ + temp_row(s.label@, tlw as nat, *s, cw as nat, half_width as nat));
}

/// The temperature row shown when no sensor was found.
pub open spec fn na_temp_row(tlw: nat, cw: nat, half_width: nat) -> Seq<char> {
    " "@ + COLOR_WHITE@ + pad_left("N/A"@, tlw) + COLOR_RESET@ + " "@ + repeat(empty_cell(), cw)
        + reading_text(None, seq![]) + spaces(
        sat_sub(half_width as int, (1 + tlw + 1 + cw + 1 + 14 + 2) as int),
    ) + " "@ + bar()
}

#[verifier::spinoff_prover]
fn render_na_temp_row(buf: &mut String, tlw: usize, cw: usize, half_width: usize)
    requires
        1 + tlw + 1 + cw + 1 + 14 + 2 <= usize::MAX,
    ensures
        final(buf)@ == old(buf)@ + na_temp_row(tlw as nat, cw as nat, half_width as nat),
{
    push_str(buf, " ");
    push_str(buf, COLOR_WHITE);
    push_pad_left(buf, "N/A", tlw);
    push_str(buf, COLOR_RESET);
    push_str(buf, " ");
    push_empty_cells(buf, cw);
    push_reading(buf, None, "");
    let used = 1 + tlw + 1 + cw + 1 + 14;
    let pad = if half_width > used + 2 { half_width - (used + 2) } else { 0 };
    push_spaces(buf, pad);
    push_str(buf, " ");
    push_bar(buf);
    assert(buf@ =~= old(buf)@ + na_temp_row(tlw as nat, cw as nat, half_width as nat));
}

/// The top or bottom edge of the screen box, `width` columns wide; the
/// title takes its byte length and two spaces more than in the
/// three-section screen.
pub open spec fn border(left: char, right: char, width: nat, title: Option<(Seq<char>, nat)>) -> Seq<
    char,
> {
    COLOR_DIM_GRAY@ + seq![left] + "─"@ + match title {
        Some((t, tl)) => " "@ + COLOR_BOLD_CYAN@ + t + COLOR_RESET@ + COLOR_DIM_GRAY@ + " "@ + dashes(
            sat_sub(width as int, (4 + tl + 2) as int),
        ),
        None => dashes(sat_sub(width as int, 3)),
    } + seq![right] + COLOR_RESET@ + "\r\n"@
}

#[verifier::spinoff_prover]
fn render_border(buf: &mut String, left: char, right: char, width: u16, title: Option<&str>)
    requires
        title matches Some(t) ==> t.len() + 6 <= usize::MAX,
    ensures
        final(buf)@ == old(buf)@ + border(left, right, width as nat, title_text(title)),
{
    push_str(buf, COLOR_DIM_GRAY);
    push_char(buf, left);
    push_str(buf, "─");
    match title {
        Some(t) => {
            push_str(buf, " ");
            push_str(buf, COLOR_BOLD_CYAN);
            push_str(buf, t);
            push_str(buf, COLOR_RESET);
            push_str(buf, COLOR_DIM_GRAY);
            push_str(buf, " ");
            let title_chars = t.len() + 2;
            let w = width as usize;
            let fill = if w > 4 + title_chars { w - (4 + title_chars) } else { 0 };
            push_repeat(buf, '─', fill);
        },
        None => {
            let w = width as usize;
            let fill = if w > 3 { w - 3 } else { 0 };
            push_repeat(buf, '─', fill);
        },
    }
    push_char(buf, right);
    push_str(buf, COLOR_RESET);
    push_str(buf, "\r\n");
    assert(buf@ =~= old(buf)@ + border(left, right, width as nat, title_text(title)));
}

/// An empty line across both halves.
pub open spec fn separator(left_half: nat, cols: nat) -> Seq<char> {
    bar() + spaces(sat_sub(left_half as int, 1)) + bar() + spaces(
        sat_sub(cols as int, (left_half + 2) as int),
    ) + bar() + "\r\n"@
}

fn render_separator_line(buf: &mut String, left_half: usize, terminal_cols: u16)
    requires
        left_half + 2 <= usize::MAX,
    ensures
        final(buf)@ == old(buf)@ + separator(left_half as nat, terminal_cols as nat),
{
    push_bar(buf);
    let inner = if left_half > 1 { left_half - 1 } else { 0 };
    push_spaces(buf, inner);
    push_bar(buf);
    let c = terminal_cols as usize;
    let right_inner = if c > left_half + 2 { c - (left_half + 2) } else { 0 };
    push_spaces(buf, right_inner);
    push_bar(buf);
    push_str(buf, "\r\n");
    assert(buf@ =~= old(buf)@ + separator(left_half as nat, terminal_cols as nat));
}

/// The sizes of the two halves for a screen `cols` wide.
pub struct HalvesGeometry {
    pub left_half: nat,
    pub right_half: nat,
    pub lw: nat,
    pub lcw: nat,
    pub tlw: nat,
    pub rcw: nat,
    pub temp_rows: nat,
}

pub open spec fn halves_geometry(cores: nat, sensors: Seq<Sensor>, cols: nat) -> HalvesGeometry {
    let total_inner = sat_sub(cols as int, 2);
    let left_half = total_inner / 2 + 1;
    let right_half = sat_sub(cols as int, (left_half + 1) as int);
    let lw = if cores == 0 || dec((cores - 1) as nat).len() < 2 {
        2
    } else {
        dec((cores - 1) as nat).len()
    };
    let tlw = sensor_label_width(sensor_labels(sensors));
    HalvesGeometry {
        left_half,
        right_half,
        lw,
        lcw: chart_room(left_half as int, (lw + 10) as int) as nat,
        tlw,
        rcw: chart_room(right_half as int, (tlw + 19) as int) as nat,
        temp_rows: if sensors.len() > 0 {
            sensors.len()
        } else {
            1
        },
    }
}

/// The right half of row `i`: a sensor, the `N/A` row, or blank.
pub open spec fn right_half_text(sensors: Seq<Sensor>, g: HalvesGeometry, i: int) -> Seq<char> {
    if i < g.temp_rows {
        if sensors.len() > 0 {
            temp_row(sensors[i].label@, g.tlw, sensors[i], g.rcw, g.right_half)
        } else {
            na_temp_row(g.tlw, g.rcw, g.right_half)
        }
    } else {
        spaces(sat_sub(g.right_half as int, 1)) + bar()
    }
}

/// Row `i`: core `i` on the left, the `i`-th sensor on the right.
pub open spec fn halves_row(cores: Seq<Series>, sensors: Seq<Sensor>, g: HalvesGeometry, i: int) -> Seq<
    char,
> {
    util_row(dec(i as nat), g.lw, cores[i], g.lcw, g.left_half) + bar() + right_half_text(
        sensors,
        g,
        i,
    ) + "\r\n"@
}

pub open spec fn halves_rows(cores: Seq<Series>, sensors: Seq<Sensor>, g: HalvesGeometry) -> Seq<
    Seq<char>,
> {
    Seq::new(cores.len(), |i: int| halves_row(cores, sensors, g, i))
}

/// The whole screen: the boxed CPU section, blank lines down to the last
/// line, and the status bar.
pub open spec fn halves_frame(cores: Seq<Series>, sensors: Seq<Sensor>, cols: nat, rows: nat) -> Seq<
    char,
> {
    let g = halves_geometry(cores.len(), sensors, cols);
    "\x1b[H"@ + border('╭', '╮', cols, title_text(Some("CPU"))) + separator(g.left_half, cols) + joined(
        halves_rows(cores, sensors, g),
    ) + separator(g.left_half, cols) + border('╰', '╯', cols, None) + repeat(
        clear_line(),
        sat_sub(rows as int, (cores.len() + 4 + 1) as int),
    ) + status_bar(cols)
}

/// Labels and histories are in memory, so each label is at most
/// `isize::MAX` bytes and there are fewer rows than `usize::MAX / 8`.
pub open spec fn halves_input_ok(cores: Seq<Series>, sensors: Seq<Sensor>) -> bool {
    &&& cores.len() <= usize::MAX / 8
    &&& forall|i: int| 0 <= i < sensors.len() ==> byte_len(#[trigger] sensors[i].label@) <= isize::MAX
}

fn row_label(i: usize) -> (s: String)
    ensures
        s@ == dec(i as nat),
{
    let mut s = String::new();
    push_decimal(&mut s, i as u64);
    s
}

fn render_row(
    buf: &mut String,
    cores: &Vec<Series>,
    sensors: &Vec<Sensor>,
    i: usize,
    left_half: usize,
    right_half: usize,
    lw: usize,
    lcw: usize,
    tlw: usize,
    rcw: usize,
    temp_rows: usize,
)
    requires
        i < cores.len(),
        lw <= 20,
        lcw <= 65536,
        rcw <= 65536,
        tlw <= isize::MAX,
        temp_rows == (if sensors.len() > 0 {
            sensors.len()
        } else {
            1
        }),
    ensures
        final(buf)@ == old(buf)@ + halves_row(
            cores@,
            sensors@,
            HalvesGeometry {
                left_half: left_half as nat,
                right_half: right_half as nat,
                lw: lw as nat,
                lcw: lcw as nat,
                tlw: tlw as nat,
                rcw: rcw as nat,
                temp_rows: temp_rows as nat,
            },
            i as int,
        ),
{
    let label = row_label(i);
    render_util_row(buf, label.as_str(), lw, &cores[i], lcw, left_half);
    push_bar(buf);
    if i < temp_rows {
        if sensors.len() > 0 {
            render_temp_row(buf, &sensors[i], tlw, rcw, right_half);
        } else {
            render_na_temp_row(buf, tlw, rcw, right_half);
        }
    } else {
        render_empty_right_half(buf, right_half);
    }
    push_str(buf, "\r\n");
    let ghost g = HalvesGeometry {
        left_half: left_half as nat,
        right_half: right_half as nat,
        lw: lw as nat,
        lcw: lcw as nat,
        tlw: tlw as nat,
        rcw: rcw as nat,
        temp_rows: temp_rows as nat,
    };
    assert(buf@ =~= old(buf)@ + halves_row(cores@, sensors@, g, i as int));
}

struct HalvesSizes {
    left_half: usize,
    right_half: usize,
    lw: usize,
    lcw: usize,
    tlw: usize,
    rcw: usize,
    temp_rows: usize,
}

spec fn halves_geometry_of(s: HalvesSizes) -> HalvesGeometry {
    HalvesGeometry {
        left_half: s.left_half as nat,
        right_half: s.right_half as nat,
        lw: s.lw as nat,
        lcw: s.lcw as nat,
        tlw: s.tlw as nat,
        rcw: s.rcw as nat,
        temp_rows: s.temp_rows as nat,
    }
}

fn halves_sizes(cores: &Vec<Series>, sensors: &Vec<Sensor>, cols: u16) -> (s: HalvesSizes)
    requires
        halves_input_ok(cores@, sensors@),
    ensures
        halves_geometry_of(s) == halves_geometry(cores.len() as nat, sensors@, cols as nat),
        s.lw <= 20,
        s.lcw <= 65536,
        s.rcw <= 65536,
        s.tlw <= isize::MAX,
        s.left_half <= 65536,
        s.temp_rows == (if sensors.len() > 0 {
            sensors.len()
        } else {
            1
        }),
{
    let c = cols as usize;
    let total_inner = if c > 2 { c - 2 } else { 0 };
    let left_half = total_inner / 2 + 1;
    let right_half = if c > left_half + 1 { c - (left_half + 1) } else { 0 };
    let lw = label_width(cores.len());
    proof {
        if cores.len() > 0 {
            crate::text::lemma_dec_len_u64((cores.len() - 1) as nat);
        }
    }
    let lcw = left_chart_width(left_half, lw);
    let labels = label_list(sensors);
    proof {
        assert(labels.len() == sensors.len()) by {
            assert(names(labels@).len() == labels.len());
        }
        assert forall|i: int| 0 <= i < labels.len() implies byte_len(#[trigger] labels@[i]@)
            <= isize::MAX by {
            assert(names(labels@)[i] == labels@[i]@);
            assert(sensor_labels(sensors@)[i] == sensors@[i].label@);
        }
        lemma_sensor_label_width_bound(names(labels@));
    }
    let tlw = temp_label_width(&labels);
    let rcw = right_chart_width(right_half, tlw);
    let temp_rows = if sensors.len() > 0 { sensors.len() } else { 1 };
    proof {
        lemma_chart_room_le(left_half as int, lw + 10);
        lemma_chart_room_le(right_half as int, tlw + 19);
    }
    HalvesSizes { left_half, right_half, lw, lcw, tlw, rcw, temp_rows }
}

/// Renders the two-half CPU screen for a terminal `cols` by `rows`:
/// core `i` on row `i`, sensors beside the first rows, `N/A` when there
/// is no sensor.
#[verifier::spinoff_prover]
pub fn render_frame(cores: &Vec<Series>, sensors: &Vec<Sensor>, cols: u16, rows: u16) -> (r: String)
    requires
        halves_input_ok(cores@, sensors@),
    ensures
        r@ == halves_frame(cores@, sensors@, cols as nat, rows as nat),
{
    let s = halves_sizes(cores, sensors, cols);
    let ghost g = halves_geometry_of(s);
    let ghost rows_spec = halves_rows(cores@, sensors@, g);
    let mut buf = String::new();
    push_str(&mut buf, "\x1b[H");
    proof {
        reveal_strlit("CPU");
        lemma_ascii_len("CPU");
        assert(Seq::<char>::empty() + "\x1b[H"@ =~= "\x1b[H"@);
    }
    render_border(&mut buf, '╭', '╮', cols, Some("CPU"));
    render_separator_line(&mut buf, s.left_half, cols);
    let ghost head = buf@;
    let mut i: usize = 0;
    while i < cores.len()
        invariant
            i <= cores.len(),
            halves_input_ok(cores@, sensors@),
            rows_spec == halves_rows(cores@, sensors@, g),
            buf@ == head + joined(rows_spec.take(i as int)),
            g == halves_geometry_of(s),
            s.lw <= 20,
            s.lcw <= 65536,
            s.rcw <= 65536,
            s.tlw <= isize::MAX,
            s.temp_rows == (if sensors.len() > 0 {
                sensors.len()
            } else {
                1
            }),
        decreases cores.len() - i,
    {
        render_row(
            &mut buf,
            cores,
            sensors,
            i,
            s.left_half,
            s.right_half,
            s.lw,
            s.lcw,
            s.tlw,
            s.rcw,
            s.temp_rows,
        );
        proof {
            lemma_joined_take(rows_spec, i as int);
        }
        i += 1;
    }
    proof {
        lemma_joined_all(rows_spec);
    }
    render_separator_line(&mut buf, s.left_half, cols);
    render_border(&mut buf, '╰', '╯', cols, None);
    let r = rows as usize;
    let used = cores.len() + 4 + 1;
    let remaining = if r > used { r - used } else { 0 };
    push_clear_lines(&mut buf, remaining);
    push_status_bar(&mut buf, cols);
    assert(buf@ == halves_frame(cores@, sensors@, cols as nat, rows as nat));
    buf
}

proof fn lemma_halves_border_line(left: char, right: char, width: nat, title: Option<(Seq<char>, nat)>)
    requires
        left != '\n',
        right != '\n',
        title matches Some((t, tl)) ==> no_nl(t),
    ensures
        crlfs(border(left, right, width, title)) == 1,
        lead_ok(border(left, right, width, title)),
{
    lemma_styles_no_nl();
    let x = COLOR_DIM_GRAY@ + seq![left] + "─"@ + match title {
        Some((t, tl)) => " "@ + COLOR_BOLD_CYAN@ + t + COLOR_RESET@ + COLOR_DIM_GRAY@ + " "@ + dashes(
            sat_sub(width as int, (4 + tl + 2) as int),
        ),
        None => dashes(sat_sub(width as int, 3)),
    } + seq![right] + COLOR_RESET@;
    assert(border(left, right, width, title) == x + "\r\n"@);
    lemma_no_nl_pure(x);
    lemma_one_crlf(x);
}

proof fn lemma_halves_separator_line(left_half: nat, cols: nat)
    ensures
        crlfs(separator(left_half, cols)) == 1,
        lead_ok(separator(left_half, cols)),
{
    lemma_styles_no_nl();
    let x = bar() + spaces(sat_sub(left_half as int, 1)) + bar() + spaces(
        sat_sub(cols as int, (left_half + 2) as int),
    ) + bar();
    lemma_no_nl_pure(x);
    lemma_one_crlf(x);
}

/// A sensor's label holds no `\r\n` line end and its history's texts no
/// line feed.
pub open spec fn halves_sensor_ok(s: Sensor) -> bool {
    crlfs(s.label@) == 0 && reading_ok(s.reading)
}

#[verifier::spinoff_prover]
proof fn lemma_halves_row_line(cores: Seq<Series>, sensors: Seq<Sensor>, g: HalvesGeometry, i: int)
    requires
        0 <= i < cores.len(),
        forall|k: int| 0 <= k < cores.len() ==> series_ok(#[trigger] cores[k]),
        forall|k: int| 0 <= k < sensors.len() ==> halves_sensor_ok(#[trigger] sensors[k]),
        g.temp_rows == (if sensors.len() > 0 {
            sensors.len()
        } else {
            1
        }),
    ensures
        crlfs(halves_row(cores, sensors, g, i)) == 1,
        lead_ok(halves_row(cores, sensors, g, i)),
{
    lemma_styles_no_nl();
    lemma_styles_end();
    reveal_strlit("N/A");
    reveal_strlit("N/A°C (N/A°F)");
    let c = cores[i];
    assert(series_ok(c));
    lemma_dec_no_nl(i as nat);
    lemma_chart_no_nl(c.cells@, g.lcw);
    let left = util_row(dec(i as nat), g.lw, c, g.lcw, g.left_half) + bar();
    assert(no_nl(left));
    lemma_no_nl_pure(left);
    let right = right_half_text(sensors, g, i);
    assert(pure(right)) by {
        if i < g.temp_rows && sensors.len() > 0 {
            let s = sensors[i];
            assert(halves_sensor_ok(s));
            lemma_chart_no_nl(s.reading.cells@, g.rcw);
            let a = " "@ + COLOR_WHITE@;
            lemma_no_nl_pure(a);
            lemma_pad_left_crlfs(s.label@, g.tlw);
            lemma_wrap_pure(a, pad_left(s.label@, g.tlw));
            let b = COLOR_RESET@ + " "@ + chart(s.reading.cells@, g.rcw) + reading_text(
                opt_view(s.reading.current),
                s.reading.color@,
            ) + spaces(sat_sub(g.right_half as int, (1 + g.tlw + 1 + g.rcw + 1 + 14 + 2) as int)) + " "@
                + bar();
            assert(no_nl(b));
            lemma_no_nl_pure(b);
            lemma_pure_add(a + pad_left(s.label@, g.tlw), b);
            assert(right =~= a + pad_left(s.label@, g.tlw) + b);
        } else {
            if i < g.temp_rows {
                lemma_repeat_no_nl(empty_cell(), g.rcw);
            }
            assert(no_nl(right));
            lemma_no_nl_pure(right);
        }
    }
    lemma_pure_add(left, right);
    lemma_one_crlf(left + right);
}

/// The two-half screen takes `rows` lines with the status bar on the last
/// one: the box edges, the blank lines inside the box and one line per
/// core, then blank lines down to the status bar.  Lines are counted by
/// their `\r\n` ends.  When the box does not leave room for the status
/// bar below it, no blank line is added.
#[verifier::spinoff_prover]
#[verifier::rlimit(50)]
pub proof fn lemma_halves_frame_lines(cores: Seq<Series>, sensors: Seq<Sensor>, cols: nat, rows: nat)
    requires
        forall|k: int| 0 <= k < cores.len() ==> series_ok(#[trigger] cores[k]),
        forall|k: int| 0 <= k < sensors.len() ==> halves_sensor_ok(#[trigger] sensors[k]),
    ensures
        crlfs(halves_frame(cores, sensors, cols, rows)) == cores.len() + 4 + sat_sub(
            rows as int,
            (cores.len() + 5) as int,
        ),
        cores.len() + 5 <= rows ==> crlfs(halves_frame(cores, sensors, cols, rows)) == rows - 1,
{
    let g = halves_geometry(cores.len(), sensors, cols);
    lemma_styles_no_nl();
    reveal_strlit("CPU");
    reveal_strlit("q: quit  ttop v0.1");
    reveal_strlit("\x1b[K");
    reveal_strlit("\r\n");
    reveal_strlit("\x1b[K\r\n");
    let head = "\x1b[H"@;
    let top = border('╭', '╮', cols, title_text(Some("CPU")));
    let sep = separator(g.left_half, cols);
    let body = joined(halves_rows(cores, sensors, g));
    let bottom = border('╰', '╯', cols, None);
    let k = sat_sub(rows as int, (cores.len() + 4 + 1) as int);
    let fill = repeat(clear_line(), k);
    let status = status_bar(cols);
    lemma_no_nl_pure(head);
    lemma_halves_border_line('╭', '╮', cols, title_text(Some("CPU")));
    lemma_halves_border_line('╰', '╯', cols, None);
    lemma_halves_separator_line(g.left_half, cols);
    assert forall|i: int| 0 <= i < halves_rows(cores, sensors, g).len() implies crlfs(
        #[trigger] halves_rows(cores, sensors, g)[i],
    ) == 1 && lead_ok(halves_rows(cores, sensors, g)[i]) by {
        lemma_halves_row_line(cores, sensors, g, i);
    }
    lemma_joined_crlfs(halves_rows(cores, sensors, g));
    lemma_no_nl_pure("\x1b[K"@);
    lemma_one_crlf("\x1b[K"@);
    assert(clear_line() =~= "\x1b[K"@ + "\r\n"@);
    lemma_repeat_crlfs(clear_line(), k);
    lemma_no_nl_pure(status);
    lemma_crlfs_add(head, top);
    lemma_crlfs_add(head + top, sep);
    lemma_crlfs_add(head + top + sep, body);
    lemma_crlfs_add(head + top + sep + body, sep);
    lemma_crlfs_add(head + top + sep + body + sep, bottom);
    lemma_crlfs_add(head + top + sep + body + sep + bottom, fill);
    lemma_crlfs_add(head + top + sep + body + sep + bottom + fill, status);
}

} // verus!
