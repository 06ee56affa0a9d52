//! The full screen: the CPU section (utilization columns and the
//! temperature column), the memory section, the GPU section when a GPU
//! was found, blank lines, and the status bar.
use vstd::prelude::*;
use vstd::utf8::is_ascii_chars;

use crate::disk::io::{byte_len, lemma_byte_len_concat};
use crate::memory::usage::{lemma_max_pair_width, max_pair_width, mem_pair, padded_mem_pair, MemInfo};
use crate::text::{
    dec, is_digit, lemma_dec_digits, pad_left, pad_right, push_decimal, push_str, repeat, sat_sub, spaces,
};
use crate::ui::cpu::{
    na_temp_row, render_empty_col, render_empty_first_col, render_empty_right_half,
    render_na_temp_row, render_temp_row, render_util_row, render_util_row_inner, temp_row, util_row,
    util_row_inner,
};
use crate::ui::frame::{
    clear_line, joined, Reading, label_list, lemma_append6, lemma_ascii_len, lemma_joined_all,
    lemma_joined_take, opt_view, push_clear_lines, push_status_bar, sensor_labels, status_bar,
    status_text,
    FrameInput, GpuPanel, Sensor, Series,
};
use crate::ui::layout::{
    chart_room, core_columns, core_split, gpu_abs_width, label_width, lemma_chart_room_le,
    lemma_sensor_label_width_bound, mem_abs_width, mem_col_chart_width, sensor_label_width,
    temp_chart_width, temp_label_width, util_chart_width,
};
use crate::ui::gpu::{
    gpu_mem_col_inner, gpu_temp_col_right, gpu_util_col_first, render_gpu_mem_col_inner,
    render_gpu_subtitle_line, render_gpu_temp_col_right, render_gpu_util_col_first, subtitle_line3,
};
use crate::ui::memory::{
    mem_body, render_mem_col_first, render_mem_col_inner, render_mem_subtitle_line,
};
use crate::ui::lines::{
    crlfs, lead_ok, lemma_chart_no_nl, lemma_crlfs_add, lemma_dec_no_nl, lemma_joined_crlfs,
    lemma_mem_pair_no_nl, lemma_no_nl_pure, lemma_one_crlf, lemma_pad_left_crlfs, lemma_pure_add,
    lemma_repeat_crlfs, lemma_repeat_no_nl, lemma_styles_end, lemma_styles_no_nl, lemma_wrap_pure,
    no_nl, pure, reading_ok, series_ok,
};
use crate::ui::sparkline::{bar, centered, chart, empty_cell, push_bar, reading_text, Cell};
use crate::ui::width::{
    blank_width, cells_print, lemma_amount_pct_shows, lemma_gpu_mem_inner_shows,
    lemma_gpu_temp_right_shows, lemma_gpu_util_first_shows, lemma_mem_body_shows,
    lemma_mem_pair_plain, lemma_pad_left_plain, lemma_plain_shows, max_nat, lemma_bar_shows, lemma_border_shows, lemma_centered_shows,
    lemma_chars_le_bytes, lemma_line_shows, lemma_literals_show, lemma_na_temp_row_shows,
    lemma_separator_shows, lemma_shows_add, lemma_spaces_show, lemma_temp_row_shows,
    lemma_util_row_inner_shows, lemma_util_row_shows, line_shows, plain, shows,
};
use crate::ui::colors::{COLOR_BOLD_CYAN, COLOR_DIM_GRAY, COLOR_RESET, COLOR_WHITE};
use crate::ui::shown::{
    cells_lack, contains, gpu_word, lacks, lemma_chart_lacks, lemma_contains_at, lemma_contains_grow,
    lemma_contains_mid, lemma_contains_word, lemma_dec_lacks, lemma_gpu_word, lemma_lacks_safe,
    lemma_mem_pair_safe, lemma_pad_contains, lemma_repeat_lacks, lemma_safe_add, lemma_styles_lack,
    lemma_wrap_safe, safe,
};
use crate::ui::{
    blank_columns, dashes, horizontal_border, render_horizontal_border, render_separator_line, render_subtitle_line,
    separator_line, subtitle_line, title_text,
};

verus! {

/// A core's label: `#` and its number.
pub open spec fn core_label(idx: nat) -> Seq<char> {
    "#"@ + dec(idx)
}

fn core_label_text(idx: usize) -> (s: String)
    ensures
        s@ == core_label(idx as nat),
{
    let mut s = String::new();
    push_str(&mut s, "#");
    push_decimal(&mut s, idx as u64);
    s
}

/// A temperature column: the `i`-th sensor, the `N/A` row when there is
/// no sensor at all, blank below the last sensor.
#[verifier::opaque]
pub open spec fn sensor_col(sensors: Seq<Sensor>, tlw: nat, tcw: nat, section: nat, i: int) -> Seq<
    char,
> {
    if i < (if sensors.len() > 0 {
        sensors.len()
    } else {
        1
    }) {
        if sensors.len() > 0 {
            temp_row(
                sensors[i].label@,
                tlw,
                sensors[i].reading.cells@,
                opt_view(sensors[i].reading.current),
                sensors[i].reading.color@,
                tcw,
                section,
            )
        } else {
            na_temp_row(tlw, tcw, section)
        }
    } else {
        spaces(sat_sub(section as int, 1)) + bar()
    }
}

#[verifier::spinoff_prover]
fn render_sensor_col(
    buf: &mut String,
    sensors: &Vec<Sensor>,
    tlw: usize,
    tcw: usize,
    section: usize,
    i: usize,
)
    requires
        tlw <= isize::MAX,
        tcw <= 65536,
    ensures
        final(buf)@ == old(buf)@ + sensor_col(
            sensors@,
            tlw as nat,
            tcw as nat,
            section as nat,
            i as int,
        ),
{
    proof {
        reveal(sensor_col);
    }
    let temp_rows = if sensors.len() > 0 { sensors.len() } else { 1 };
    if i < temp_rows {
        if sensors.len() > 0 {
            let s = &sensors[i];
            match &s.reading.current {
                Some(t) => render_temp_row(
                    buf,
                    s.label.as_str(),
                    tlw,
                    &s.reading.cells,
                    Some(t.as_str()),
                    s.reading.color,
                    tcw,
                    section,
                ),
                None => render_temp_row(
                    buf,
                    s.label.as_str(),
                    tlw,
                    &s.reading.cells,
                    None,
                    s.reading.color,
                    tcw,
                    section,
                ),
            }
        } else {
            render_na_temp_row(buf, tlw, tcw, section);
        }
    } else {
        render_empty_right_half(buf, section);
    }
}

/// The sizes of the CPU section for `n` cores, the given sensors and a
/// screen `cols` wide.  With two utilization columns `c2` and `w2` are 0.
pub struct CpuGeometry {
    pub three: bool,
    pub c0: nat,
    pub c1: nat,
    pub c2: nat,
    pub w0: nat,
    pub w1: nat,
    pub w2: nat,
    pub temp_col: nat,
    pub lw: nat,
    pub ucw: nat,
    pub tlw: nat,
    pub tcw: nat,
    pub row_count: nat,
}

pub open spec fn max3(a: nat, b: nat, c: nat) -> nat {
    if a >= b && a >= c {
        a
    } else if b >= c {
        b
    } else {
        c
    }
}

#[verifier::opaque]
pub open spec fn cpu_geometry(n: nat, sensors: Seq<Sensor>, cols: nat) -> CpuGeometry {
    let split = core_split(n as int);
    let three = split.len() == 3;
    let available = sat_sub(cols as int, (split.len() + 2) as int);
    let util_total = available * 2 / 3;
    let temp_col = (available - util_total) as nat;
    let w0 = if three {
        util_total / 3
    } else {
        util_total / 2
    };
    let w1 = if three {
        util_total / 3
    } else {
        (util_total - w0) as nat
    };
    let w2 = if three {
        (util_total - w0 - w1) as nat
    } else {
        0
    };
    let lw = if n == 0 {
        2
    } else {
        1 + dec((n - 1) as nat).len()
    };
    let tlw = sensor_label_width(sensor_labels(sensors));
    let c0 = split[0] as nat;
    let c1 = split[1] as nat;
    let c2 = if three {
        split[2] as nat
    } else {
        0
    };
    let temp_rows = if sensors.len() > 0 {
        sensors.len()
    } else {
        1
    };
    let max_cores = max3(c0, c1, c2);
    CpuGeometry {
        three,
        c0,
        c1,
        c2,
        w0,
        w1,
        w2,
        temp_col,
        lw,
        ucw: chart_room(w0 as int, (lw + 9) as int) as nat,
        tlw,
        tcw: chart_room((temp_col + 1) as int, (tlw + 18) as int) as nat,
        row_count: if max_cores >= temp_rows {
            max_cores
        } else {
            temp_rows
        },
    }
}

/// The cell of the first utilization column on row `i`.
#[verifier::opaque]
pub open spec fn first_util_col(cores: Seq<Series>, g: CpuGeometry, i: int) -> Seq<char> {
    if i < g.c0 {
        util_row(
            core_label(i as nat),
            g.lw,
            cores[i].cells@,
            cores[i].current@,
            cores[i].color@,
            g.ucw,
            g.w0 + 1,
        )
    } else {
        bar() + spaces(sat_sub((g.w0 + 1) as int, 1))
    }
}

/// The cell on row `i` of a later utilization column that starts at core
/// `start`, holds `count` cores and is `width` wide.
#[verifier::opaque]
pub open spec fn later_util_col(
    cores: Seq<Series>,
    g: CpuGeometry,
    start: nat,
    count: nat,
    width: nat,
    i: int,
) -> Seq<char> {
    if i < count {
        util_row_inner(
            core_label((start + i) as nat),
            g.lw,
            cores[start + i].cells@,
            cores[start + i].current@,
            cores[start + i].color@,
            g.ucw,
            width,
        )
    } else {
        spaces(width)
    }
}

/// Row `i` of the CPU section.
pub open spec fn cpu_row(cores: Seq<Series>, sensors: Seq<Sensor>, g: CpuGeometry, i: int) -> Seq<
    char,
> {
    first_util_col(cores, g, i) + bar() + later_util_col(cores, g, g.c0, g.c1, g.w1, i) + (if g.three {
        bar() + later_util_col(cores, g, g.c0 + g.c1, g.c2, g.w2, i)
    } else {
        seq![]
    }) + bar() + sensor_col(sensors, g.tlw, g.tcw, g.temp_col + 1, i) + "\r\n"@
}

pub open spec fn cpu_rows(cores: Seq<Series>, sensors: Seq<Sensor>, g: CpuGeometry) -> Seq<
    Seq<char>,
> {
    Seq::new(g.row_count, |i: int| cpu_row(cores, sensors, g, i))
}

pub open spec fn cpu_widths(g: CpuGeometry) -> Seq<usize> {
    if g.three {
        seq![g.w0 as usize, g.w1 as usize, g.w2 as usize, g.temp_col as usize]
    } else {
        seq![g.w0 as usize, g.w1 as usize, g.temp_col as usize]
    }
}

/// The boxed CPU section.
#[verifier::opaque]
pub open spec fn cpu_section(cores: Seq<Series>, sensors: Seq<Sensor>, cols: nat) -> Seq<char> {
    let g = cpu_geometry(cores.len(), sensors, cols);
    let util_span = g.w0 + g.w1 + g.w2 + (if g.three {
        2nat
    } else {
        1nat
    });
    horizontal_border('╭', '╮', cols, title_text(Some("CPU"))) + subtitle_line(
        "Utilization"@,
        "Utilization".len() as nat,
        "Temperature"@,
        "Temperature".len() as nat,
        util_span,
        g.temp_col,
    ) + joined(cpu_rows(cores, sensors, g)) + separator_line(cpu_widths(g)) + horizontal_border(
        '╰',
        '╯',
        cols,
        None,
    )
}

/// The CPU section sizes as machine integers.
struct CpuSizes {
    three: bool,
    c0: usize,
    c1: usize,
    c2: usize,
    w0: usize,
    w1: usize,
    w2: usize,
    temp_col: usize,
    lw: usize,
    ucw: usize,
    tlw: usize,
    tcw: usize,
    row_count: usize,
}

spec fn geometry_of(s: CpuSizes) -> CpuGeometry {
    CpuGeometry {
        three: s.three,
        c0: s.c0 as nat,
        c1: s.c1 as nat,
        c2: s.c2 as nat,
        w0: s.w0 as nat,
        w1: s.w1 as nat,
        w2: s.w2 as nat,
        temp_col: s.temp_col as nat,
        lw: s.lw as nat,
        ucw: s.ucw as nat,
        tlw: s.tlw as nat,
        tcw: s.tcw as nat,
        row_count: s.row_count as nat,
    }
}

/// Sensors are in memory: each label is at most `isize::MAX` bytes and
/// there are at most `usize::MAX / 8` of them.
pub open spec fn sensors_ok(sensors: Seq<Sensor>) -> bool {
    &&& sensors.len() <= usize::MAX / 8
    &&& forall|i: int| 0 <= i < sensors.len() ==> byte_len(#[trigger] sensors[i].label@) <= isize::MAX
}

spec fn sizes_ok(s: CpuSizes, n: nat, sensors: Seq<Sensor>) -> bool {
    &&& s.c0 + s.c1 + s.c2 == n
    &&& !s.three ==> s.c2 == 0
    &&& s.w0 <= 65535 && s.w1 <= 65535 && s.w2 <= 65535 && s.temp_col <= 65535
    &&& s.lw <= 21
    &&& s.ucw <= 65536
    &&& s.tcw <= 65536
    &&& s.tlw <= isize::MAX
    &&& s.row_count <= n + sensors.len() + 1
}

/// Width of the label column for the given sensors.
fn sensor_label_col(sensors: &Vec<Sensor>) -> (r: usize)
    requires
        sensors_ok(sensors@),
    ensures
        r == sensor_label_width(sensor_labels(sensors@)),
        r <= isize::MAX,
{
    let labels = label_list(sensors);
    proof {
        assert(labels.len() == sensors.len()) by {
            assert(crate::disk::io::names(labels@).len() == labels.len());
        }
        assert forall|i: int| 0 <= i < labels.len() implies byte_len(#[trigger] labels@[i]@)
            <= isize::MAX by {
            assert(crate::disk::io::names(labels@)[i] == labels@[i]@);
            assert(sensor_labels(sensors@)[i] == sensors@[i].label@);
        }
        lemma_sensor_label_width_bound(crate::disk::io::names(labels@));
    }
    temp_label_width(&labels)
}

#[verifier::spinoff_prover]
fn cpu_sizes(cores: &Vec<Series>, sensors: &Vec<Sensor>, cols: u16) -> (s: CpuSizes)
    requires
        cores.len() <= usize::MAX / 8,
        sensors_ok(sensors@),
    ensures
        geometry_of(s) == cpu_geometry(cores.len() as nat, sensors@, cols as nat),
        sizes_ok(s, cores.len() as nat, sensors@),
{
    let ghost g = cpu_geometry(cores.len() as nat, sensors@, cols as nat);
    proof {
        reveal(cpu_geometry);
    }
    let n = cores.len();
    let core_cols = core_columns(n);
    let num = core_cols.len();
    let three = num == 3;
    let c = cols as usize;
    let available = if c > num + 2 { c - (num + 2) } else { 0 };
    let util_total = (available * 2) / 3;
    let temp_col = available - util_total;
    let w0 = if three { util_total / 3 } else { util_total / 2 };
    let w1 = if three { util_total / 3 } else { util_total - w0 };
    let w2 = if three { util_total - w0 - w1 } else { 0 };
    let lw = label_width(n);
    proof {
        if n > 0 {
            crate::text::lemma_dec_len_u64((n - 1) as nat);
        }
    }
    let ucw = util_chart_width(w0, lw);
    let tlw = sensor_label_col(sensors);
    let tcw = temp_chart_width(temp_col + 1, tlw);
    let c0 = core_cols[0];
    let c1 = core_cols[1];
    let c2 = if three { core_cols[2] } else { 0 };
    let temp_rows = if sensors.len() > 0 { sensors.len() } else { 1 };
    let max_cores = if c0 >= c1 && c0 >= c2 { c0 } else if c1 >= c2 { c1 } else { c2 };
    let row_count = if max_cores >= temp_rows { max_cores } else { temp_rows };
    proof {
        lemma_chart_room_le(w0 as int, lw + 9);
        lemma_chart_room_le(temp_col + 1, tlw + 18);
    }
    let s = CpuSizes { three, c0, c1, c2, w0, w1, w2, temp_col, lw, ucw, tlw, tcw, row_count };
    assert(geometry_of(s) == g);
    s
}

fn render_core_first(buf: &mut String, cores: &Vec<Series>, s: &CpuSizes, i: usize)
    requires
        s.c0 <= cores.len(),
        s.lw <= 21,
        s.ucw <= 65536,
        s.w0 <= 65535,
    ensures
        final(buf)@ == old(buf)@ + first_util_col(cores@, geometry_of(*s), i as int),
{
    proof {
        reveal(first_util_col);
    }
    if i < s.c0 {
        let label = core_label_text(i);
        let core = &cores[i];
        render_util_row(
            buf,
            label.as_str(),
            s.lw,
            &core.cells,
            core.current.as_str(),
            core.color,
            s.ucw,
            s.w0 + 1,
        );
    } else {
        render_empty_first_col(buf, s.w0 + 1);
    }
}

fn render_core_later(
    buf: &mut String,
    cores: &Vec<Series>,
    s: &CpuSizes,
    start: usize,
    count: usize,
    width: usize,
    i: usize,
)
    requires
        start + count <= cores.len(),
        s.lw <= 21,
        s.ucw <= 65536,
    ensures
        final(buf)@ == old(buf)@ + later_util_col(
            cores@,
            geometry_of(*s),
            start as nat,
            count as nat,
            width as nat,
            i as int,
        ),
{
    proof {
        reveal(later_util_col);
    }
    if i < count {
        let idx = start + i;
        let label = core_label_text(idx);
        let core = &cores[idx];
        render_util_row_inner(
            buf,
            label.as_str(),
            s.lw,
            &core.cells,
            core.current.as_str(),
            core.color,
            s.ucw,
            width,
        );
    } else {
        render_empty_col(buf, width);
    }
}

#[verifier::spinoff_prover]
fn render_cpu_row(
    buf: &mut String,
    cores: &Vec<Series>,
    sensors: &Vec<Sensor>,
    s: &CpuSizes,
    i: usize,
)
    requires
        sizes_ok(*s, cores.len() as nat, sensors@),
    ensures
        final(buf)@ == old(buf)@ + cpu_row(cores@, sensors@, geometry_of(*s), i as int),
{
    render_core_first(buf, cores, s, i);
    push_bar(buf);
    render_core_later(buf, cores, s, s.c0, s.c1, s.w1, i);
    if s.three {
        push_bar(buf);
        render_core_later(buf, cores, s, s.c0 + s.c1, s.c2, s.w2, i);
    }
    push_bar(buf);
    render_sensor_col(buf, sensors, s.tlw, s.tcw, s.temp_col + 1, i);
    push_str(buf, "\r\n");
    assert(buf@ =~= old(buf)@ + cpu_row(cores@, sensors@, geometry_of(*s), i as int));
}

fn cpu_widths_vec(s: &CpuSizes) -> (v: Vec<usize>)
    ensures
        v@ == cpu_widths(geometry_of(*s)),
{
    let w0 = s.w0;
    let w1 = s.w1;
    let w2 = s.w2;
    let t = s.temp_col;
    if s.three {
        vec![w0, w1, w2, t]
    } else {
        vec![w0, w1, t]
    }
}

/// Appends the CPU section and returns how many rows it has between its
/// subtitle and its bottom lines.
#[verifier::spinoff_prover]
#[verifier::rlimit(30)]
fn render_cpu_section(buf: &mut String, cores: &Vec<Series>, sensors: &Vec<Sensor>, cols: u16) -> (r: usize)
    requires
        cores.len() <= usize::MAX / 8,
        sensors_ok(sensors@),
    ensures
        final(buf)@ == old(buf)@ + cpu_section(cores@, sensors@, cols as nat),
        r == cpu_geometry(cores.len() as nat, sensors@, cols as nat).row_count,
        r <= cores.len() + sensors.len() + 1,
{
    let s = cpu_sizes(cores, sensors, cols);
    let ghost g = geometry_of(s);
    proof {
        reveal_strlit("CPU");
        lemma_ascii_len("CPU");
    }
    render_horizontal_border(buf, '╭', '╮', cols, Some("CPU"));
    let util_span = s.w0 + s.w1 + s.w2 + if s.three { 2 } else { 1 };
    render_subtitle_line(buf, "Utilization", "Temperature", util_span, s.temp_col);
    let ghost head = buf@;
    let ghost rows = cpu_rows(cores@, sensors@, g);
    let mut i: usize = 0;
    while i < s.row_count
        invariant
            i <= s.row_count,
            g == geometry_of(s),
            sizes_ok(s, cores.len() as nat, sensors@),
            rows == cpu_rows(cores@, sensors@, g),
            buf@ == head + joined(rows.take(i as int)),
        decreases s.row_count - i,
    {
        render_cpu_row(buf, cores, sensors, &s, i);
        proof {
            lemma_joined_take(rows, i as int);
        }
        i += 1;
    }
    proof {
        lemma_joined_all(rows);
    }
    let widths = cpu_widths_vec(&s);
    render_separator_line(buf, &widths);
    render_horizontal_border(buf, '╰', '╯', cols, None);
    proof {
        let p0 = horizontal_border('╭', '╮', cols as nat, title_text(Some("CPU")));
        let p1 = subtitle_line(
            "Utilization"@,
            "Utilization".len() as nat,
            "Temperature"@,
            "Temperature".len() as nat,
            util_span as nat,
            s.temp_col as nat,
        );
        let p3 = separator_line(cpu_widths(g));
        let p4 = horizontal_border('╰', '╯', cols as nat, None);
        lemma_append6(old(buf)@, p0, p1, joined(rows), p3, p4, seq![]);
        reveal(cpu_section);
        assert(cpu_section(cores@, sensors@, cols as nat) == p0 + p1 + joined(rows) + p3 + p4);
    }
    s.row_count
}

// ---------------------------------------------------------------------
// Memory section
// ---------------------------------------------------------------------

/// The sizes of the memory (and GPU) sections: three columns sharing the
/// width inside the four borders, the widest used/total text, and the
/// chart and label widths.
pub struct MemGeometry {
    pub c1: nat,
    pub c2: nat,
    pub c3: nat,
    pub aw: nat,
    pub mcw: nat,
    pub mtlw: nat,
    pub mtcw: nat,
}

pub open spec fn third(cols: nat) -> nat {
    sat_sub(cols as int, 4) / 3
}

pub open spec fn last_third(cols: nat) -> nat {
    (sat_sub(cols as int, 4) - 2 * third(cols)) as nat
}

/// The widest used/total text of RAM and swap.
pub open spec fn mem_abs(mem: MemInfo) -> nat {
    if max_pair_width(mem.mem_total_kb as nat) >= max_pair_width(mem.swap_total_kb as nat) {
        max_pair_width(mem.mem_total_kb as nat)
    } else {
        max_pair_width(mem.swap_total_kb as nat)
    }
}

#[verifier::opaque]
pub open spec fn mem_geometry(mem: MemInfo, dimms: Seq<Sensor>, cols: nat) -> MemGeometry {
    let aw = mem_abs(mem);
    let mtlw = sensor_label_width(sensor_labels(dimms));
    MemGeometry {
        c1: third(cols),
        c2: third(cols),
        c3: last_third(cols),
        aw,
        mcw: chart_room(third(cols) as int, (aw + 12) as int) as nat,
        mtlw,
        mtcw: chart_room((last_third(cols) + 1) as int, (mtlw + 18) as int) as nat,
    }
}

/// RAM in use: total less available, floored at zero.
pub open spec fn ram_used(mem: MemInfo) -> nat {
    sat_sub(mem.mem_total_kb as int, mem.mem_available_kb as int)
}

/// Swap in use: total less free, floored at zero.
pub open spec fn swap_used(mem: MemInfo) -> nat {
    sat_sub(mem.swap_total_kb as int, mem.swap_free_kb as int)
}

/// The RAM column on the first row, blank on later rows.
#[verifier::opaque]
pub open spec fn ram_col(ram: Series, mem: MemInfo, g: MemGeometry, i: int) -> Seq<char> {
    let abs = pad_left(mem_pair(ram_used(mem), mem.mem_total_kb as nat), g.aw);
    if i == 0 {
        bar() + " "@ + mem_body("RAM"@, ram.cells@, g.mcw, abs, ram.current@, ram.color@, false)
            + spaces(sat_sub((g.c1 + 1) as int, (2 + 3 + 1 + g.mcw + 1 + abs.len() + 2 + 4) as int))
    } else {
        bar() + spaces(sat_sub((g.c1 + 1) as int, 1))
    }
}

/// The swap column on the first row, all dim when there is no swap;
/// blank on later rows.
#[verifier::opaque]
pub open spec fn swap_col(swap: Series, mem: MemInfo, g: MemGeometry, i: int) -> Seq<char> {
    let abs = pad_left(mem_pair(swap_used(mem), mem.swap_total_kb as nat), g.aw);
    if i == 0 {
        " "@ + mem_body(
            "SWP"@,
            swap.cells@,
            g.mcw,
            abs,
            swap.current@,
            swap.color@,
            !(mem.swap_total_kb > 0),
        ) + spaces(sat_sub(g.c2 as int, (1 + 3 + 1 + g.mcw + 1 + abs.len() + 2 + 4) as int))
    } else {
        spaces(g.c2)
    }
}

pub open spec fn mem_row(inp: FrameInput, g: MemGeometry, i: int) -> Seq<char> {
    ram_col(inp.ram, inp.mem, g, i) + bar() + swap_col(inp.swap, inp.mem, g, i) + bar() + sensor_col(
        inp.dimms@,
        g.mtlw,
        g.mtcw,
        g.c3 + 1,
        i,
    ) + "\r\n"@
}

/// One row per DIMM sensor, at least one.
pub open spec fn mem_row_count(dimms: Seq<Sensor>) -> nat {
    if dimms.len() > 0 {
        dimms.len()
    } else {
        1
    }
}

pub open spec fn thirds_widths(g: MemGeometry) -> Seq<usize> {
    seq![g.c1 as usize, g.c2 as usize, g.c3 as usize]
}

/// The boxed memory section.
#[verifier::opaque]
pub open spec fn mem_section(inp: FrameInput, cols: nat) -> Seq<char> {
    let g = mem_geometry(inp.mem, inp.dimms@, cols);
    horizontal_border('╭', '╮', cols, title_text(Some("Memory"))) + subtitle_line3(
        "RAM Utilization"@,
        "RAM Utilization".len() as nat,
        g.c1,
        "Swap Utilization"@,
        "Swap Utilization".len() as nat,
        g.c2,
        "Temperature"@,
        "Temperature".len() as nat,
        g.c3,
    ) + joined(Seq::new(mem_row_count(inp.dimms@), |i: int| mem_row(inp, g, i))) + separator_line(
        thirds_widths(g),
    ) + horizontal_border('╰', '╯', cols, None)
}

struct MemSizes {
    c1: usize,
    c2: usize,
    c3: usize,
    aw: usize,
    mcw: usize,
    mtlw: usize,
    mtcw: usize,
}

spec fn mem_geometry_of(s: MemSizes) -> MemGeometry {
    MemGeometry {
        c1: s.c1 as nat,
        c2: s.c2 as nat,
        c3: s.c3 as nat,
        aw: s.aw as nat,
        mcw: s.mcw as nat,
        mtlw: s.mtlw as nat,
        mtcw: s.mtcw as nat,
    }
}

spec fn mem_sizes_ok(s: MemSizes) -> bool {
    &&& s.c1 <= 65535 && s.c2 <= 65535 && s.c3 <= 65535
    &&& s.aw <= 61
    &&& s.mcw <= 65536
    &&& s.mtcw <= 65536
    &&& s.mtlw <= isize::MAX
}

#[verifier::spinoff_prover]
fn mem_sizes(mem: &MemInfo, dimms: &Vec<Sensor>, cols: u16) -> (s: MemSizes)
    requires
        sensors_ok(dimms@),
    ensures
        mem_geometry_of(s) == mem_geometry(*mem, dimms@, cols as nat),
        mem_sizes_ok(s),
{
    proof {
        reveal(mem_geometry);
    }
    let c = cols as usize;
    let avail = if c > 4 { c - 4 } else { 0 };
    let c1 = avail / 3;
    let c2 = avail / 3;
    let c3 = avail - c1 - c2;
    let aw = mem_abs_width(mem);
    let mcw = mem_col_chart_width(c1, aw);
    let mtlw = sensor_label_col(dimms);
    let mtcw = temp_chart_width(c3 + 1, mtlw);
    proof {
        lemma_chart_room_le(c1 as int, aw + 12);
        lemma_chart_room_le(c3 + 1, mtlw + 18);
    }
    MemSizes { c1, c2, c3, aw, mcw, mtlw, mtcw }
}

fn render_ram_col(buf: &mut String, ram: &Series, abs: &str, s: &MemSizes, i: usize)
    requires
        mem_sizes_ok(*s),
        abs@.len() <= 61,
        is_ascii_chars(abs@),
    ensures
        final(buf)@ == old(buf)@ + (if i == 0 {
            bar() + " "@ + mem_body(
                "RAM"@,
                ram.cells@,
                s.mcw as nat,
                abs@,
                ram.current@,
                ram.color@,
                false,
            ) + spaces(
                sat_sub((s.c1 + 1) as int, (2 + 3 + 1 + s.mcw + 1 + abs@.len() + 2 + 4) as int),
            )
        } else {
            bar() + spaces(sat_sub((s.c1 + 1) as int, 1))
        }),
{
    proof {
        lemma_ascii_len(abs);
    }
    if i == 0 {
        render_mem_col_first(
            buf,
            "RAM",
            &ram.cells,
            s.mcw,
            abs,
            ram.current.as_str(),
            ram.color,
            s.c1 + 1,
            false,
        );
    } else {
        render_empty_first_col(buf, s.c1 + 1);
    }
}

fn render_swap_col(buf: &mut String, swap: &Series, abs: &str, dim: bool, s: &MemSizes, i: usize)
    requires
        mem_sizes_ok(*s),
        abs@.len() <= 61,
        is_ascii_chars(abs@),
    ensures
        final(buf)@ == old(buf)@ + (if i == 0 {
            " "@ + mem_body(
                "SWP"@,
                swap.cells@,
                s.mcw as nat,
                abs@,
                swap.current@,
                swap.color@,
                dim,
            ) + spaces(sat_sub(s.c2 as int, (1 + 3 + 1 + s.mcw + 1 + abs@.len() + 2 + 4) as int))
        } else {
            spaces(s.c2 as nat)
        }),
{
    proof {
        lemma_ascii_len(abs);
    }
    if i == 0 {
        render_mem_col_inner(
            buf,
            "SWP",
            &swap.cells,
            s.mcw,
            abs,
            swap.current.as_str(),
            swap.color,
            s.c2,
            dim,
        );
    } else {
        render_empty_col(buf, s.c2);
    }
}

#[verifier::spinoff_prover]
fn render_mem_row(
    buf: &mut String,
    inp: &FrameInput,
    ram_abs: &str,
    swap_abs: &str,
    dim: bool,
    s: &MemSizes,
    i: usize,
)
    requires
        mem_sizes_ok(*s),
        ram_abs@ == pad_left(mem_pair(ram_used(inp.mem), inp.mem.mem_total_kb as nat), s.aw as nat),
        swap_abs@ == pad_left(mem_pair(swap_used(inp.mem), inp.mem.swap_total_kb as nat), s.aw as nat),
        ram_abs@.len() <= 61,
        swap_abs@.len() <= 61,
        is_ascii_chars(ram_abs@),
        is_ascii_chars(swap_abs@),
        dim == !(inp.mem.swap_total_kb > 0),
    ensures
        final(buf)@ == old(buf)@ + mem_row(*inp, mem_geometry_of(*s), i as int),
{
    let ghost g = mem_geometry_of(*s);
    let ghost p0 = ram_col(inp.ram, inp.mem, g, i as int);
    let ghost p2 = swap_col(inp.swap, inp.mem, g, i as int);
    let ghost p4 = sensor_col(inp.dimms@, g.mtlw, g.mtcw, g.c3 + 1, i as int);
    proof {
        reveal(ram_col);
        reveal(swap_col);
    }
    render_ram_col(buf, &inp.ram, ram_abs, s, i);
    push_bar(buf);
    render_swap_col(buf, &inp.swap, swap_abs, dim, s, i);
    push_bar(buf);
    render_sensor_col(buf, &inp.dimms, s.mtlw, s.mtcw, s.c3 + 1, i);
    push_str(buf, "\r\n");
    proof {
        lemma_append6(old(buf)@, p0, bar(), p2, bar(), p4, "\r\n"@);
    }
}

/// Appends the memory section and returns its number of rows.
#[verifier::spinoff_prover]
fn render_mem_section(buf: &mut String, inp: &FrameInput, cols: u16) -> (r: usize)
    requires
        sensors_ok(inp.dimms@),
    ensures
        final(buf)@ == old(buf)@ + mem_section(*inp, cols as nat),
        r == mem_row_count(inp.dimms@),
{
    let s = mem_sizes(&inp.mem, &inp.dimms, cols);
    let ghost g = mem_geometry_of(s);
    let ram_abs = padded_mem_pair(inp.mem.ram_used_kb(), inp.mem.mem_total_kb, s.aw);
    let swap_abs = padded_mem_pair(inp.mem.swap_used_kb(), inp.mem.swap_total_kb, s.aw);
    let dim = !(inp.mem.swap_total_kb > 0);
    proof {
        reveal_strlit("Memory");
        lemma_ascii_len("Memory");
    }
    render_horizontal_border(buf, '╭', '╮', cols, Some("Memory"));
    render_mem_subtitle_line(buf, s.c1, s.c2, s.c3);
    let rows_n = if inp.dimms.len() > 0 { inp.dimms.len() } else { 1 };
    let ghost head = buf@;
    let ghost rows = Seq::new(mem_row_count(inp.dimms@), |i: int| mem_row(*inp, g, i));
    let mut i: usize = 0;
    while i < rows_n
        invariant
            i <= rows_n,
            rows_n == mem_row_count(inp.dimms@),
            g == mem_geometry_of(s),
            mem_sizes_ok(s),
            ram_abs@ == pad_left(mem_pair(ram_used(inp.mem), inp.mem.mem_total_kb as nat), g.aw),
            swap_abs@ == pad_left(mem_pair(swap_used(inp.mem), inp.mem.swap_total_kb as nat), g.aw),
            ram_abs@.len() <= 61,
            swap_abs@.len() <= 61,
            is_ascii_chars(ram_abs@),
            is_ascii_chars(swap_abs@),
            dim == !(inp.mem.swap_total_kb > 0),
            rows == Seq::new(mem_row_count(inp.dimms@), |i: int| mem_row(*inp, g, i)),
            buf@ == head + joined(rows.take(i as int)),
        decreases rows_n - i,
    {
        render_mem_row(buf, inp, ram_abs.as_str(), swap_abs.as_str(), dim, &s, i);
        proof {
            lemma_joined_take(rows, i as int);
        }
        i += 1;
    }
    proof {
        lemma_joined_all(rows);
    }
    let c1 = s.c1;
    let c2 = s.c2;
    let c3 = s.c3;
    let widths = vec![c1, c2, c3];
    render_separator_line(buf, &widths);
    render_horizontal_border(buf, '╰', '╯', cols, None);
    proof {
        let p0 = horizontal_border('╭', '╮', cols as nat, title_text(Some("Memory")));
        let p1 = subtitle_line3(
            "RAM Utilization"@,
            "RAM Utilization".len() as nat,
            g.c1,
            "Swap Utilization"@,
            "Swap Utilization".len() as nat,
            g.c2,
            "Temperature"@,
            "Temperature".len() as nat,
            g.c3,
        );
        let p3 = separator_line(thirds_widths(g));
        let p4 = horizontal_border('╰', '╯', cols as nat, None);
        assert(widths@ == thirds_widths(g));
        lemma_append6(old(buf)@, p0, p1, joined(rows), p3, p4, seq![]);
        reveal(mem_section);
        assert(mem_section(*inp, cols as nat) == p0 + p1 + joined(rows) + p3 + p4);
    }
    rows_n
}

// ---------------------------------------------------------------------
// GPU section
// ---------------------------------------------------------------------

/// The sizes of the GPU section: the memory section's three columns, the
/// widest VRAM used/total text, and the three chart widths.
pub struct GpuGeometry {
    pub c1: nat,
    pub c2: nat,
    pub c3: nat,
    pub gaw: nat,
    pub ucw: nat,
    pub mcw: nat,
    pub tcw: nat,
}

pub open spec fn gpu_geometry(p: GpuPanel, cols: nat) -> GpuGeometry {
    let gaw = max_pair_width(p.mem_total_kb as nat);
    GpuGeometry {
        c1: third(cols),
        c2: third(cols),
        c3: last_third(cols),
        gaw,
        ucw: chart_room(third(cols) as int, 12) as nat,
        mcw: chart_room(third(cols) as int, (gaw + 12) as int) as nat,
        tcw: chart_room((last_third(cols) + 1) as int, 21) as nat,
    }
}

/// The section title: `GPU: ` and the GPU's name.
pub open spec fn gpu_title(p: GpuPanel) -> Seq<char> {
    "GPU: "@ + p.name@
}

/// The row of the GPU section.
#[verifier::opaque]
pub open spec fn gpu_row(p: GpuPanel, g: GpuGeometry) -> Seq<char> {
    let abs = pad_left(mem_pair(p.mem_used_kb as nat, p.mem_total_kb as nat), g.gaw);
    gpu_util_col_first(p.util.cells@, p.util.current@, p.util.color@, g.ucw, g.c1 + 1) + bar()
        + gpu_mem_col_inner(
        p.vram.cells@,
        g.mcw,
        abs,
        abs.len(),
        p.vram.current@,
        p.vram.color@,
        g.c2,
    ) + bar() + gpu_temp_col_right(
        p.temp.cells@,
        opt_view(p.temp.current),
        p.temp.color@,
        g.tcw,
        g.c3 + 1,
    ) + "\r\n"@
}

/// The top edge of the GPU section, titled with the GPU's name.
#[verifier::opaque]
pub open spec fn gpu_top(p: GpuPanel, cols: nat) -> Seq<char> {
    horizontal_border('╭', '╮', cols, Some((gpu_title(p), byte_len(gpu_title(p)))))
}

/// The boxed GPU section: one row with the utilization, VRAM and
/// temperature columns.
#[verifier::opaque]
pub open spec fn gpu_section(p: GpuPanel, cols: nat) -> Seq<char> {
    let g = gpu_geometry(p, cols);
    gpu_top(p, cols) + subtitle_line3(
        "GPU Utilization"@,
        "GPU Utilization".len() as nat,
        g.c1,
        "VRAM Utilization"@,
        "VRAM Utilization".len() as nat,
        g.c2,
        "Temperature"@,
        "Temperature".len() as nat,
        g.c3,
    ) + gpu_row(p, g) + separator_line(seq![g.c1 as usize, g.c2 as usize, g.c3 as usize])
        + horizontal_border('╰', '╯', cols, None)
}

fn gpu_title_text(p: &GpuPanel) -> (t: String)
    requires
        byte_len(p.name@) <= isize::MAX,
    ensures
        t@ == gpu_title(*p),
        byte_len(t@) <= isize::MAX + 5,
{
    let mut t = String::new();
    push_str(&mut t, "GPU: ");
    push_str(&mut t, p.name.as_str());
    proof {
        reveal_strlit("GPU: ");
        vstd::utf8::is_ascii_chars_encode_utf8("GPU: "@);
        lemma_byte_len_concat("GPU: "@, p.name@);
    }
    t
}

fn vram_abs_width(total_kb: u64) -> (r: usize)
    ensures
        r == max_pair_width(total_kb as nat),
        r <= 61,
{
    gpu_abs_width(total_kb)
}

fn render_gpu_top(buf: &mut String, p: &GpuPanel, cols: u16)
    requires
        byte_len(p.name@) <= isize::MAX,
    ensures
        final(buf)@ == old(buf)@ + gpu_top(*p, cols as nat),
{
    proof {
        reveal(gpu_top);
    }
    let title = gpu_title_text(p);
    let t = title.as_str();
    assert(t.len() as nat == byte_len(gpu_title(*p)));
    render_horizontal_border(buf, '╭', '╮', cols, Some(t));
}

fn render_gpu_temp(buf: &mut String, p: &GpuPanel, tcw: usize, section: usize)
    requires
        tcw <= 65536,
    ensures
        final(buf)@ == old(buf)@ + gpu_temp_col_right(
            p.temp.cells@,
            opt_view(p.temp.current),
            p.temp.color@,
            tcw as nat,
            section as nat,
        ),
{
    match &p.temp.current {
        Some(t) => render_gpu_temp_col_right(
            buf,
            &p.temp.cells,
            Some(t.as_str()),
            p.temp.color,
            tcw,
            section,
        ),
        None => render_gpu_temp_col_right(buf, &p.temp.cells, None, p.temp.color, tcw, section),
    }
}

#[verifier::spinoff_prover]
fn render_gpu_row(
    buf: &mut String,
    p: &GpuPanel,
    c1: usize,
    c2: usize,
    c3: usize,
    gaw: usize,
    ucw: usize,
    mcw: usize,
    tcw: usize,
)
    requires
        c1 <= 65535,
        c3 <= 65535,
        gaw <= 61,
        ucw <= 65536,
        mcw <= 65536,
        tcw <= 65536,
    ensures
        final(buf)@ == old(buf)@ + gpu_row(
            *p,
            GpuGeometry {
                c1: c1 as nat,
                c2: c2 as nat,
                c3: c3 as nat,
                gaw: gaw as nat,
                ucw: ucw as nat,
                mcw: mcw as nat,
                tcw: tcw as nat,
            },
        ),
{
    let abs_text = padded_mem_pair(p.mem_used_kb, p.mem_total_kb, gaw);
    let abs = abs_text.as_str();
    proof {
        lemma_ascii_len(abs);
        reveal(gpu_row);
    }
    render_gpu_util_col_first(buf, &p.util.cells, p.util.current.as_str(), p.util.color, ucw, c1 + 1);
    push_bar(buf);
    render_gpu_mem_col_inner(buf, &p.vram.cells, mcw, abs, p.vram.current.as_str(), p.vram.color, c2);
    push_bar(buf);
    render_gpu_temp(buf, p, tcw, c3 + 1);
    push_str(buf, "\r\n");
    let ghost g = GpuGeometry {
        c1: c1 as nat,
        c2: c2 as nat,
        c3: c3 as nat,
        gaw: gaw as nat,
        ucw: ucw as nat,
        mcw: mcw as nat,
        tcw: tcw as nat,
    };
    assert(buf@ =~= old(buf)@ + gpu_row(*p, g));
}

/// Appends the GPU section.
#[verifier::spinoff_prover]
fn render_gpu_section(buf: &mut String, p: &GpuPanel, cols: u16)
    requires
        byte_len(p.name@) <= isize::MAX,
    ensures
        final(buf)@ == old(buf)@ + gpu_section(*p, cols as nat),
{
    let c = cols as usize;
    let avail = if c > 4 { c - 4 } else { 0 };
    let c1 = avail / 3;
    let c2 = avail / 3;
    let c3 = avail - c1 - c2;
    let gaw = vram_abs_width(p.mem_total_kb);
    let ucw = util_chart_width(c1, 3);
    let mcw = mem_col_chart_width(c2, gaw);
    let tcw = temp_chart_width(c3 + 1, 3);
    proof {
        lemma_chart_room_le(c1 as int, 12);
        lemma_chart_room_le(c2 as int, gaw + 12);
        lemma_chart_room_le(c3 + 1, 21);
    }
    let ghost g = GpuGeometry {
        c1: c1 as nat,
        c2: c2 as nat,
        c3: c3 as nat,
        gaw: gaw as nat,
        ucw: ucw as nat,
        mcw: mcw as nat,
        tcw: tcw as nat,
    };
    assert(g == gpu_geometry(*p, cols as nat));
    let ghost p0 = gpu_top(*p, cols as nat);
    let ghost p1 = subtitle_line3(
        "GPU Utilization"@,
        "GPU Utilization".len() as nat,
        g.c1,
        "VRAM Utilization"@,
        "VRAM Utilization".len() as nat,
        g.c2,
        "Temperature"@,
        "Temperature".len() as nat,
        g.c3,
    );
    let ghost p2 = gpu_row(*p, g);
    let ghost p3 = separator_line(seq![c1, c2, c3]);
    let ghost p4 = horizontal_border('╰', '╯', cols as nat, None);
    render_gpu_top(buf, p, cols);
    render_gpu_subtitle_line(buf, c1, c2, c3);
    render_gpu_row(buf, p, c1, c2, c3, gaw, ucw, mcw, tcw);
    let widths = vec![c1, c2, c3];
    render_separator_line(buf, &widths);
    render_horizontal_border(buf, '╰', '╯', cols, None);
    proof {
        lemma_append6(old(buf)@, p0, p1, p2, p3, p4, seq![]);
        assert(widths@ == seq![c1, c2, c3]);
        reveal(gpu_section);
        assert(gpu_section(*p, cols as nat) == p0 + p1 + p2 + p3 + p4);
    }
}

// ---------------------------------------------------------------------
// The whole screen
// ---------------------------------------------------------------------

/// Histories and sensors are in memory: fewer cores and sensors than
/// `usize::MAX / 8`, and labels and the GPU name of at most `isize::MAX`
/// bytes.
pub open spec fn frame_input_ok(inp: FrameInput) -> bool {
    &&& inp.cores.len() <= usize::MAX / 8
    &&& sensors_ok(inp.temps@)
    &&& sensors_ok(inp.dimms@)
    &&& inp.gpu matches Some(p) ==> byte_len(p.name@) <= isize::MAX
}

pub open spec fn gpu_part(gpu: Option<GpuPanel>, cols: nat) -> Seq<char> {
    match gpu {
        Some(p) => gpu_section(p, cols),
        None => seq![],
    }
}

/// Lines taken by the sections: each box adds four lines to its rows
/// (two borders, the subtitle and the separator); the GPU box has one row.
pub open spec fn section_lines(inp: FrameInput, cols: nat) -> nat {
    (cpu_geometry(inp.cores.len() as nat, inp.temps@, cols).row_count + 4) + (mem_row_count(inp.dimms@)
        + 4) + (if inp.gpu is Some {
        5nat
    } else {
        0nat
    })
}

/// The screen for a terminal `cols` by `rows`: cursor home, the CPU,
/// memory and (when present) GPU sections, lines cleared down to the
/// last line, and the status bar.
pub open spec fn frame_text(inp: FrameInput, cols: nat, rows: nat) -> Seq<char> {
    "\x1b[H"@ + cpu_section(inp.cores@, inp.temps@, cols) + mem_section(inp, cols) + gpu_part(
        inp.gpu,
        cols,
    ) + repeat(clear_line(), sat_sub(rows as int, (section_lines(inp, cols) + 1) as int)) + status_bar(cols)
}

/// Renders the whole screen for a terminal `cols` by `rows`.
#[verifier::spinoff_prover]
pub fn render_frame(inp: &FrameInput, cols: u16, rows: u16) -> (r: String)
    requires
        frame_input_ok(*inp),
    ensures
        r@ == frame_text(*inp, cols as nat, rows as nat),
{
    let mut buf = String::new();
    push_str(&mut buf, "\x1b[H");
    let cpu_rows = render_cpu_section(&mut buf, &inp.cores, &inp.temps, cols);
    let mem_rows = render_mem_section(&mut buf, inp, cols);
    let gpu_lines: usize = match &inp.gpu {
        Some(p) => {
            render_gpu_section(&mut buf, p, cols);
            5
        },
        None => 0,
    };
    let used_lines = (cpu_rows + 4) + (mem_rows + 4) + gpu_lines;
    let r = rows as usize;
    let remaining = if r > used_lines + 1 { r - (used_lines + 1) } else { 0 };
    push_clear_lines(&mut buf, remaining);
    push_status_bar(&mut buf, cols);
    assert(buf@ =~= frame_text(*inp, cols as nat, rows as nat));
    buf
}

// ---------------------------------------------------------------------
// Laws of the layout
// ---------------------------------------------------------------------

/// Temperature rows are top-aligned: row `i` of a temperature column
/// shows the `i`-th sensor while there are sensors left and is blank
/// below the last one; with no sensor at all, the first row shows `N/A`
/// and the rows below it are blank.
pub proof fn lemma_temperature_column(sensors: Seq<Sensor>, tlw: nat, tcw: nat, section: nat, i: int)
    requires
        0 <= i,
    ensures
        sensors.len() > 0 && i < sensors.len() ==> sensor_col(sensors, tlw, tcw, section, i)
            == temp_row(
            sensors[i].label@,
            tlw,
            sensors[i].reading.cells@,
            opt_view(sensors[i].reading.current),
            sensors[i].reading.color@,
            tcw,
            section,
        ),
        sensors.len() > 0 && i >= sensors.len() ==> sensor_col(sensors, tlw, tcw, section, i)
            == spaces(sat_sub(section as int, 1)) + bar(),
        sensors.len() == 0 && i == 0 ==> sensor_col(sensors, tlw, tcw, section, i) == na_temp_row(
            tlw,
            tcw,
            section,
        ),
        sensors.len() == 0 && i > 0 ==> sensor_col(sensors, tlw, tcw, section, i) == spaces(
            sat_sub(section as int, 1),
        ) + bar(),
{
    reveal(sensor_col);
}

/// Every core is shown exactly once: the utilization columns hold all
/// the cores between them (the third one, when there is one, is not
/// empty), there are enough rows for the fullest column and for every
/// temperature sensor (or the `N/A` row), and no more rows than that.
pub proof fn lemma_cpu_rows_cover(n: nat, sensors: Seq<Sensor>, cols: nat)
    ensures
        ({
            let g = cpu_geometry(n, sensors, cols);
            &&& g.c0 + g.c1 + g.c2 == n
            &&& g.three ==> g.c2 > 0
            &&& !g.three ==> g.c2 == 0
            &&& g.row_count >= g.c0 && g.row_count >= g.c1 && g.row_count >= g.c2
            &&& g.row_count >= (if sensors.len() > 0 {
                sensors.len()
            } else {
                1
            })
            &&& (g.row_count == g.c0 || g.row_count == g.c1 || g.row_count == g.c2
                || g.row_count == (if sensors.len() > 0 {
                sensors.len()
            } else {
                1
            }))
        }),
{
    reveal(cpu_geometry);
    let split = core_split(n as int);
    if n > 0 {
        let per = (n + 2) / 3;
        assert(per >= 1);
    }
}

// ---------------------------------------------------------------------
// How many lines a frame takes
// ---------------------------------------------------------------------

/// A sensor's label holds no `\r\n` line end and its history's texts no
/// line feed.
pub open spec fn sensor_lines_ok(s: Sensor) -> bool {
    crlfs(s.label@) == 0 && reading_ok(s.reading)
}

/// No text of the input ends a line: the sensor labels and the GPU's name
/// hold no `\r\n`, and the printed values, colours and glyphs, which the
/// program makes, no line feed.
pub open spec fn frame_text_ok(inp: FrameInput) -> bool {
    &&& forall|i: int| 0 <= i < inp.cores.len() ==> series_ok(#[trigger] inp.cores@[i])
    &&& forall|i: int| 0 <= i < inp.temps.len() ==> sensor_lines_ok(#[trigger] inp.temps@[i])
    &&& forall|i: int| 0 <= i < inp.dimms.len() ==> sensor_lines_ok(#[trigger] inp.dimms@[i])
    &&& series_ok(inp.ram)
    &&& series_ok(inp.swap)
    &&& inp.gpu matches Some(p) ==> crlfs(p.name@) == 0 && series_ok(p.util) && series_ok(p.vram)
        && reading_ok(p.temp)
}

/// A line of text without a line feed.
proof fn lemma_plain_line(x: Seq<char>)
    requires
        no_nl(x),
    ensures
        crlfs(x + "\r\n"@) == 1,
        lead_ok(x + "\r\n"@),
{
    lemma_no_nl_pure(x);
    lemma_one_crlf(x);
}

#[verifier::spinoff_prover]
proof fn lemma_border_line(left: char, right: char, width: nat, title: Option<(Seq<char>, nat)>)
    requires
        left != '\n',
        right != '\n',
        title matches Some((t, tl)) ==> crlfs(t) == 0,
    ensures
        crlfs(horizontal_border(left, right, width, title)) == 1,
        lead_ok(horizontal_border(left, right, width, title)),
{
    lemma_styles_no_nl();
    lemma_styles_end();
    let head = COLOR_DIM_GRAY@ + seq![left] + "─"@;
    let x = head + match title {
        Some((t, tl)) => " "@ + COLOR_BOLD_CYAN@ + t + COLOR_RESET@ + COLOR_DIM_GRAY@ + " "@
            + dashes(sat_sub(width as int, (3 + tl + 2) as int)),
        None => dashes(sat_sub(width as int, 3)),
    } + seq![right] + COLOR_RESET@;
    assert(horizontal_border(left, right, width, title) == x + "\r\n"@);
    assert(no_nl(head));
    lemma_no_nl_pure(head);
    let tail = seq![right] + COLOR_RESET@;
    assert(no_nl(tail));
    lemma_no_nl_pure(tail);
    match title {
        Some((t, tl)) => {
            let a = " "@ + COLOR_BOLD_CYAN@;
            assert(no_nl(a));
            lemma_no_nl_pure(a);
            lemma_wrap_pure(a, t);
            let b = COLOR_RESET@ + COLOR_DIM_GRAY@ + " "@ + dashes(sat_sub(width as int, (3 + tl + 2) as int));
            assert(no_nl(b));
            lemma_no_nl_pure(b);
            lemma_pure_add(a + t, b);
            let mid = " "@ + COLOR_BOLD_CYAN@ + t + COLOR_RESET@ + COLOR_DIM_GRAY@ + " "@ + dashes(
                sat_sub(width as int, (3 + tl + 2) as int),
            );
            assert(mid =~= (a + t) + b);
            lemma_pure_add(head, mid);
            lemma_pure_add(head + mid, tail);
            assert(x =~= head + mid + tail);
        },
        None => {
            assert(no_nl(x));
            lemma_no_nl_pure(x);
        },
    }
    lemma_one_crlf(x);
}

proof fn lemma_centered_no_nl(title: Seq<char>, tl: nat, w: nat)
    requires
        no_nl(title),
    ensures
        no_nl(centered(title, tl, w)),
{
    lemma_styles_no_nl();
}

proof fn lemma_titles_no_nl()
    ensures
        no_nl("Utilization"@),
        no_nl("Temperature"@),
        no_nl("RAM Utilization"@),
        no_nl("Swap Utilization"@),
        no_nl("GPU Utilization"@),
        no_nl("VRAM Utilization"@),
        no_nl("CPU"@),
        no_nl("Memory"@),
        no_nl("GPU: "@),
        no_nl("RAM"@),
        no_nl("SWP"@),
        no_nl("USE"@),
        no_nl("MEM"@),
        no_nl("TMP"@),
{
    reveal_strlit("Utilization");
    reveal_strlit("Temperature");
    reveal_strlit("RAM Utilization");
    reveal_strlit("Swap Utilization");
    reveal_strlit("GPU Utilization");
    reveal_strlit("VRAM Utilization");
    reveal_strlit("CPU");
    reveal_strlit("Memory");
    reveal_strlit("GPU: ");
    reveal_strlit("RAM");
    reveal_strlit("SWP");
    reveal_strlit("USE");
    reveal_strlit("MEM");
    reveal_strlit("TMP");
}

proof fn lemma_blank_columns_no_nl(widths: Seq<usize>)
    ensures
        no_nl(blank_columns(widths)),
    decreases widths.len(),
{
    lemma_styles_no_nl();
    if widths.len() > 0 {
        lemma_blank_columns_no_nl(widths.drop_last());
    }
}

proof fn lemma_separator_line(widths: Seq<usize>)
    ensures
        crlfs(separator_line(widths)) == 1,
        lead_ok(separator_line(widths)),
{
    lemma_styles_no_nl();
    lemma_blank_columns_no_nl(widths);
    lemma_plain_line(blank_columns(widths) + bar());
}

proof fn lemma_subtitle3_line(
    t1: Seq<char>,
    l1: nat,
    c1: nat,
    t2: Seq<char>,
    l2: nat,
    c2: nat,
    t3: Seq<char>,
    l3: nat,
    c3: nat,
)
    requires
        no_nl(t1),
        no_nl(t2),
        no_nl(t3),
    ensures
        crlfs(subtitle_line3(t1, l1, c1, t2, l2, c2, t3, l3, c3)) == 1,
        lead_ok(subtitle_line3(t1, l1, c1, t2, l2, c2, t3, l3, c3)),
{
    lemma_styles_no_nl();
    lemma_centered_no_nl(t1, l1, c1);
    lemma_centered_no_nl(t2, l2, c2);
    lemma_centered_no_nl(t3, l3, c3);
    lemma_plain_line(
        bar() + centered(t1, l1, c1) + bar() + centered(t2, l2, c2) + bar() + centered(t3, l3, c3)
            + bar(),
    );
}

proof fn lemma_sensor_col_pure(sensors: Seq<Sensor>, tlw: nat, tcw: nat, section: nat, i: int)
    requires
        0 <= i,
        forall|k: int| 0 <= k < sensors.len() ==> sensor_lines_ok(#[trigger] sensors[k]),
    ensures
        pure(sensor_col(sensors, tlw, tcw, section, i)),
{
    reveal(sensor_col);
    lemma_styles_no_nl();
    lemma_styles_end();
    lemma_repeat_no_nl(empty_cell(), tcw);
    let col = sensor_col(sensors, tlw, tcw, section, i);
    if sensors.len() > 0 && i < sensors.len() {
        let s = sensors[i];
        assert(sensor_lines_ok(s));
        lemma_chart_no_nl(s.reading.cells@, tcw);
        let a = " "@ + COLOR_WHITE@;
        assert(no_nl(a));
        lemma_no_nl_pure(a);
        lemma_pad_left_crlfs(s.label@, tlw);
        let pad = pad_left(s.label@, tlw);
        lemma_wrap_pure(a, pad);
        let b = COLOR_RESET@ + " "@ + chart(s.reading.cells@, tcw) + reading_text(
            opt_view(s.reading.current),
            s.reading.color@,
        ) + spaces(sat_sub(section as int, (1 + tlw + 1 + tcw + 14 + 2) as int)) + " "@ + bar();
        assert(no_nl(b));
        lemma_no_nl_pure(b);
        lemma_pure_add(a + pad, b);
        assert(col =~= (a + pad) + b);
    } else {
        assert(no_nl(col));
        lemma_no_nl_pure(col);
    }
}

proof fn lemma_core_label_no_nl(idx: nat)
    ensures
        no_nl(core_label(idx)),
{
    lemma_styles_no_nl();
    lemma_dec_no_nl(idx);
}

#[verifier::spinoff_prover]
proof fn lemma_cpu_row_line(cores: Seq<Series>, sensors: Seq<Sensor>, g: CpuGeometry, i: int)
    requires
        0 <= i,
        g.c0 + g.c1 + g.c2 == cores.len(),
        forall|k: int| 0 <= k < cores.len() ==> series_ok(#[trigger] cores[k]),
        forall|k: int| 0 <= k < sensors.len() ==> sensor_lines_ok(#[trigger] sensors[k]),
    ensures
        crlfs(cpu_row(cores, sensors, g, i)) == 1,
        lead_ok(cpu_row(cores, sensors, g, i)),
{
    reveal(first_util_col);
    reveal(later_util_col);
    lemma_styles_no_nl();
    let a = first_util_col(cores, g, i);
    let b = later_util_col(cores, g, g.c0, g.c1, g.w1, i);
    let c = if g.three {
        bar() + later_util_col(cores, g, g.c0 + g.c1, g.c2, g.w2, i)
    } else {
        seq![]
    };
    let d = sensor_col(sensors, g.tlw, g.tcw, g.temp_col + 1, i);
    assert(no_nl(a)) by {
        if i < g.c0 {
            assert(series_ok(cores[i]));
            lemma_core_label_no_nl(i as nat);
            lemma_chart_no_nl(cores[i].cells@, g.ucw);
        }
    }
    assert(no_nl(b)) by {
        if i < g.c1 {
            assert(series_ok(cores[g.c0 + i]));
            lemma_core_label_no_nl((g.c0 + i) as nat);
            lemma_chart_no_nl(cores[g.c0 + i].cells@, g.ucw);
        }
    }
    assert(no_nl(c)) by {
        if g.three && i < g.c2 {
            assert(series_ok(cores[g.c0 + g.c1 + i]));
            lemma_core_label_no_nl((g.c0 + g.c1 + i) as nat);
            lemma_chart_no_nl(cores[g.c0 + g.c1 + i].cells@, g.ucw);
        }
    }
    lemma_sensor_col_pure(sensors, g.tlw, g.tcw, g.temp_col + 1, i);
    assert(cpu_row(cores, sensors, g, i) == (a + bar() + b + c + bar() + d) + "\r\n"@);
    assert(no_nl(a + bar() + b + c + bar()));
    lemma_no_nl_pure(a + bar() + b + c + bar());
    lemma_pure_add(a + bar() + b + c + bar(), d);
    lemma_one_crlf(a + bar() + b + c + bar() + d);
}

/// The CPU section takes its rows and four lines more.
#[verifier::spinoff_prover]
proof fn lemma_cpu_section_lines(cores: Seq<Series>, sensors: Seq<Sensor>, cols: nat)
    requires
        forall|k: int| 0 <= k < cores.len() ==> series_ok(#[trigger] cores[k]),
        forall|k: int| 0 <= k < sensors.len() ==> sensor_lines_ok(#[trigger] sensors[k]),
    ensures
        crlfs(cpu_section(cores, sensors, cols)) == cpu_geometry(cores.len(), sensors, cols).row_count
            + 4,
        lead_ok(cpu_section(cores, sensors, cols)),
{
    reveal(cpu_section);
    let g = cpu_geometry(cores.len(), sensors, cols);
    lemma_cpu_rows_cover(cores.len(), sensors, cols);
    let util_span = g.w0 + g.w1 + g.w2 + (if g.three {
        2nat
    } else {
        1nat
    });
    lemma_titles_no_nl();
    lemma_styles_no_nl();
    let top = horizontal_border('╭', '╮', cols, title_text(Some("CPU")));
    let sub = subtitle_line(
        "Utilization"@,
        "Utilization".len() as nat,
        "Temperature"@,
        "Temperature".len() as nat,
        util_span,
        g.temp_col,
    );
    let rows = cpu_rows(cores, sensors, g);
    let sep = separator_line(cpu_widths(g));
    let bottom = horizontal_border('╰', '╯', cols, None);
    lemma_no_nl_pure("CPU"@);
    lemma_border_line('╭', '╮', cols, title_text(Some("CPU")));
    lemma_border_line('╰', '╯', cols, None);
    lemma_centered_no_nl("Utilization"@, "Utilization".len() as nat, util_span);
    lemma_centered_no_nl("Temperature"@, "Temperature".len() as nat, g.temp_col);
    lemma_plain_line(
        bar() + centered("Utilization"@, "Utilization".len() as nat, util_span) + bar() + centered(
            "Temperature"@,
            "Temperature".len() as nat,
            g.temp_col,
        ) + bar(),
    );
    assert(crlfs(sub) == 1 && lead_ok(sub));
    assert forall|i: int| 0 <= i < rows.len() implies crlfs(#[trigger] rows[i]) == 1 && lead_ok(rows[i]) by {
        lemma_cpu_row_line(cores, sensors, g, i);
    }
    lemma_joined_crlfs(rows);
    lemma_separator_line(cpu_widths(g));
    lemma_crlfs_add(top, sub);
    lemma_crlfs_add(top + sub, joined(rows));
    lemma_crlfs_add(top + sub + joined(rows), sep);
    lemma_crlfs_add(top + sub + joined(rows) + sep, bottom);
}

#[verifier::spinoff_prover]
proof fn lemma_mem_row_line(inp: FrameInput, g: MemGeometry, i: int)
    requires
        0 <= i,
        series_ok(inp.ram),
        series_ok(inp.swap),
        forall|k: int| 0 <= k < inp.dimms.len() ==> sensor_lines_ok(#[trigger] inp.dimms@[k]),
    ensures
        crlfs(mem_row(inp, g, i)) == 1,
        lead_ok(mem_row(inp, g, i)),
{
    reveal(ram_col);
    reveal(swap_col);
    lemma_styles_no_nl();
    lemma_titles_no_nl();
    lemma_repeat_no_nl(empty_cell(), g.mcw);
    lemma_chart_no_nl(inp.ram.cells@, g.mcw);
    lemma_chart_no_nl(inp.swap.cells@, g.mcw);
    lemma_mem_pair_no_nl(ram_used(inp.mem), inp.mem.mem_total_kb as nat, g.aw);
    lemma_mem_pair_no_nl(swap_used(inp.mem), inp.mem.swap_total_kb as nat, g.aw);
    let a = ram_col(inp.ram, inp.mem, g, i);
    let b = swap_col(inp.swap, inp.mem, g, i);
    let c = sensor_col(inp.dimms@, g.mtlw, g.mtcw, g.c3 + 1, i);
    lemma_sensor_col_pure(inp.dimms@, g.mtlw, g.mtcw, g.c3 + 1, i);
    assert(no_nl(a));
    assert(no_nl(b));
    assert(mem_row(inp, g, i) == (a + bar() + b + bar() + c) + "\r\n"@);
    assert(no_nl(a + bar() + b + bar()));
    lemma_no_nl_pure(a + bar() + b + bar());
    lemma_pure_add(a + bar() + b + bar(), c);
    lemma_one_crlf(a + bar() + b + bar() + c);
}

/// The memory section takes its rows and four lines more.
#[verifier::spinoff_prover]
proof fn lemma_mem_section_lines(inp: FrameInput, cols: nat)
    requires
        series_ok(inp.ram),
        series_ok(inp.swap),
        forall|k: int| 0 <= k < inp.dimms.len() ==> sensor_lines_ok(#[trigger] inp.dimms@[k]),
    ensures
        crlfs(mem_section(inp, cols)) == mem_row_count(inp.dimms@) + 4,
        lead_ok(mem_section(inp, cols)),
{
    reveal(mem_section);
    let g = mem_geometry(inp.mem, inp.dimms@, cols);
    lemma_titles_no_nl();
    lemma_styles_no_nl();
    let top = horizontal_border('╭', '╮', cols, title_text(Some("Memory")));
    let sub = subtitle_line3(
        "RAM Utilization"@,
        "RAM Utilization".len() as nat,
        g.c1,
        "Swap Utilization"@,
        "Swap Utilization".len() as nat,
        g.c2,
        "Temperature"@,
        "Temperature".len() as nat,
        g.c3,
    );
    let rows = Seq::new(mem_row_count(inp.dimms@), |i: int| mem_row(inp, g, i));
    let sep = separator_line(thirds_widths(g));
    let bottom = horizontal_border('╰', '╯', cols, None);
    lemma_no_nl_pure("Memory"@);
    lemma_border_line('╭', '╮', cols, title_text(Some("Memory")));
    lemma_border_line('╰', '╯', cols, None);
    lemma_subtitle3_line(
        "RAM Utilization"@,
        "RAM Utilization".len() as nat,
        g.c1,
        "Swap Utilization"@,
        "Swap Utilization".len() as nat,
        g.c2,
        "Temperature"@,
        "Temperature".len() as nat,
        g.c3,
    );
    assert forall|i: int| 0 <= i < rows.len() implies crlfs(#[trigger] rows[i]) == 1 && lead_ok(rows[i]) by {
        lemma_mem_row_line(inp, g, i);
    }
    lemma_joined_crlfs(rows);
    lemma_separator_line(thirds_widths(g));
    lemma_crlfs_add(top, sub);
    lemma_crlfs_add(top + sub, joined(rows));
    lemma_crlfs_add(top + sub + joined(rows), sep);
    lemma_crlfs_add(top + sub + joined(rows) + sep, bottom);
}

#[verifier::spinoff_prover]
proof fn lemma_gpu_row_line(p: GpuPanel, g: GpuGeometry)
    requires
        series_ok(p.util),
        series_ok(p.vram),
        reading_ok(p.temp),
    ensures
        crlfs(gpu_row(p, g)) == 1,
        lead_ok(gpu_row(p, g)),
{
    reveal(gpu_row);
    lemma_titles_no_nl();
    lemma_styles_no_nl();
    lemma_chart_no_nl(p.util.cells@, g.ucw);
    lemma_chart_no_nl(p.vram.cells@, g.mcw);
    lemma_chart_no_nl(p.temp.cells@, g.tcw);
    lemma_mem_pair_no_nl(p.mem_used_kb as nat, p.mem_total_kb as nat, g.gaw);
    let abs = pad_left(mem_pair(p.mem_used_kb as nat, p.mem_total_kb as nat), g.gaw);
    let a = gpu_util_col_first(p.util.cells@, p.util.current@, p.util.color@, g.ucw, g.c1 + 1);
    let b = gpu_mem_col_inner(
        p.vram.cells@,
        g.mcw,
        abs,
        abs.len(),
        p.vram.current@,
        p.vram.color@,
        g.c2,
    );
    let c = gpu_temp_col_right(p.temp.cells@, opt_view(p.temp.current), p.temp.color@, g.tcw, g.c3 + 1);
    assert(no_nl(a));
    assert(no_nl(b));
    assert(no_nl(c));
    assert(gpu_row(p, g) == (a + bar() + b + bar() + c) + "\r\n"@);
    lemma_plain_line(a + bar() + b + bar() + c);
}

proof fn lemma_gpu_top_line(p: GpuPanel, cols: nat)
    requires
        crlfs(p.name@) == 0,
    ensures
        crlfs(gpu_top(p, cols)) == 1,
        lead_ok(gpu_top(p, cols)),
{
    reveal(gpu_top);
    lemma_titles_no_nl();
    reveal_strlit("GPU: ");
    lemma_no_nl_pure("GPU: "@);
    lemma_wrap_pure("GPU: "@, p.name@);
    lemma_border_line('╭', '╮', cols, Some((gpu_title(p), byte_len(gpu_title(p)))));
}

/// The GPU section takes five lines.
#[verifier::spinoff_prover]
proof fn lemma_gpu_section_lines(p: GpuPanel, cols: nat)
    requires
        crlfs(p.name@) == 0,
        series_ok(p.util),
        series_ok(p.vram),
        reading_ok(p.temp),
    ensures
        crlfs(gpu_section(p, cols)) == 5,
        lead_ok(gpu_section(p, cols)),
{
    reveal(gpu_section);
    let g = gpu_geometry(p, cols);
    lemma_titles_no_nl();
    lemma_gpu_top_line(p, cols);
    lemma_gpu_row_line(p, g);
    lemma_border_line('╰', '╯', cols, None);
    lemma_subtitle3_line(
        "GPU Utilization"@,
        "GPU Utilization".len() as nat,
        g.c1,
        "VRAM Utilization"@,
        "VRAM Utilization".len() as nat,
        g.c2,
        "Temperature"@,
        "Temperature".len() as nat,
        g.c3,
    );
    let sep = separator_line(seq![g.c1 as usize, g.c2 as usize, g.c3 as usize]);
    lemma_separator_line(seq![g.c1 as usize, g.c2 as usize, g.c3 as usize]);
    let top = gpu_top(p, cols);
    let sub = subtitle_line3(
        "GPU Utilization"@,
        "GPU Utilization".len() as nat,
        g.c1,
        "VRAM Utilization"@,
        "VRAM Utilization".len() as nat,
        g.c2,
        "Temperature"@,
        "Temperature".len() as nat,
        g.c3,
    );
    let bottom = horizontal_border('╰', '╯', cols, None);
    lemma_crlfs_add(top, sub);
    lemma_crlfs_add(top + sub, gpu_row(p, g));
    lemma_crlfs_add(top + sub + gpu_row(p, g), sep);
    lemma_crlfs_add(top + sub + gpu_row(p, g) + sep, bottom);
}

/// The status bar sits on the terminal's last line: the frame starts at
/// the top of the screen, the sections take `section_lines` lines, blank
/// lines follow until `rows - 1` lines are complete, and the status bar,
/// ending no line, comes last.  Lines are counted by their `\r\n` ends.
/// When the sections alone need more lines than the terminal has, no
/// blank line is added.
#[verifier::spinoff_prover]
pub proof fn lemma_frame_lines(inp: FrameInput, cols: nat, rows: nat)
    requires
        frame_text_ok(inp),
    ensures
        crlfs(frame_text(inp, cols, rows)) == section_lines(inp, cols) + sat_sub(
            rows as int,
            (section_lines(inp, cols) + 1) as int,
        ),
        section_lines(inp, cols) + 1 <= rows ==> crlfs(frame_text(inp, cols, rows)) == rows - 1,
        frame_text(inp, cols, rows).take(3) == "\x1b[H"@,
        frame_text(inp, cols, rows).skip(frame_text(inp, cols, rows).len() - status_bar(cols).len())
            == status_bar(cols),
{
    lemma_styles_no_nl();
    reveal_strlit("q: quit  ttop v0.1");
    reveal_strlit("\x1b[K\r\n");
    reveal_strlit("\x1b[H");
    lemma_cpu_section_lines(inp.cores@, inp.temps@, cols);
    lemma_mem_section_lines(inp, cols);
    let head = "\x1b[H"@;
    let cpu = cpu_section(inp.cores@, inp.temps@, cols);
    let mem = mem_section(inp, cols);
    let gpu = gpu_part(inp.gpu, cols);
    match inp.gpu {
        Some(p) => {
            lemma_gpu_section_lines(p, cols);
        },
        None => {
            assert(gpu =~= Seq::<char>::empty());
        },
    }
    assert(crlfs(gpu) == if inp.gpu is Some {
        5nat
    } else {
        0nat
    } && lead_ok(gpu));
    let k = sat_sub(rows as int, (section_lines(inp, cols) + 1) as int);
    let fill = repeat(clear_line(), k);
    reveal_strlit("\x1b[K");
    reveal_strlit("\r\n");
    lemma_plain_line("\x1b[K"@);
    assert(clear_line() =~= "\x1b[K"@ + "\r\n"@);
    lemma_repeat_crlfs(clear_line(), k);
    let status = status_bar(cols);
    lemma_no_nl_pure(status);
    lemma_no_nl_pure(head);
    lemma_crlfs_add(head, cpu);
    lemma_crlfs_add(head + cpu, mem);
    lemma_crlfs_add(head + cpu + mem, gpu);
    lemma_crlfs_add(head + cpu + mem + gpu, fill);
    lemma_crlfs_add(head + cpu + mem + gpu + fill, status);
    let f = frame_text(inp, cols, rows);
    assert(f == head + cpu + mem + gpu + fill + status);
    assert(f.take(3) =~= head);
    assert(f.skip(f.len() - status.len()) =~= status);
}

// ---------------------------------------------------------------------
// How wide the CPU section is
// ---------------------------------------------------------------------

/// A percentage history prints as planned: its value is three plain
/// characters, and its colours take no column.
pub open spec fn series_prints(s: Series) -> bool {
    &&& cells_print(s.cells@)
    &&& plain(s.current@)
    &&& s.current@.len() == 3
    &&& shows(s.color@, 0)
}

/// A temperature history prints as planned: its reading is thirteen plain
/// characters, and its colours take no column.
pub open spec fn reading_prints(r: Reading) -> bool {
    &&& cells_print(r.cells@)
    &&& r.current matches Some(t) ==> plain(t@) && t@.len() == 13
    &&& shows(r.color@, 0)
}

/// A sensor prints as planned: a plain label and history.
pub open spec fn sensor_prints(s: Sensor) -> bool {
    plain(s.label@) && reading_prints(s.reading)
}

/// The CPU section has room: the first utilization column is wider than
/// its label and fixed parts need, and so is the temperature column.
pub open spec fn cpu_has_room(g: CpuGeometry) -> bool {
    g.w0 > g.lw + 9 && g.temp_col + 1 > g.tlw + 18
}

proof fn lemma_label_within(labels: Seq<Seq<char>>, k: int)
    requires
        0 <= k < labels.len(),
    ensures
        labels[k].len() <= sensor_label_width(labels),
        sensor_label_width(labels) >= 3,
    decreases labels.len(),
{
    lemma_chars_le_bytes(labels[k]);
    if k < labels.len() - 1 {
        lemma_label_within(labels.drop_last(), k);
    }
    lemma_label_width_min(labels);
}

proof fn lemma_label_width_min(labels: Seq<Seq<char>>)
    ensures
        sensor_label_width(labels) >= 3,
    decreases labels.len(),
{
    if labels.len() > 0 {
        lemma_label_width_min(labels.drop_last());
    }
}

proof fn lemma_core_label_prints(idx: nat, n: nat)
    requires
        idx < n,
    ensures
        plain(core_label(idx)),
        core_label(idx).len() <= 1 + dec((n - 1) as nat).len(),
{
    reveal_strlit("#");
    crate::memory::usage::lemma_dec_len_mono(idx, (n - 1) as nat);
    lemma_dec_digits(idx);
    assert forall|i: int| 0 <= i < dec(idx).len() implies #[trigger] dec(idx)[i] != '\x1b' by {
        assert(is_digit(dec(idx)[i]));
    }
}

proof fn lemma_sensor_col_shows(sensors: Seq<Sensor>, tlw: nat, tcw: nat, section: nat, i: int)
    requires
        0 <= i,
        forall|k: int| 0 <= k < sensors.len() ==> sensor_prints(#[trigger] sensors[k]),
        tlw == sensor_label_width(sensor_labels(sensors)),
        section > tlw + 18,
        tcw == section - tlw - 18,
    ensures
        shows(sensor_col(sensors, tlw, tcw, section, i), section),
{
    reveal(sensor_col);
    lemma_bar_shows();
    lemma_label_width_min(sensor_labels(sensors));
    if sensors.len() > 0 && i < sensors.len() {
        let s = sensors[i];
        assert(sensor_prints(s));
        lemma_label_within(sensor_labels(sensors), i);
        assert(sensor_labels(sensors)[i] == s.label@);
        lemma_temp_row_shows(
            s.label@,
            tlw,
            s.reading.cells@,
            opt_view(s.reading.current),
            s.reading.color@,
            tcw,
            section,
        );
    } else if sensors.len() == 0 && i == 0 {
        lemma_na_temp_row_shows(tlw, tcw, section);
    } else {
        lemma_spaces_show((section - 1) as nat);
        lemma_shows_add(spaces((section - 1) as nat), (section - 1) as nat, bar(), 1);
    }
}

#[verifier::spinoff_prover]
proof fn lemma_cpu_row_shows(cores: Seq<Series>, sensors: Seq<Sensor>, cols: nat, i: int)
    requires
        0 <= i,
        forall|k: int| 0 <= k < cores.len() ==> series_prints(#[trigger] cores[k]),
        forall|k: int| 0 <= k < sensors.len() ==> sensor_prints(#[trigger] sensors[k]),
        cpu_has_room(cpu_geometry(cores.len(), sensors, cols)),
    ensures
        line_shows(cpu_row(cores, sensors, cpu_geometry(cores.len(), sensors, cols), i), cols),
{
    let n = cores.len();
    let g = cpu_geometry(n, sensors, cols);
    reveal(cpu_geometry);
    reveal(first_util_col);
    reveal(later_util_col);
    lemma_cpu_rows_cover(n, sensors, cols);
    lemma_bar_shows();
    let ucw = g.ucw;
    assert(ucw == g.w0 - g.lw - 9);
    let a = first_util_col(cores, g, i);
    assert(shows(a, g.w0 + 1)) by {
        if i < g.c0 {
            lemma_core_label_prints(i as nat, n);
            assert(series_prints(cores[i]));
            lemma_util_row_shows(
                core_label(i as nat),
                g.lw,
                cores[i].cells@,
                cores[i].current@,
                cores[i].color@,
                ucw,
                g.w0 + 1,
            );
        } else {
            lemma_spaces_show(g.w0);
            lemma_shows_add(bar(), 1, spaces(g.w0), g.w0);
        }
    }
    let b = later_util_col(cores, g, g.c0, g.c1, g.w1, i);
    assert(shows(b, g.w1)) by {
        if i < g.c1 {
            lemma_core_label_prints((g.c0 + i) as nat, n);
            assert(series_prints(cores[g.c0 + i]));
            lemma_util_row_inner_shows(
                core_label((g.c0 + i) as nat),
                g.lw,
                cores[g.c0 + i].cells@,
                cores[g.c0 + i].current@,
                cores[g.c0 + i].color@,
                ucw,
                g.w1,
            );
        } else {
            lemma_spaces_show(g.w1);
        }
    }
    let c = if g.three {
        bar() + later_util_col(cores, g, g.c0 + g.c1, g.c2, g.w2, i)
    } else {
        seq![]
    };
    let cw: nat = if g.three {
        g.w2 + 1
    } else {
        0
    };
    assert(shows(c, cw)) by {
        if g.three {
            let cc = later_util_col(cores, g, g.c0 + g.c1, g.c2, g.w2, i);
            if i < g.c2 {
                lemma_core_label_prints((g.c0 + g.c1 + i) as nat, n);
                assert(series_prints(cores[g.c0 + g.c1 + i]));
                lemma_util_row_inner_shows(
                    core_label((g.c0 + g.c1 + i) as nat),
                    g.lw,
                    cores[g.c0 + g.c1 + i].cells@,
                    cores[g.c0 + g.c1 + i].current@,
                    cores[g.c0 + g.c1 + i].color@,
                    ucw,
                    g.w2,
                );
            } else {
                lemma_spaces_show(g.w2);
            }
            lemma_shows_add(bar(), 1, cc, g.w2);
        }
    }
    let d = sensor_col(sensors, g.tlw, g.tcw, g.temp_col + 1, i);
    lemma_sensor_col_shows(sensors, g.tlw, g.tcw, g.temp_col + 1, i);
    lemma_shows_add(a, g.w0 + 1, bar(), 1);
    lemma_shows_add(a + bar(), g.w0 + 2, b, g.w1);
    lemma_shows_add(a + bar() + b, g.w0 + 2 + g.w1, c, cw);
    lemma_shows_add(a + bar() + b + c, g.w0 + 2 + g.w1 + cw, bar(), 1);
    lemma_shows_add(a + bar() + b + c + bar(), g.w0 + 3 + g.w1 + cw, d, g.temp_col + 1);
    lemma_line_shows(a + bar() + b + c + bar() + d, cols);
}

/// Every line of the CPU section is exactly as wide as the terminal once
/// its columns have room for their labels and fixed parts: the edges, the
/// subtitle line, every row, and the blank line.
#[verifier::spinoff_prover]
pub proof fn lemma_cpu_section_width(cores: Seq<Series>, sensors: Seq<Sensor>, cols: nat)
    requires
        cols <= u16::MAX,
        forall|k: int| 0 <= k < cores.len() ==> series_prints(#[trigger] cores[k]),
        forall|k: int| 0 <= k < sensors.len() ==> sensor_prints(#[trigger] sensors[k]),
        cpu_has_room(cpu_geometry(cores.len(), sensors, cols)),
    ensures
        ({
            let g = cpu_geometry(cores.len(), sensors, cols);
            &&& line_shows(horizontal_border('╭', '╮', cols, title_text(Some("CPU"))), cols)
            &&& line_shows(
                subtitle_line(
                    "Utilization"@,
                    "Utilization".len() as nat,
                    "Temperature"@,
                    "Temperature".len() as nat,
                    g.w0 + g.w1 + g.w2 + (if g.three {
                        2nat
                    } else {
                        1nat
                    }),
                    g.temp_col,
                ),
                cols,
            )
            &&& forall|i: int| 0 <= i < g.row_count ==> line_shows(#[trigger] cpu_rows(cores, sensors, g)[i], cols)
            &&& line_shows(separator_line(cpu_widths(g)), cols)
            &&& line_shows(horizontal_border('╰', '╯', cols, None), cols)
        }),
{
    let n = cores.len();
    let g = cpu_geometry(n, sensors, cols);
    reveal(cpu_geometry);
    lemma_literals_show();
    lemma_bar_shows();
    reveal_strlit("CPU");
    reveal_strlit("Utilization");
    reveal_strlit("Temperature");
    lemma_ascii_len("CPU");
    lemma_ascii_len("Utilization");
    lemma_ascii_len("Temperature");
    lemma_border_shows('╭', '╮', cols, title_text(Some("CPU")));
    lemma_border_shows('╰', '╯', cols, None);
    let span = g.w0 + g.w1 + g.w2 + (if g.three {
        2nat
    } else {
        1nat
    });
    lemma_centered_shows("Utilization"@, 11, span);
    lemma_centered_shows("Temperature"@, 11, g.temp_col);
    let x = bar() + centered("Utilization"@, 11, span) + bar() + centered("Temperature"@, 11, g.temp_col)
        + bar();
    lemma_shows_add(bar(), 1, centered("Utilization"@, 11, span), span);
    lemma_shows_add(bar() + centered("Utilization"@, 11, span), 1 + span, bar(), 1);
    lemma_shows_add(
        bar() + centered("Utilization"@, 11, span) + bar(),
        2 + span,
        centered("Temperature"@, 11, g.temp_col),
        g.temp_col,
    );
    lemma_shows_add(
        bar() + centered("Utilization"@, 11, span) + bar() + centered("Temperature"@, 11, g.temp_col),
        2 + span + g.temp_col,
        bar(),
        1,
    );
    lemma_line_shows(x, cols);
    assert forall|i: int| 0 <= i < g.row_count implies line_shows(
        #[trigger] cpu_rows(cores, sensors, g)[i],
        cols,
    ) by {
        lemma_cpu_row_shows(cores, sensors, cols, i);
    }
    lemma_separator_shows(cpu_widths(g));
    lemma_cpu_blank_width(n, sensors, cols);
}

proof fn lemma_cpu_blank_width(n: nat, sensors: Seq<Sensor>, cols: nat)
    requires
        cols <= u16::MAX,
        cpu_has_room(cpu_geometry(n, sensors, cols)),
    ensures
        blank_width(cpu_widths(cpu_geometry(n, sensors, cols))) + 1 == cols,
{
    let g = cpu_geometry(n, sensors, cols);
    reveal(cpu_geometry);
    let split = core_split(n as int);
    let available = sat_sub(cols as int, (split.len() + 2) as int);
    let util_total = available * 2 / 3;
    assert(split.len() == 2 || split.len() == 3);
    assert(available > 0);
    assert(available == cols - (split.len() + 2));
    assert(g.w0 + g.w1 + g.w2 == util_total);
    assert(g.temp_col == available - util_total);
    assert(g.w0 <= 65535 && g.w1 <= 65535 && g.w2 <= 65535 && g.temp_col <= 65535);
    assert((g.w0 as usize) as nat == g.w0);
    assert((g.w1 as usize) as nat == g.w1);
    assert((g.w2 as usize) as nat == g.w2);
    assert((g.temp_col as usize) as nat == g.temp_col);
    let w = cpu_widths(g);
    if g.three {
        let w1 = seq![g.w0 as usize];
        let w2 = seq![g.w0 as usize, g.w1 as usize];
        let w3 = seq![g.w0 as usize, g.w1 as usize, g.w2 as usize];
        assert(w1.drop_last() =~= Seq::<usize>::empty());
        assert(blank_width(w1.drop_last()) == 0);
        assert(w1.last() == g.w0 as usize);
        assert(w2.drop_last() =~= w1);
        assert(w3.drop_last() =~= w2);
        assert(w.drop_last() =~= w3);
        assert(blank_width(w1) == g.w0 + 1);
        assert(blank_width(w2) == g.w0 + g.w1 + 2);
        assert(blank_width(w3) == g.w0 + g.w1 + g.w2 + 3);
        assert(blank_width(w) == g.w0 + g.w1 + g.w2 + g.temp_col + 4);
    } else {
        let w1 = seq![g.w0 as usize];
        let w2 = seq![g.w0 as usize, g.w1 as usize];
        assert(w1.drop_last() =~= Seq::<usize>::empty());
        assert(blank_width(w1.drop_last()) == 0);
        assert(w1.last() == g.w0 as usize);
        assert(w2.drop_last() =~= w1);
        assert(w.drop_last() =~= w2);
        assert(blank_width(w1) == g.w0 + 1);
        assert(blank_width(w2) == g.w0 + g.w1 + 2);
        assert(blank_width(w) == g.w0 + g.w1 + g.temp_col + 3);
    }
}

// ---------------------------------------------------------------------
// How wide the memory and GPU sections are
// ---------------------------------------------------------------------

/// The three columns and their four borders fill the terminal.
proof fn lemma_thirds_fill(cols: nat)
    requires
        cols >= 4,
    ensures
        third(cols) + third(cols) + last_third(cols) + 4 == cols,
{
}

/// A three-column subtitle line whose titles fit their columns takes the
/// columns and four borders.
proof fn lemma_subtitle3_shows(
    t1: Seq<char>,
    l1: nat,
    c1: nat,
    t2: Seq<char>,
    l2: nat,
    c2: nat,
    t3: Seq<char>,
    l3: nat,
    c3: nat,
)
    requires
        plain(t1) && t1.len() == l1 && c1 >= l1,
        plain(t2) && t2.len() == l2 && c2 >= l2,
        plain(t3) && t3.len() == l3 && c3 >= l3,
    ensures
        line_shows(subtitle_line3(t1, l1, c1, t2, l2, c2, t3, l3, c3), c1 + c2 + c3 + 4),
{
    lemma_bar_shows();
    lemma_centered_shows(t1, l1, c1);
    lemma_centered_shows(t2, l2, c2);
    lemma_centered_shows(t3, l3, c3);
    let a = bar() + centered(t1, l1, c1);
    lemma_shows_add(bar(), 1, centered(t1, l1, c1), c1);
    lemma_shows_add(a, 1 + c1, bar(), 1);
    lemma_shows_add(a + bar(), 2 + c1, centered(t2, l2, c2), c2);
    let b = a + bar() + centered(t2, l2, c2);
    lemma_shows_add(b, 2 + c1 + c2, bar(), 1);
    lemma_shows_add(b + bar(), 3 + c1 + c2, centered(t3, l3, c3), c3);
    lemma_shows_add(b + bar() + centered(t3, l3, c3), 3 + c1 + c2 + c3, bar(), 1);
    lemma_line_shows(b + bar() + centered(t3, l3, c3) + bar(), c1 + c2 + c3 + 4);
}

/// The blank line under three columns takes the columns and four borders.
proof fn lemma_thirds_separator_shows(c1: nat, c2: nat, c3: nat)
    requires
        c1 <= 65535 && c2 <= 65535 && c3 <= 65535,
    ensures
        line_shows(separator_line(seq![c1 as usize, c2 as usize, c3 as usize]), c1 + c2 + c3 + 4),
{
    let w = seq![c1 as usize, c2 as usize, c3 as usize];
    let w1 = seq![c1 as usize];
    let w2 = seq![c1 as usize, c2 as usize];
    assert(w1.drop_last() =~= Seq::<usize>::empty());
    assert(blank_width(w1.drop_last()) == 0);
    assert(w1.last() == c1 as usize);
    assert(w2.drop_last() =~= w1);
    assert(w.drop_last() =~= w2);
    assert(blank_width(w1) == c1 + 1);
    assert(blank_width(w2) == c1 + c2 + 2);
    assert(blank_width(w) == c1 + c2 + c3 + 3);
    lemma_separator_shows(w);
}

/// The memory section has room: its columns are wide enough for their
/// titles, and for the labels, amounts and fixed parts of their rows.
pub open spec fn mem_has_room(mem: MemInfo, dimms: Seq<Sensor>, cols: nat) -> bool {
    &&& third(cols) >= 16
    &&& third(cols) > mem_abs(mem) + 12
    &&& last_third(cols) + 1 > sensor_label_width(sensor_labels(dimms)) + 18
}

/// The RAM or swap amounts of the first memory row are padded to the
/// widest text of either.
proof fn lemma_mem_abs_fits(used_kb: nat, total_kb: nat, aw: nat)
    requires
        used_kb <= total_kb,
        aw >= max_pair_width(total_kb),
    ensures
        plain(pad_left(mem_pair(used_kb, total_kb), aw)),
        pad_left(mem_pair(used_kb, total_kb), aw).len() == aw,
{
    lemma_max_pair_width(total_kb);
    assert(mem_pair(used_kb, total_kb).len() <= max_pair_width(total_kb));
    lemma_mem_pair_plain(used_kb, total_kb);
    lemma_pad_left_plain(mem_pair(used_kb, total_kb), aw);
}

#[verifier::spinoff_prover]
proof fn lemma_mem_row_shows(inp: FrameInput, cols: nat, i: int)
    requires
        0 <= i,
        series_prints(inp.ram),
        series_prints(inp.swap),
        forall|k: int| 0 <= k < inp.dimms@.len() ==> sensor_prints(#[trigger] inp.dimms@[k]),
        mem_has_room(inp.mem, inp.dimms@, cols),
    ensures
        line_shows(mem_row(inp, mem_geometry(inp.mem, inp.dimms@, cols), i), cols),
{
    let mem = inp.mem;
    let g = mem_geometry(mem, inp.dimms@, cols);
    reveal(mem_geometry);
    reveal(ram_col);
    reveal(swap_col);
    lemma_bar_shows();
    lemma_literals_show();
    lemma_thirds_fill(cols);
    reveal_strlit("RAM");
    reveal_strlit("SWP");
    let ra = pad_left(mem_pair(ram_used(mem), mem.mem_total_kb as nat), g.aw);
    let sa = pad_left(mem_pair(swap_used(mem), mem.swap_total_kb as nat), g.aw);
    lemma_mem_abs_fits(ram_used(mem), mem.mem_total_kb as nat, g.aw);
    lemma_mem_abs_fits(swap_used(mem), mem.swap_total_kb as nat, g.aw);
    assert(g.mcw == g.c1 - g.aw - 12);
    let a = ram_col(inp.ram, mem, g, i);
    assert(shows(a, g.c1 + 1)) by {
        if i == 0 {
            lemma_mem_body_shows(
                "RAM"@,
                inp.ram.cells@,
                g.mcw,
                ra,
                inp.ram.current@,
                inp.ram.color@,
                false,
            );
            let body = mem_body("RAM"@, inp.ram.cells@, g.mcw, ra, inp.ram.current@, inp.ram.color@, false);
            lemma_spaces_show(0);
            lemma_shows_add(bar(), 1, " "@, 1);
            lemma_shows_add(bar() + " "@, 2, body, g.mcw + g.aw + 11);
            lemma_shows_add(bar() + " "@ + body, g.c1 + 1, spaces(0), 0);
        } else {
            lemma_spaces_show(g.c1);
            lemma_shows_add(bar(), 1, spaces(g.c1), g.c1);
        }
    }
    let b = swap_col(inp.swap, mem, g, i);
    assert(shows(b, g.c2)) by {
        if i == 0 {
            let dim = !(mem.swap_total_kb > 0);
            lemma_mem_body_shows(
                "SWP"@,
                inp.swap.cells@,
                g.mcw,
                sa,
                inp.swap.current@,
                inp.swap.color@,
                dim,
            );
            let body = mem_body("SWP"@, inp.swap.cells@, g.mcw, sa, inp.swap.current@, inp.swap.color@, dim);
            lemma_spaces_show(0);
            lemma_shows_add(" "@, 1, body, g.mcw + g.aw + 11);
            lemma_shows_add(" "@ + body, g.c2, spaces(0), 0);
        } else {
            lemma_spaces_show(g.c2);
        }
    }
    let d = sensor_col(inp.dimms@, g.mtlw, g.mtcw, g.c3 + 1, i);
    lemma_sensor_col_shows(inp.dimms@, g.mtlw, g.mtcw, g.c3 + 1, i);
    lemma_shows_add(a, g.c1 + 1, bar(), 1);
    lemma_shows_add(a + bar(), g.c1 + 2, b, g.c2);
    lemma_shows_add(a + bar() + b, g.c1 + g.c2 + 2, bar(), 1);
    lemma_shows_add(a + bar() + b + bar(), g.c1 + g.c2 + 3, d, g.c3 + 1);
    lemma_line_shows(a + bar() + b + bar() + d, cols);
}

/// Every line of the memory section is exactly as wide as the terminal
/// once its columns have room for their titles, labels, amounts and fixed
/// parts: the edges, the subtitle line, every row, and the blank line.
#[verifier::spinoff_prover]
pub proof fn lemma_mem_section_width(inp: FrameInput, cols: nat)
    requires
        cols <= u16::MAX,
        series_prints(inp.ram),
        series_prints(inp.swap),
        forall|k: int| 0 <= k < inp.dimms@.len() ==> sensor_prints(#[trigger] inp.dimms@[k]),
        mem_has_room(inp.mem, inp.dimms@, cols),
    ensures
        ({
            let g = mem_geometry(inp.mem, inp.dimms@, cols);
            &&& line_shows(horizontal_border('╭', '╮', cols, title_text(Some("Memory"))), cols)
            &&& line_shows(
                subtitle_line3(
                    "RAM Utilization"@,
                    "RAM Utilization".len() as nat,
                    g.c1,
                    "Swap Utilization"@,
                    "Swap Utilization".len() as nat,
                    g.c2,
                    "Temperature"@,
                    "Temperature".len() as nat,
                    g.c3,
                ),
                cols,
            )
            &&& forall|i: int| 0 <= i < mem_row_count(inp.dimms@) ==> line_shows(#[trigger] mem_row(inp, g, i), cols)
            &&& line_shows(separator_line(thirds_widths(g)), cols)
            &&& line_shows(horizontal_border('╰', '╯', cols, None), cols)
        }),
{
    let g = mem_geometry(inp.mem, inp.dimms@, cols);
    reveal(mem_geometry);
    lemma_thirds_fill(cols);
    reveal_strlit("Memory");
    reveal_strlit("RAM Utilization");
    reveal_strlit("Swap Utilization");
    reveal_strlit("Temperature");
    lemma_ascii_len("Memory");
    lemma_ascii_len("RAM Utilization");
    lemma_ascii_len("Swap Utilization");
    lemma_ascii_len("Temperature");
    lemma_border_shows('╭', '╮', cols, title_text(Some("Memory")));
    lemma_border_shows('╰', '╯', cols, None);
    lemma_subtitle3_shows(
        "RAM Utilization"@,
        "RAM Utilization".len() as nat,
        g.c1,
        "Swap Utilization"@,
        "Swap Utilization".len() as nat,
        g.c2,
        "Temperature"@,
        "Temperature".len() as nat,
        g.c3,
    );
    assert forall|i: int| 0 <= i < mem_row_count(inp.dimms@) implies line_shows(
        #[trigger] mem_row(inp, g, i),
        cols,
    ) by {
        lemma_mem_row_shows(inp, cols, i);
    }
    lemma_thirds_separator_shows(g.c1, g.c2, g.c3);
}

/// A GPU panel prints as planned: its histories print as planned, its name
/// is plain ASCII text, and the VRAM in use is within the total.
pub open spec fn gpu_prints(p: GpuPanel) -> bool {
    &&& series_prints(p.util)
    &&& series_prints(p.vram)
    &&& reading_prints(p.temp)
    &&& plain(p.name@)
    &&& is_ascii_chars(p.name@)
    &&& p.mem_used_kb <= p.mem_total_kb
}

/// The GPU section has room: the top edge for the GPU's name, and the
/// columns for their titles, labels, amounts and fixed parts.
pub open spec fn gpu_has_room(p: GpuPanel, cols: nat) -> bool {
    &&& cols >= p.name@.len() + 10
    &&& third(cols) >= 16
    &&& third(cols) > max_pair_width(p.mem_total_kb as nat) + 12
    &&& last_third(cols) >= 21
}

/// Every line of the GPU section is exactly as wide as the terminal once
/// it has room for the GPU's name and its columns have room for their
/// titles, labels, amounts and fixed parts.
#[verifier::spinoff_prover]
pub proof fn lemma_gpu_section_width(p: GpuPanel, cols: nat)
    requires
        cols <= u16::MAX,
        gpu_prints(p),
        gpu_has_room(p, cols),
    ensures
        ({
            let g = gpu_geometry(p, cols);
            &&& line_shows(gpu_top(p, cols), cols)
            &&& line_shows(
                subtitle_line3(
                    "GPU Utilization"@,
                    "GPU Utilization".len() as nat,
                    g.c1,
                    "VRAM Utilization"@,
                    "VRAM Utilization".len() as nat,
                    g.c2,
                    "Temperature"@,
                    "Temperature".len() as nat,
                    g.c3,
                ),
                cols,
            )
            &&& line_shows(gpu_row(p, g), cols)
            &&& line_shows(separator_line(seq![g.c1 as usize, g.c2 as usize, g.c3 as usize]), cols)
            &&& line_shows(horizontal_border('╰', '╯', cols, None), cols)
        }),
{
    let g = gpu_geometry(p, cols);
    lemma_thirds_fill(cols);
    lemma_bar_shows();
    reveal_strlit("GPU: ");
    reveal_strlit("GPU Utilization");
    reveal_strlit("VRAM Utilization");
    reveal_strlit("Temperature");
    lemma_ascii_len("GPU Utilization");
    lemma_ascii_len("VRAM Utilization");
    lemma_ascii_len("Temperature");
    let t = gpu_title(p);
    assert(plain(t)) by {
        assert forall|i: int| 0 <= i < t.len() implies #[trigger] t[i] != '\x1b' by {
            if i >= 5 {
                assert(t[i] == p.name@[i - 5]);
            }
        }
    }
    assert(is_ascii_chars(t)) by {
        assert forall|i: int| 0 <= i < t.len() implies '\0' <= #[trigger] t[i] <= '\u{7f}' by {
            if i >= 5 {
                assert(t[i] == p.name@[i - 5]);
            }
        }
    }
    vstd::utf8::is_ascii_chars_encode_utf8(t);
    assert(byte_len(t) == t.len());
    reveal(gpu_top);
    lemma_border_shows('╭', '╮', cols, Some((t, byte_len(t))));
    lemma_border_shows('╰', '╯', cols, None);
    lemma_subtitle3_shows(
        "GPU Utilization"@,
        "GPU Utilization".len() as nat,
        g.c1,
        "VRAM Utilization"@,
        "VRAM Utilization".len() as nat,
        g.c2,
        "Temperature"@,
        "Temperature".len() as nat,
        g.c3,
    );
    lemma_thirds_separator_shows(g.c1, g.c2, g.c3);
    reveal(gpu_row);
    let abs = pad_left(mem_pair(p.mem_used_kb as nat, p.mem_total_kb as nat), g.gaw);
    lemma_mem_abs_fits(p.mem_used_kb as nat, p.mem_total_kb as nat, g.gaw);
    let a = gpu_util_col_first(p.util.cells@, p.util.current@, p.util.color@, g.ucw, g.c1 + 1);
    lemma_gpu_util_first_shows(p.util.cells@, p.util.current@, p.util.color@, g.ucw, g.c1 + 1);
    let b = gpu_mem_col_inner(p.vram.cells@, g.mcw, abs, abs.len(), p.vram.current@, p.vram.color@, g.c2);
    lemma_gpu_mem_inner_shows(p.vram.cells@, g.mcw, abs, p.vram.current@, p.vram.color@, g.c2);
    let c = gpu_temp_col_right(p.temp.cells@, opt_view(p.temp.current), p.temp.color@, g.tcw, g.c3 + 1);
    lemma_gpu_temp_right_shows(p.temp.cells@, opt_view(p.temp.current), p.temp.color@, g.tcw, g.c3 + 1);
    lemma_shows_add(a, g.c1 + 1, bar(), 1);
    lemma_shows_add(a + bar(), g.c1 + 2, b, g.c2);
    lemma_shows_add(a + bar() + b, g.c1 + g.c2 + 2, bar(), 1);
    lemma_shows_add(a + bar() + b + bar(), g.c1 + g.c2 + 3, c, g.c3 + 1);
    lemma_line_shows(a + bar() + b + bar() + c, cols);
}

/// The status bar sits at the right edge: it takes exactly the terminal's
/// width and ends with the status text, once the terminal is wide enough
/// for that text.
pub proof fn lemma_status_bar_right_aligned(cols: nat)
    requires
        cols >= 18,
    ensures
        shows(status_bar(cols), cols),
        status_bar(cols).subrange(
            status_bar(cols).len() - status_text()@.len() - COLOR_RESET@.len(),
            status_bar(cols).len() as int,
        ) == status_text()@ + COLOR_RESET@,
{
    reveal_strlit("q: quit  ttop v0.1");
    lemma_ascii_len("q: quit  ttop v0.1");
    crate::ui::width::lemma_colors_show_nothing();
    let t = status_text()@;
    lemma_plain_shows(t);
    let pad = sat_sub(cols as int, status_text().len() as int);
    lemma_spaces_show(pad);
    lemma_shows_add(spaces(pad), pad, COLOR_DIM_GRAY@, 0);
    lemma_shows_add(spaces(pad) + COLOR_DIM_GRAY@, pad, t, 18);
    lemma_shows_add(spaces(pad) + COLOR_DIM_GRAY@ + t, pad + 18, COLOR_RESET@, 0);
    let b = status_bar(cols);
    assert(b.subrange(b.len() - t.len() - COLOR_RESET@.len(), b.len() as int) =~= t + COLOR_RESET@);
}

// ---------------------------------------------------------------------
// When the GPU section shows
// ---------------------------------------------------------------------

/// A percentage history's texts hold no `x`.
pub open spec fn series_lacks(s: Series, x: char) -> bool {
    cells_lack(s.cells@, x) && lacks(s.current@, x) && lacks(s.color@, x)
}

/// A temperature history's texts hold no `x`.
pub open spec fn reading_lacks(r: Reading, x: char) -> bool {
    &&& cells_lack(r.cells@, x)
    &&& r.current matches Some(t) ==> lacks(t@, x)
    &&& lacks(r.color@, x)
}

/// A sensor's label holds no `w`, and its history's texts not the
/// first letter of `w`.
pub open spec fn sensor_shows_no(s: Sensor, w: Seq<char>) -> bool {
    !contains(s.label@, w) && reading_lacks(s.reading, w[0])
}

/// Nothing the CPU and memory sections show holds `w`: the sensor labels
/// hold no `w`, and the printed values, colours and glyphs, which the
/// program makes, not its first letter.
pub open spec fn sections_show_no(inp: FrameInput, w: Seq<char>) -> bool {
    &&& forall|i: int| 0 <= i < inp.cores.len() ==> series_lacks(#[trigger] inp.cores@[i], w[0])
    &&& forall|i: int| 0 <= i < inp.temps.len() ==> sensor_shows_no(#[trigger] inp.temps@[i], w)
    &&& forall|i: int| 0 <= i < inp.dimms.len() ==> sensor_shows_no(#[trigger] inp.dimms@[i], w)
    &&& series_lacks(inp.ram, w[0])
    &&& series_lacks(inp.swap, w[0])
}

proof fn lemma_joined_safe(rows: Seq<Seq<char>>, w: Seq<char>)
    requires
        w.len() > 0,
        forall|i: int| 0 <= i < rows.len() ==> safe(#[trigger] rows[i], w),
    ensures
        safe(joined(rows), w),
    decreases rows.len(),
{
    if rows.len() == 0 {
        lemma_lacks_safe(joined(rows), w);
    } else {
        assert(safe(rows[rows.len() - 1], w));
        lemma_joined_safe(rows.drop_last(), w);
        lemma_safe_add(joined(rows.drop_last()), rows.last(), w);
    }
}

proof fn lemma_border_lacks(left: char, right: char, width: nat, title: Option<(Seq<char>, nat)>, x: char)
    requires
        x == 'G' || x == 'V',
        left != x,
        right != x,
        title matches Some((t, tl)) ==> lacks(t, x),
    ensures
        lacks(horizontal_border(left, right, width, title), x),
{
    lemma_styles_lack(x);
}

proof fn lemma_sensor_col_safe(
    sensors: Seq<Sensor>,
    tlw: nat,
    tcw: nat,
    section: nat,
    i: int,
    w: Seq<char>,
)
    requires
        gpu_word(w),
        0 <= i,
        forall|k: int| 0 <= k < sensors.len() ==> sensor_shows_no(#[trigger] sensors[k], w),
    ensures
        safe(sensor_col(sensors, tlw, tcw, section, i), w),
{
    lemma_gpu_word(w);
    let x = w[0];
    reveal(sensor_col);
    lemma_styles_lack(x);
    lemma_repeat_lacks(empty_cell(), tcw, x);
    let col = sensor_col(sensors, tlw, tcw, section, i);
    if sensors.len() > 0 && i < sensors.len() {
        let s = sensors[i];
        assert(sensor_shows_no(s, w));
        lemma_chart_lacks(s.reading.cells@, tcw, x);
        let a = " "@ + COLOR_WHITE@;
        lemma_lacks_safe(a, w);
        lemma_pad_contains(s.label@, tlw, w);
        let q = COLOR_RESET@ + " "@ + chart(s.reading.cells@, tcw) + reading_text(
            opt_view(s.reading.current),
            s.reading.color@,
        ) + spaces(sat_sub(section as int, (1 + tlw + 1 + tcw + 14 + 2) as int)) + " "@ + bar();
        assert(lacks(q, x));
        lemma_lacks_safe(q, w);
        assert(q[0] == COLOR_RESET@[0]);
        lemma_wrap_safe(a, pad_left(s.label@, tlw), q, w);
        assert(col =~= a + pad_left(s.label@, tlw) + q);
    } else {
        assert(lacks(col, x));
        lemma_lacks_safe(col, w);
    }
}

#[verifier::spinoff_prover]
proof fn lemma_util_col_lacks(cores: Seq<Series>, g: CpuGeometry, i: int, x: char)
    requires
        x == 'G' || x == 'V',
        0 <= i,
        g.c0 + g.c1 + g.c2 == cores.len(),
        forall|k: int| 0 <= k < cores.len() ==> series_lacks(#[trigger] cores[k], x),
    ensures
        lacks(first_util_col(cores, g, i), x),
        lacks(later_util_col(cores, g, g.c0, g.c1, g.w1, i), x),
        lacks(later_util_col(cores, g, g.c0 + g.c1, g.c2, g.w2, i), x),
{
    lemma_styles_lack(x);
    assert(lacks(first_util_col(cores, g, i), x)) by {
        reveal(first_util_col);
        if i < g.c0 {
            assert(series_lacks(cores[i], x));
            lemma_dec_lacks(i as nat, x);
            lemma_chart_lacks(cores[i].cells@, g.ucw, x);
        }
    }
    assert(lacks(later_util_col(cores, g, g.c0, g.c1, g.w1, i), x)) by {
        reveal(later_util_col);
        if i < g.c1 {
            assert(series_lacks(cores[g.c0 + i], x));
            lemma_dec_lacks((g.c0 + i) as nat, x);
            lemma_chart_lacks(cores[g.c0 + i].cells@, g.ucw, x);
        }
    }
    assert(lacks(later_util_col(cores, g, g.c0 + g.c1, g.c2, g.w2, i), x)) by {
        reveal(later_util_col);
        if i < g.c2 {
            assert(series_lacks(cores[g.c0 + g.c1 + i], x));
            lemma_dec_lacks((g.c0 + g.c1 + i) as nat, x);
            lemma_chart_lacks(cores[g.c0 + g.c1 + i].cells@, g.ucw, x);
        }
    }
}

#[verifier::spinoff_prover]
proof fn lemma_cpu_section_safe(cores: Seq<Series>, sensors: Seq<Sensor>, cols: nat, w: Seq<char>)
    requires
        gpu_word(w),
        forall|k: int| 0 <= k < cores.len() ==> series_lacks(#[trigger] cores[k], w[0]),
        forall|k: int| 0 <= k < sensors.len() ==> sensor_shows_no(#[trigger] sensors[k], w),
    ensures
        safe(cpu_section(cores, sensors, cols), w),
{
    lemma_gpu_word(w);
    let x = w[0];
    reveal(cpu_section);
    let g = cpu_geometry(cores.len(), sensors, cols);
    lemma_cpu_rows_cover(cores.len(), sensors, cols);
    lemma_styles_lack(x);
    let util_span = g.w0 + g.w1 + g.w2 + (if g.three {
        2nat
    } else {
        1nat
    });
    let top = horizontal_border('╭', '╮', cols, title_text(Some("CPU")));
    let sub = subtitle_line(
        "Utilization"@,
        "Utilization".len() as nat,
        "Temperature"@,
        "Temperature".len() as nat,
        util_span,
        g.temp_col,
    );
    let rows = cpu_rows(cores, sensors, g);
    let sep = separator_line(cpu_widths(g));
    let bottom = horizontal_border('╰', '╯', cols, None);
    lemma_border_lacks('╭', '╮', cols, title_text(Some("CPU")), x);
    lemma_border_lacks('╰', '╯', cols, None, x);
    assert(lacks(sub, x));
    assert(lacks(sep, x)) by {
        lemma_blank_lacks(cpu_widths(g), x);
    }
    assert forall|i: int| 0 <= i < rows.len() implies safe(#[trigger] rows[i], w) by {
        lemma_util_col_lacks(cores, g, i, x);
        lemma_sensor_col_safe(sensors, g.tlw, g.tcw, g.temp_col + 1, i, w);
        let a = first_util_col(cores, g, i) + bar() + later_util_col(cores, g, g.c0, g.c1, g.w1, i) + (if g.three {
            bar() + later_util_col(cores, g, g.c0 + g.c1, g.c2, g.w2, i)
        } else {
            seq![]
        }) + bar();
        assert(lacks(a, x));
        lemma_lacks_safe(a, w);
        let d = sensor_col(sensors, g.tlw, g.tcw, g.temp_col + 1, i);
        lemma_safe_add(a, d, w);
        lemma_lacks_safe("\r\n"@, w);
        lemma_safe_add(a + d, "\r\n"@, w);
        assert(rows[i] == a + d + "\r\n"@);
    }
    lemma_joined_safe(rows, w);
    lemma_lacks_safe(top, w);
    lemma_lacks_safe(sub, w);
    lemma_lacks_safe(sep, w);
    lemma_lacks_safe(bottom, w);
    lemma_safe_add(top, sub, w);
    lemma_safe_add(top + sub, joined(rows), w);
    lemma_safe_add(top + sub + joined(rows), sep, w);
    lemma_safe_add(top + sub + joined(rows) + sep, bottom, w);
}

proof fn lemma_blank_lacks(widths: Seq<usize>, x: char)
    requires
        x == 'G' || x == 'V',
    ensures
        lacks(blank_columns(widths), x),
        lacks(separator_line(widths), x),
    decreases widths.len(),
{
    lemma_styles_lack(x);
    if widths.len() > 0 {
        lemma_blank_lacks(widths.drop_last(), x);
    }
}

/// A memory column's body shows no such word when its label and texts
/// lack the word's first letter: its only `G` can be in the amounts.
#[verifier::spinoff_prover]
#[verifier::rlimit(60)]
proof fn lemma_mem_body_safe(
    label: Seq<char>,
    cells: Seq<Cell>,
    cw: nat,
    abs: Seq<char>,
    current: Seq<char>,
    color: Seq<char>,
    dim: bool,
    w: Seq<char>,
)
    requires
        gpu_word(w),
        lacks(label, w[0]),
        cells_lack(cells, w[0]),
        safe(abs, w),
        lacks(current, w[0]),
        lacks(color, w[0]),
    ensures
        safe(mem_body(label, cells, cw, abs, current, color, dim), w),
{
    lemma_gpu_word(w);
    let x = w[0];
    lemma_styles_lack(x);
    lemma_chart_lacks(cells, cw, x);
    lemma_repeat_lacks(empty_cell(), cw, x);
    let c = if dim {
        COLOR_DIM_GRAY@
    } else {
        color
    };
    let ch = if dim {
        repeat(empty_cell(), cw)
    } else {
        chart(cells, cw)
    };
    assert(lacks(ch, x));
    assert(lacks(c, x));
    assert(lacks(pad_right(label, 3), x));
    let p1 = COLOR_WHITE@ + pad_right(label, 3) + COLOR_RESET@ + " "@;
    assert(lacks(p1, x));
    let p = p1 + ch + " "@ + c;
    assert(lacks(p, x));
    let q = COLOR_RESET@ + "  "@ + c + current + "%"@ + COLOR_RESET@;
    assert(lacks(q, x));
    lemma_lacks_safe(p, w);
    lemma_lacks_safe(q, w);
    lemma_safe_add(p, abs, w);
    lemma_safe_add(p + abs, q, w);
    assert(crate::ui::sparkline::amount_pct_text(abs, current, c) =~= " "@ + c + abs + q);
    assert(mem_body(label, cells, cw, abs, current, color, dim) =~= p + abs + q);
}

#[verifier::spinoff_prover]
proof fn lemma_mem_section_safe(inp: FrameInput, cols: nat, w: Seq<char>)
    requires
        gpu_word(w),
        sections_show_no(inp, w),
    ensures
        safe(mem_section(inp, cols), w),
{
    lemma_gpu_word(w);
    let x = w[0];
    reveal(mem_section);
    reveal(ram_col);
    reveal(swap_col);
    let g = mem_geometry(inp.mem, inp.dimms@, cols);
    lemma_styles_lack(x);
    let top = horizontal_border('╭', '╮', cols, title_text(Some("Memory")));
    let sub = subtitle_line3(
        "RAM Utilization"@,
        "RAM Utilization".len() as nat,
        g.c1,
        "Swap Utilization"@,
        "Swap Utilization".len() as nat,
        g.c2,
        "Temperature"@,
        "Temperature".len() as nat,
        g.c3,
    );
    let rows = Seq::new(mem_row_count(inp.dimms@), |i: int| mem_row(inp, g, i));
    let sep = separator_line(thirds_widths(g));
    let bottom = horizontal_border('╰', '╯', cols, None);
    lemma_border_lacks('╭', '╮', cols, title_text(Some("Memory")), x);
    lemma_border_lacks('╰', '╯', cols, None, x);
    assert(lacks(sub, x));
    lemma_blank_lacks(thirds_widths(g), x);
    let ra = pad_left(mem_pair(ram_used(inp.mem), inp.mem.mem_total_kb as nat), g.aw);
    let sa = pad_left(mem_pair(swap_used(inp.mem), inp.mem.swap_total_kb as nat), g.aw);
    lemma_mem_pair_safe(ram_used(inp.mem), inp.mem.mem_total_kb as nat, g.aw, w);
    lemma_mem_pair_safe(swap_used(inp.mem), inp.mem.swap_total_kb as nat, g.aw, w);
    lemma_mem_body_safe(
        "RAM"@,
        inp.ram.cells@,
        g.mcw,
        ra,
        inp.ram.current@,
        inp.ram.color@,
        false,
        w,
    );
    lemma_mem_body_safe(
        "SWP"@,
        inp.swap.cells@,
        g.mcw,
        sa,
        inp.swap.current@,
        inp.swap.color@,
        !(inp.mem.swap_total_kb > 0),
        w,
    );
    assert forall|i: int| 0 <= i < rows.len() implies safe(#[trigger] rows[i], w) by {
        let a = ram_col(inp.ram, inp.mem, g, i);
        let b = swap_col(inp.swap, inp.mem, g, i);
        let head = " "@;
        assert(safe(a, w)) by {
            if i == 0 {
                let body = mem_body("RAM"@, inp.ram.cells@, g.mcw, ra, inp.ram.current@, inp.ram.color@, false);
                let pad = spaces(sat_sub((g.c1 + 1) as int, (2 + 3 + 1 + g.mcw + 1 + ra.len() + 2 + 4) as int));
                lemma_lacks_safe(bar() + head, w);
                lemma_lacks_safe(pad, w);
                lemma_safe_add(bar() + head, body, w);
                lemma_safe_add(bar() + head + body, pad, w);
            } else {
                assert(lacks(a, x));
                lemma_lacks_safe(a, w);
            }
        }
        assert(safe(b, w)) by {
            if i == 0 {
                let dim = !(inp.mem.swap_total_kb > 0);
                let body = mem_body("SWP"@, inp.swap.cells@, g.mcw, sa, inp.swap.current@, inp.swap.color@, dim);
                let pad = spaces(sat_sub(g.c2 as int, (1 + 3 + 1 + g.mcw + 1 + sa.len() + 2 + 4) as int));
                lemma_lacks_safe(head, w);
                lemma_lacks_safe(pad, w);
                lemma_safe_add(head, body, w);
                lemma_safe_add(head + body, pad, w);
            } else {
                assert(lacks(b, x));
                lemma_lacks_safe(b, w);
            }
        }
        let d = sensor_col(inp.dimms@, g.mtlw, g.mtcw, g.c3 + 1, i);
        lemma_sensor_col_safe(inp.dimms@, g.mtlw, g.mtcw, g.c3 + 1, i, w);
        lemma_lacks_safe(bar(), w);
        lemma_lacks_safe("\r\n"@, w);
        lemma_safe_add(a, bar(), w);
        lemma_safe_add(a + bar(), b, w);
        lemma_safe_add(a + bar() + b, bar(), w);
        lemma_safe_add(a + bar() + b + bar(), d, w);
        lemma_safe_add(a + bar() + b + bar() + d, "\r\n"@, w);
        assert(rows[i] == a + bar() + b + bar() + d + "\r\n"@);
    }
    lemma_joined_safe(rows, w);
    lemma_lacks_safe(top, w);
    lemma_lacks_safe(sub, w);
    lemma_lacks_safe(sep, w);
    lemma_lacks_safe(bottom, w);
    lemma_safe_add(top, sub, w);
    lemma_safe_add(top + sub, joined(rows), w);
    lemma_safe_add(top + sub + joined(rows), sep, w);
    lemma_safe_add(top + sub + joined(rows) + sep, bottom, w);
}

/// Without a GPU panel the frame does not show `w`.
#[verifier::spinoff_prover]
proof fn lemma_frame_safe(inp: FrameInput, cols: nat, rows: nat, w: Seq<char>)
    requires
        gpu_word(w),
        sections_show_no(inp, w),
        inp.gpu is None,
    ensures
        !contains(frame_text(inp, cols, rows), w),
{
    lemma_gpu_word(w);
    let x = w[0];
    lemma_styles_lack(x);
    lemma_cpu_section_safe(inp.cores@, inp.temps@, cols, w);
    lemma_mem_section_safe(inp, cols, w);
    let head = "\x1b[H"@;
    let cpu = cpu_section(inp.cores@, inp.temps@, cols);
    let mem = mem_section(inp, cols);
    let gpu = gpu_part(inp.gpu, cols);
    assert(gpu =~= Seq::<char>::empty());
    let k = sat_sub(rows as int, (section_lines(inp, cols) + 1) as int);
    reveal_strlit("\x1b[K\r\n");
    assert(lacks(clear_line(), x));
    lemma_repeat_lacks(clear_line(), k, x);
    let fill = repeat(clear_line(), k);
    let status = status_bar(cols);
    assert(lacks(status, x));
    lemma_lacks_safe(head, w);
    lemma_lacks_safe(gpu, w);
    lemma_lacks_safe(fill, w);
    lemma_lacks_safe(status, w);
    lemma_safe_add(head, cpu, w);
    lemma_safe_add(head + cpu, mem, w);
    lemma_safe_add(head + cpu + mem, gpu, w);
    lemma_safe_add(head + cpu + mem + gpu, fill, w);
    lemma_safe_add(head + cpu + mem + gpu + fill, status, w);
}

proof fn lemma_contains_centered(t: Seq<char>, tl: nat, w: nat)
    ensures
        contains(centered(t, tl, w), t),
{
    let pl = sat_sub(w as int, tl as int) / 2;
    let pr = sat_sub(w as int, (pl + tl) as int);
    lemma_contains_mid(spaces(pl) + COLOR_BOLD_CYAN@, t, COLOR_RESET@ + spaces(pr));
    assert(centered(t, tl, w) =~= (spaces(pl) + COLOR_BOLD_CYAN@) + t + (COLOR_RESET@ + spaces(pr)));
}

/// The subtitle line of three columns shows each of its titles.
proof fn lemma_contains_subtitles3(
    t1: Seq<char>,
    l1: nat,
    c1: nat,
    t2: Seq<char>,
    l2: nat,
    c2: nat,
    t3: Seq<char>,
    l3: nat,
    c3: nat,
)
    ensures
        contains(subtitle_line3(t1, l1, c1, t2, l2, c2, t3, l3, c3), t1),
        contains(subtitle_line3(t1, l1, c1, t2, l2, c2, t3, l3, c3), t2),
{
    let s1 = centered(t1, l1, c1);
    let s2 = centered(t2, l2, c2);
    let rest = bar() + centered(t3, l3, c3) + bar() + "\r\n"@;
    let line = subtitle_line3(t1, l1, c1, t2, l2, c2, t3, l3, c3);
    lemma_contains_centered(t1, l1, c1);
    lemma_contains_centered(t2, l2, c2);
    assert(line =~= bar() + s1 + (bar() + s2 + rest));
    lemma_contains_grow(bar(), s1, bar() + s2 + rest, t1);
    assert(line =~= (bar() + s1 + bar()) + s2 + rest);
    lemma_contains_grow(bar() + s1 + bar(), s2, rest, t2);
}

/// The GPU section shows its title, `GPU: ` and the GPU's name, and the
/// titles of its first two columns.
#[verifier::spinoff_prover]
proof fn lemma_gpu_section_shows(p: GpuPanel, cols: nat)
    ensures
        contains(gpu_section(p, cols), "GPU: "@ + p.name@),
        contains(gpu_section(p, cols), "GPU: "@),
        contains(gpu_section(p, cols), "GPU Utilization"@),
        contains(gpu_section(p, cols), "VRAM Utilization"@),
{
    reveal(gpu_section);
    reveal(gpu_top);
    let g = gpu_geometry(p, cols);
    let t = gpu_title(p);
    let top = gpu_top(p, cols);
    let pre = COLOR_DIM_GRAY@ + seq!['╭'] + "─"@ + " "@ + COLOR_BOLD_CYAN@;
    let post = COLOR_RESET@ + COLOR_DIM_GRAY@ + " "@ + dashes(
        sat_sub(cols as int, (3 + byte_len(t) + 2) as int),
    ) + seq!['╮'] + COLOR_RESET@ + "\r\n"@;
    assert(top =~= pre + t + post);
    lemma_contains_mid(pre, t, post);
    assert(t.subrange(0, "GPU: "@.len() as int) =~= "GPU: "@);
    lemma_contains_at(t, "GPU: "@, 0);
    lemma_contains_word(top, t, "GPU: "@);
    let sub = subtitle_line3(
        "GPU Utilization"@,
        "GPU Utilization".len() as nat,
        g.c1,
        "VRAM Utilization"@,
        "VRAM Utilization".len() as nat,
        g.c2,
        "Temperature"@,
        "Temperature".len() as nat,
        g.c3,
    );
    lemma_contains_subtitles3(
        "GPU Utilization"@,
        "GPU Utilization".len() as nat,
        g.c1,
        "VRAM Utilization"@,
        "VRAM Utilization".len() as nat,
        g.c2,
        "Temperature"@,
        "Temperature".len() as nat,
        g.c3,
    );
    let rest = gpu_row(p, g) + separator_line(seq![g.c1 as usize, g.c2 as usize, g.c3 as usize])
        + horizontal_border('╰', '╯', cols, None);
    let sec = gpu_section(p, cols);
    assert(sec =~= Seq::<char>::empty() + top + (sub + rest));
    lemma_contains_grow(Seq::<char>::empty(), top, sub + rest, t);
    lemma_contains_grow(Seq::<char>::empty(), top, sub + rest, "GPU: "@);
    assert(sec =~= top + sub + rest);
    lemma_contains_grow(top, sub, rest, "GPU Utilization"@);
    lemma_contains_grow(top, sub, rest, "VRAM Utilization"@);
}

/// The GPU section, titled with the GPU's name, is shown exactly when a
/// GPU was found: the frame shows `GPU: `, `GPU Utilization` and
/// `VRAM Utilization` if and only if the input holds a GPU panel, and
/// then shows `GPU: ` followed by the GPU's name.  This holds whenever no
/// sensor label holds `GPU` or `VRAM Utilization`, and the printed
/// values, colours and glyphs, which the program makes, hold no `G` or `V`.
#[verifier::spinoff_prover]
pub proof fn lemma_gpu_shown(inp: FrameInput, cols: nat, rows: nat)
    requires
        sections_show_no(inp, "GPU"@),
        sections_show_no(inp, "VRAM Utilization"@),
    ensures
        contains(frame_text(inp, cols, rows), "GPU: "@) <==> inp.gpu is Some,
        contains(frame_text(inp, cols, rows), "GPU Utilization"@) <==> inp.gpu is Some,
        contains(frame_text(inp, cols, rows), "VRAM Utilization"@) <==> inp.gpu is Some,
        inp.gpu matches Some(p) ==> contains(frame_text(inp, cols, rows), "GPU: "@ + p.name@),
{
    let f = frame_text(inp, cols, rows);
    match inp.gpu {
        None => {
            reveal_strlit("GPU: ");
            reveal_strlit("GPU Utilization");
            reveal_strlit("GPU");
            let w_gpu = "GPU"@;
            assert("GPU: "@.subrange(0, 3) =~= w_gpu);
            lemma_contains_at("GPU: "@, w_gpu, 0);
            assert("GPU Utilization"@.subrange(0, 3) =~= w_gpu);
            lemma_contains_at("GPU Utilization"@, w_gpu, 0);
            lemma_frame_safe(inp, cols, rows, "GPU"@);
            lemma_frame_safe(inp, cols, rows, "VRAM Utilization"@);
            if contains(f, "GPU: "@) {
                lemma_contains_word(f, "GPU: "@, w_gpu);
            }
            if contains(f, "GPU Utilization"@) {
                lemma_contains_word(f, "GPU Utilization"@, w_gpu);
            }
        },
        Some(p) => {
            let sec = gpu_section(p, cols);
            lemma_gpu_section_shows(p, cols);
            let before = "\x1b[H"@ + cpu_section(inp.cores@, inp.temps@, cols) + mem_section(inp, cols);
            let after = repeat(clear_line(), sat_sub(rows as int, (section_lines(inp, cols) + 1) as int))
                + status_bar(cols);
            assert(f =~= before + sec + after);
            lemma_contains_grow(before, sec, after, "GPU: "@ + p.name@);
            lemma_contains_grow(before, sec, after, "GPU: "@);
            lemma_contains_grow(before, sec, after, "GPU Utilization"@);
            lemma_contains_grow(before, sec, after, "VRAM Utilization"@);
        },
    }
}

// ---------------------------------------------------------------------
// The amounts the frame shows
// ---------------------------------------------------------------------

/// Each line of a list stands in the list's lines put together.
proof fn lemma_joined_contains(rows: Seq<Seq<char>>, k: int)
    requires
        0 <= k < rows.len(),
    ensures
        contains(joined(rows), rows[k]),
    decreases rows.len(),
{
    let e = Seq::<char>::empty();
    if k == rows.len() - 1 {
        lemma_contains_mid(joined(rows.drop_last()), rows[k], e);
        assert(joined(rows) =~= joined(rows.drop_last()) + rows[k] + e);
    } else {
        lemma_joined_contains(rows.drop_last(), k);
        assert(rows.drop_last()[k] == rows[k]);
        lemma_contains_grow(e, joined(rows.drop_last()), rows.last(), rows[k]);
        assert(joined(rows) =~= e + joined(rows.drop_last()) + rows.last());
    }
}

/// A text followed by `  NNN%`: ` ` and the colour, the amounts, and the
/// percentage in the same colour.
pub open spec fn amounts_shown(amounts: Seq<char>, percent: Seq<char>, color: Seq<char>) -> Seq<char> {
    " "@ + color + amounts + COLOR_RESET@ + "  "@ + color + percent + "%"@ + COLOR_RESET@
}

/// The widest used/total text of either RAM or swap.
pub open spec fn widest_amounts(m: MemInfo) -> nat {
    let r = max_pair_width(m.mem_total_kb as nat);
    let w = max_pair_width(m.swap_total_kb as nat);
    if r >= w {
        r
    } else {
        w
    }
}

/// The memory section's first row shows the RAM in use, the total less
/// what is available (nothing when more is available than the total),
/// against the total, and the swap in use, the swap total less what is
/// free (likewise floored at zero), against the swap total: each as
/// `format_mem_pair` writes it, right-aligned to the widest such text,
/// followed by its percentage; the swap amounts are dim gray when there
/// is no swap.  The GPU section shows the VRAM in use against the VRAM
/// total, right-aligned to the widest such text for that total.
#[verifier::spinoff_prover]
pub proof fn lemma_frame_amounts(inp: FrameInput, cols: nat, rows: nat)
    ensures
        ({
            let f = frame_text(inp, cols, rows);
            let m = inp.mem;
            let ram_used: nat = if m.mem_available_kb <= m.mem_total_kb {
                (m.mem_total_kb - m.mem_available_kb) as nat
            } else {
                0
            };
            let swap_used: nat = if m.swap_free_kb <= m.swap_total_kb {
                (m.swap_total_kb - m.swap_free_kb) as nat
            } else {
                0
            };
            let swap_color = if m.swap_total_kb > 0 {
                inp.swap.color@
            } else {
                COLOR_DIM_GRAY@
            };
            &&& contains(
                f,
                amounts_shown(
                    pad_left(mem_pair(ram_used, m.mem_total_kb as nat), widest_amounts(m)),
                    inp.ram.current@,
                    inp.ram.color@,
                ),
            )
            &&& contains(
                f,
                amounts_shown(
                    pad_left(mem_pair(swap_used, m.swap_total_kb as nat), widest_amounts(m)),
                    inp.swap.current@,
                    swap_color,
                ),
            )
            &&& inp.gpu matches Some(p) ==> contains(
                f,
                amounts_shown(
                    pad_left(
                        mem_pair(p.mem_used_kb as nat, p.mem_total_kb as nat),
                        max_pair_width(p.mem_total_kb as nat),
                    ),
                    p.vram.current@,
                    p.vram.color@,
                ),
            )
        }),
{
    lemma_mem_amounts(inp, cols);
    let f = frame_text(inp, cols, rows);
    let head = "\x1b[H"@ + cpu_section(inp.cores@, inp.temps@, cols);
    let mem = mem_section(inp, cols);
    let gpu = gpu_part(inp.gpu, cols);
    let tail = repeat(clear_line(), sat_sub(rows as int, (section_lines(inp, cols) + 1) as int)) + status_bar(
        cols,
    );
    let m = inp.mem;
    let ram_used: nat = if m.mem_available_kb <= m.mem_total_kb {
        (m.mem_total_kb - m.mem_available_kb) as nat
    } else {
        0
    };
    let swap_used: nat = if m.swap_free_kb <= m.swap_total_kb {
        (m.swap_total_kb - m.swap_free_kb) as nat
    } else {
        0
    };
    let swap_color = if m.swap_total_kb > 0 {
        inp.swap.color@
    } else {
        COLOR_DIM_GRAY@
    };
    let ra = amounts_shown(pad_left(mem_pair(ram_used, m.mem_total_kb as nat), widest_amounts(m)), inp.ram.current@, inp.ram.color@);
    let sa = amounts_shown(pad_left(mem_pair(swap_used, m.swap_total_kb as nat), widest_amounts(m)), inp.swap.current@, swap_color);
    assert(f =~= head + mem + (gpu + tail));
    lemma_contains_grow(head, mem, gpu + tail, ra);
    lemma_contains_grow(head, mem, gpu + tail, sa);
    if let Some(p) = inp.gpu {
        lemma_gpu_amounts(p, cols);
        let va = amounts_shown(
            pad_left(mem_pair(p.mem_used_kb as nat, p.mem_total_kb as nat), max_pair_width(p.mem_total_kb as nat)),
            p.vram.current@,
            p.vram.color@,
        );
        assert(f =~= (head + mem) + gpu + tail);
        lemma_contains_grow(head + mem, gpu, tail, va);
    }
}

/// The RAM amounts the first memory row shows, and the swap amounts.
pub open spec fn ram_amounts_shown(inp: FrameInput) -> Seq<char> {
    let m = inp.mem;
    let used: nat = if m.mem_available_kb <= m.mem_total_kb {
        (m.mem_total_kb - m.mem_available_kb) as nat
    } else {
        0
    };
    amounts_shown(pad_left(mem_pair(used, m.mem_total_kb as nat), widest_amounts(m)), inp.ram.current@, inp.ram.color@)
}

pub open spec fn swap_amounts_shown(inp: FrameInput) -> Seq<char> {
    let m = inp.mem;
    let used: nat = if m.swap_free_kb <= m.swap_total_kb {
        (m.swap_total_kb - m.swap_free_kb) as nat
    } else {
        0
    };
    let color = if m.swap_total_kb > 0 {
        inp.swap.color@
    } else {
        COLOR_DIM_GRAY@
    };
    amounts_shown(pad_left(mem_pair(used, m.swap_total_kb as nat), widest_amounts(m)), inp.swap.current@, color)
}

#[verifier::spinoff_prover]
proof fn lemma_mem_columns_amounts(inp: FrameInput, cols: nat)
    ensures
        contains(ram_col(inp.ram, inp.mem, mem_geometry(inp.mem, inp.dimms@, cols), 0), ram_amounts_shown(inp)),
        contains(swap_col(inp.swap, inp.mem, mem_geometry(inp.mem, inp.dimms@, cols), 0), swap_amounts_shown(inp)),
{
    reveal(mem_geometry);
    reveal(ram_col);
    reveal(swap_col);
    let m = inp.mem;
    let g = mem_geometry(m, inp.dimms@, cols);
    let e = Seq::<char>::empty();
    let dim = !(m.swap_total_kb > 0);
    let rabs = pad_left(mem_pair(ram_used(m), m.mem_total_kb as nat), g.aw);
    let sabs = pad_left(mem_pair(swap_used(m), m.swap_total_kb as nat), g.aw);
    let ra = ram_amounts_shown(inp);
    let sa = swap_amounts_shown(inp);
    assert(ra == amounts_shown(rabs, inp.ram.current@, inp.ram.color@));
    let rbody = mem_body("RAM"@, inp.ram.cells@, g.mcw, rabs, inp.ram.current@, inp.ram.color@, false);
    let sbody = mem_body("SWP"@, inp.swap.cells@, g.mcw, sabs, inp.swap.current@, inp.swap.color@, dim);
    let rpre = COLOR_WHITE@ + pad_right("RAM"@, 3) + COLOR_RESET@ + " "@ + chart(inp.ram.cells@, g.mcw);
    assert(rbody =~= rpre + ra + e);
    lemma_contains_mid(rpre, ra, e);
    let sch = if dim {
        repeat(empty_cell(), g.mcw)
    } else {
        chart(inp.swap.cells@, g.mcw)
    };
    let spre = COLOR_WHITE@ + pad_right("SWP"@, 3) + COLOR_RESET@ + " "@ + sch;
    assert(sa == amounts_shown(sabs, inp.swap.current@, if dim { COLOR_DIM_GRAY@ } else { inp.swap.color@ }));
    assert(sbody =~= spre + sa + e);
    lemma_contains_mid(spre, sa, e);
    let rpad = spaces(sat_sub((g.c1 + 1) as int, (2 + 3 + 1 + g.mcw + 1 + rabs.len() + 2 + 4) as int));
    let spad = spaces(sat_sub(g.c2 as int, (1 + 3 + 1 + g.mcw + 1 + sabs.len() + 2 + 4) as int));
    assert(ram_col(inp.ram, m, g, 0) =~= (bar() + " "@) + rbody + rpad);
    lemma_contains_grow(bar() + " "@, rbody, rpad, ra);
    assert(swap_col(inp.swap, m, g, 0) =~= " "@ + sbody + spad);
    lemma_contains_grow(" "@, sbody, spad, sa);
}

#[verifier::spinoff_prover]
proof fn lemma_mem_amounts(inp: FrameInput, cols: nat)
    ensures
        contains(mem_section(inp, cols), ram_amounts_shown(inp)),
        contains(mem_section(inp, cols), swap_amounts_shown(inp)),
{
    reveal(mem_section);
    let m = inp.mem;
    let g = mem_geometry(m, inp.dimms@, cols);
    let e = Seq::<char>::empty();
    let ra = ram_amounts_shown(inp);
    let sa = swap_amounts_shown(inp);
    lemma_mem_columns_amounts(inp, cols);
    let rcol = ram_col(inp.ram, m, g, 0);
    let scol = swap_col(inp.swap, m, g, 0);
    let rows = Seq::new(mem_row_count(inp.dimms@), |i: int| mem_row(inp, g, i));
    let row = rows[0];
    let rest = bar() + sensor_col(inp.dimms@, g.mtlw, g.mtcw, g.c3 + 1, 0) + "\r\n"@;
    assert(row =~= e + rcol + (bar() + scol + rest));
    lemma_contains_grow(e, rcol, bar() + scol + rest, ra);
    assert(row =~= (rcol + bar()) + scol + rest);
    lemma_contains_grow(rcol + bar(), scol, rest, sa);
    lemma_joined_contains(rows, 0);
    lemma_contains_word(joined(rows), row, ra);
    lemma_contains_word(joined(rows), row, sa);
    let top = horizontal_border('╭', '╮', cols, title_text(Some("Memory"))) + subtitle_line3(
        "RAM Utilization"@,
        "RAM Utilization".len() as nat,
        g.c1,
        "Swap Utilization"@,
        "Swap Utilization".len() as nat,
        g.c2,
        "Temperature"@,
        "Temperature".len() as nat,
        g.c3,
    );
    let bottom = separator_line(thirds_widths(g)) + horizontal_border('╰', '╯', cols, None);
    assert(mem_section(inp, cols) =~= top + joined(rows) + bottom);
    lemma_contains_grow(top, joined(rows), bottom, ra);
    lemma_contains_grow(top, joined(rows), bottom, sa);
}

#[verifier::spinoff_prover]
proof fn lemma_gpu_amounts(p: GpuPanel, cols: nat)
    ensures
        contains(
            gpu_section(p, cols),
            amounts_shown(
                pad_left(mem_pair(p.mem_used_kb as nat, p.mem_total_kb as nat), max_pair_width(p.mem_total_kb as nat)),
                p.vram.current@,
                p.vram.color@,
            ),
        ),
{
    reveal(gpu_section);
    reveal(gpu_row);
    let g = gpu_geometry(p, cols);
    let e = Seq::<char>::empty();
    let abs = pad_left(mem_pair(p.mem_used_kb as nat, p.mem_total_kb as nat), g.gaw);
    let va = amounts_shown(abs, p.vram.current@, p.vram.color@);
    let inner = gpu_mem_col_inner(p.vram.cells@, g.mcw, abs, abs.len(), p.vram.current@, p.vram.color@, g.c2);
    let pre = " "@ + COLOR_WHITE@ + "MEM"@ + COLOR_RESET@ + " "@ + chart(p.vram.cells@, g.mcw);
    let pad = spaces(sat_sub(g.c2 as int, (1 + 3 + 1 + g.mcw + 1 + abs.len() + 2 + 4) as int));
    assert(inner =~= pre + va + pad);
    lemma_contains_mid(pre, va, pad);
    let first = gpu_util_col_first(p.util.cells@, p.util.current@, p.util.color@, g.ucw, g.c1 + 1) + bar();
    let last = bar() + gpu_temp_col_right(
        p.temp.cells@,
        opt_view(p.temp.current),
        p.temp.color@,
        g.tcw,
        g.c3 + 1,
    ) + "\r\n"@;
    let row = gpu_row(p, g);
    assert(row =~= first + inner + last);
    lemma_contains_grow(first, inner, last, va);
    let sub = subtitle_line3(
        "GPU Utilization"@,
        "GPU Utilization".len() as nat,
        g.c1,
        "VRAM Utilization"@,
        "VRAM Utilization".len() as nat,
        g.c2,
        "Temperature"@,
        "Temperature".len() as nat,
        g.c3,
    );
    let before = gpu_top(p, cols) + sub;
    let after = separator_line(seq![g.c1 as usize, g.c2 as usize, g.c3 as usize]) + horizontal_border(
        '╰',
        '╯',
        cols,
        None,
    );
    assert(gpu_section(p, cols) =~= before + row + after);
    lemma_contains_grow(before, row, after, va);
}

} // verus!
