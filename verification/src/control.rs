//! The decisions of the refresh loop: which key quits, and how many
//! samples each history keeps for a terminal of a given width.
use vstd::prelude::*;

use crate::disk::io::{byte_len, names};
use crate::memory::usage::{max_pair_width, MemInfo};
use crate::text::{dec, sat_sub};
use crate::ui::frame::{sensor_labels, GpuPanel, Sensor};
use crate::ui::screen::{core_label, cpu_geometry, gpu_geometry, mem_abs, mem_geometry};
use crate::ui::layout::{
    chart_room, label_width, mem_abs_width, mem_col_chart_width, mem_temp_label_width,
    sensor_label_width, temp_chart_width, temp_label_width, util_chart_width,
};

verus! {

/// A key press as the loop sees it.
pub enum Key {
    Char(char),
    Other,
}

/// What the loop does after a key press.
pub enum Action {
    Quit,
    Continue,
}

/// `q` or `Q` quits, and so does Ctrl+C; every other key is ignored.
pub fn on_key(key: Key, control: bool) -> (r: Action)
    ensures
        (r is Quit) == (key == Key::Char('q') || key == Key::Char('Q') || (key == Key::Char('c')
            && control)),
{
    match key {
        Key::Char('q') | Key::Char('Q') => Action::Quit,
        Key::Char('c') if control => Action::Quit,
        _ => Action::Continue,
    }
}

/// How many samples each history keeps: as many as its chart is wide.
pub struct ChartWidths {
    pub cpu: usize,
    pub temp: usize,
    pub mem: usize,
    pub dimm: usize,
    pub gpu: usize,
}

/// The chart widths for a terminal `cols` wide: the CPU charts split two
/// thirds of the inner width into two columns, the temperature chart takes
/// the last third, and the memory, DIMM and GPU charts use the three
/// columns of the memory section.
pub open spec fn chart_widths_spec(
    cols: nat,
    cores: nat,
    temp_labels: Seq<Seq<char>>,
    mem: MemInfo,
    dimm_labels: Seq<Seq<char>>,
) -> (nat, nat, nat, nat, nat) {
    let available = sat_sub(cols as int, 4);
    let util_total = available * 2 / 3;
    let temp_col = available - util_total;
    let lw = if cores == 0 {
        2
    } else {
        1 + dec((cores - 1) as nat).len()
    };
    let tlw = sensor_label_width(temp_labels);
    let col1 = available / 3;
    let col3 = available - col1 - available / 3;
    let aw = if max_pair_width(mem.mem_total_kb as nat) >= max_pair_width(mem.swap_total_kb as nat) {
        max_pair_width(mem.mem_total_kb as nat)
    } else {
        max_pair_width(mem.swap_total_kb as nat)
    };
    let mtlw = sensor_label_width(dimm_labels);
    (
        chart_room((util_total / 2) as int, (lw + 9) as int) as nat,
        chart_room((temp_col + 1) as int, (tlw + 18) as int) as nat,
        chart_room(col1 as int, (aw + 12) as int) as nat,
        chart_room((col3 + 1) as int, (mtlw + 18) as int) as nat,
        chart_room(col1 as int, 12) as nat,
    )
}

/// The chart widths for this refresh.
pub fn chart_widths(
    cols: u16,
    core_count: usize,
    temp_labels: &Vec<String>,
    mem: &MemInfo,
    dimm_labels: &Vec<String>,
) -> (r: ChartWidths)
    requires
        forall|i: int|
            0 <= i < temp_labels.len() ==> byte_len(#[trigger] temp_labels@[i]@) <= isize::MAX,
        forall|i: int|
            0 <= i < dimm_labels.len() ==> byte_len(#[trigger] dimm_labels@[i]@) <= isize::MAX,
    ensures
        (r.cpu as nat, r.temp as nat, r.mem as nat, r.dimm as nat, r.gpu as nat) == chart_widths_spec(
            cols as nat,
            core_count as nat,
            names(temp_labels@),
            *mem,
            names(dimm_labels@),
        ),
{
    let c = cols as usize;
    let available = if c > 4 { c - 4 } else { 0 };
    let util_total = (available * 2) / 3;
    let temp_col = available - util_total;
    let util_col1 = util_total / 2;
    let lw = label_width(core_count);
    proof {
        if core_count > 0 {
            crate::text::lemma_dec_len_u64((core_count - 1) as nat);
        }
        crate::ui::layout::lemma_sensor_label_width_bound(names(temp_labels@));
        crate::ui::layout::lemma_sensor_label_width_bound(names(dimm_labels@));
    }
    let cpu = util_chart_width(util_col1, lw);
    let tlw = temp_label_width(temp_labels);
    let temp = temp_chart_width(temp_col + 1, tlw);
    let col1 = available / 3;
    let col3 = available - col1 - available / 3;
    let aw = mem_abs_width(mem);
    let mem_w = mem_col_chart_width(col1, aw);
    let mtlw = mem_temp_label_width(dimm_labels);
    let dimm = temp_chart_width(col3 + 1, mtlw);
    let gpu = util_chart_width(col1, 3);
    ChartWidths { cpu, temp, mem: mem_w, dimm, gpu }
}

/// A chart `w` wide fills a column `col` wide that also holds `fixed`
/// columns of label, value, spacing and borders: exactly, when the column
/// has room for more than its fixed parts, and otherwise at its least
/// width of eight.
pub open spec fn fills(w: nat, col: int, fixed: int) -> bool {
    if col > fixed {
        w + fixed == col
    } else {
        w == 8
    }
}

/// Each history keeps as many samples as its chart is wide.  Inside the
/// four borders of a terminal `cols` wide, the utilization columns share
/// two thirds: the CPU chart fills half of that share after the label of
/// the highest core (`#` and its number, at least two wide) and nine
/// columns of spacing, percentage and borders.  The temperature chart
/// fills the last third and its border after the longest sensor label
/// and eighteen columns.  The memory chart fills a third of the inner
/// width after the widest used/total text and twelve columns, the DIMM
/// chart the memory section's last column and its border after the
/// longest DIMM label and eighteen columns, and the GPU chart a third
/// after twelve columns.
pub proof fn lemma_chart_widths_fill(
    cols: nat,
    cores: nat,
    temp_labels: Seq<Seq<char>>,
    mem: MemInfo,
    dimm_labels: Seq<Seq<char>>,
)
    ensures
        ({
            let (cpu, temp, mem_w, dimm, gpu) = chart_widths_spec(
                cols,
                cores,
                temp_labels,
                mem,
                dimm_labels,
            );
            let inner: int = if cols > 4 {
                cols - 4
            } else {
                0
            };
            let util = inner * 2 / 3;
            let lw: int = if cores == 0 {
                2
            } else {
                core_label((cores - 1) as nat).len() as int
            };
            &&& fills(cpu, util / 2, lw + 9)
            &&& fills(temp, inner - util + 1, (sensor_label_width(temp_labels) + 18) as int)
            &&& fills(mem_w, inner / 3, (mem_abs(mem) + 12) as int)
            &&& fills(dimm, inner - 2 * (inner / 3) + 1, (sensor_label_width(dimm_labels) + 18) as int)
            &&& fills(gpu, inner / 3, 12)
        }),
{
    reveal_strlit("#");
}

/// The memory, DIMM and GPU histories keep as many samples as the frame
/// draws in their charts; so do the CPU and temperature histories while
/// the frame splits the cores into two utilization columns.
pub proof fn lemma_chart_widths_match_frame(
    cols: nat,
    cores: nat,
    sensors: Seq<Sensor>,
    mem: MemInfo,
    dimms: Seq<Sensor>,
    gpu: GpuPanel,
)
    ensures
        ({
            let (cpu, temp, mem_w, dimm, gpu_w) = chart_widths_spec(
                cols,
                cores,
                sensor_labels(sensors),
                mem,
                sensor_labels(dimms),
            );
            let g = cpu_geometry(cores, sensors, cols);
            let m = mem_geometry(mem, dimms, cols);
            &&& mem_w == m.mcw
            &&& dimm == m.mtcw
            &&& gpu_w == gpu_geometry(gpu, cols).ucw
            &&& !g.three ==> cpu == g.ucw && temp == g.tcw
        }),
{
    reveal(cpu_geometry);
    reveal(mem_geometry);
}

} // verus!
