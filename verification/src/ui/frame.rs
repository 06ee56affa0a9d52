//! What a frame shows, as plain values, and the pieces every layout ends
//! with: the blank filler lines and the status bar.
use vstd::prelude::*;
use vstd::utf8::is_ascii_chars;

use crate::disk::io::names;
use crate::memory::usage::MemInfo;
use crate::text::{push_spaces, push_str, repeat, sat_sub, spaces};
use crate::ui::colors::{COLOR_DIM_GRAY, COLOR_RESET};
use crate::ui::sparkline::{push_reading, reading_text, Cell};

verus! {

/// A percentage history as drawn: one cell per sample, oldest first, the
/// newest value printed three wide and its colour.
pub struct Series {
    pub cells: Vec<Cell>,
    pub current: String,
    pub color: &'static str,
}

/// A temperature history as drawn; `current` is the newest reading printed
/// as `NNN°C (NNN°F)`, `None` before the first sample.
pub struct Reading {
    pub cells: Vec<Cell>,
    pub current: Option<String>,
    pub color: &'static str,
}

/// A temperature sensor: its label and its history.
pub struct Sensor {
    pub label: String,
    pub reading: Reading,
}

/// The GPU row: utilization, VRAM use and temperature histories, and the
/// VRAM amounts in kB.
pub struct GpuPanel {
    pub name: String,
    pub util: Series,
    pub vram: Series,
    pub temp: Reading,
    pub mem_used_kb: u64,
    pub mem_total_kb: u64,
}

/// Everything one frame shows: a history per core, the CPU temperature
/// sensors, RAM and swap histories with the current memory counters, the
/// DIMM temperature sensors, and the GPU when one was found.
pub struct FrameInput {
    pub cores: Vec<Series>,
    pub temps: Vec<Sensor>,
    pub ram: Series,
    pub swap: Series,
    pub mem: MemInfo,
    pub dimms: Vec<Sensor>,
    pub gpu: Option<GpuPanel>,
}

pub open spec fn opt_view(o: Option<String>) -> Option<Seq<char>> {
    match o {
        Some(s) => Some(s@),
        None => None,
    }
}

/// Appends the newest reading of a temperature history, or the dim `N/A`
/// reading when there is none.
pub fn push_sensor_reading(buf: &mut String, r: &Reading)
    ensures
        final(buf)@ == old(buf)@ + reading_text(opt_view(r.current), r.color@),
{
    match &r.current {
        Some(t) => push_reading(buf, Some(t.as_str()), r.color),
        None => push_reading(buf, None, r.color),
    }
}

/// An ASCII string is as many bytes long as it has characters.
pub proof fn lemma_ascii_len(s: &str)
    requires
        is_ascii_chars(s@),
        s@.len() <= usize::MAX,
    ensures
        s.len() == s@.len(),
{
    vstd::utf8::is_ascii_chars_encode_utf8(s@);
}

pub open spec fn sensor_labels(sensors: Seq<Sensor>) -> Seq<Seq<char>> {
    Seq::new(sensors.len(), |i: int| sensors[i].label@)
}

/// The labels of the sensors, in order.
pub fn label_list(sensors: &Vec<Sensor>) -> (r: Vec<String>)
    ensures
        names(r@) == sensor_labels(sensors@),
{
    let mut r: Vec<String> = Vec::new();
    let mut i: usize = 0;
    while i < sensors.len()
        invariant
            i <= sensors.len(),
            r.len() == i,
            forall|k: int| 0 <= k < i ==> #[trigger] r@[k]@ == sensors@[k].label@,
        decreases sensors.len() - i,
    {
        r.push(sensors[i].label.clone());
        i += 1;
    }
    assert(names(r@) =~= sensor_labels(sensors@));
    r
}

/// Appending pieces one at a time appends their concatenation.
pub proof fn lemma_append6(
    b: Seq<char>,
    p0: Seq<char>,
    p1: Seq<char>,
    p2: Seq<char>,
    p3: Seq<char>,
    p4: Seq<char>,
    p5: Seq<char>,
)
    ensures
        b + p0 + p1 + p2 + p3 + p4 + p5 == b + (p0 + p1 + p2 + p3 + p4 + p5),
        b + p0 + p1 + p2 + p3 + p4 == b + (p0 + p1 + p2 + p3 + p4),
{
    assert(b + p0 + p1 + p2 + p3 + p4 + p5 =~= b + (p0 + p1 + p2 + p3 + p4 + p5));
    assert(b + p0 + p1 + p2 + p3 + p4 =~= b + (p0 + p1 + p2 + p3 + p4));
}

/// The rows one after the other.
pub open spec fn joined(rows: Seq<Seq<char>>) -> Seq<char>
    decreases rows.len(),
{
    if rows.len() == 0 {
        seq![]
    } else {
        joined(rows.drop_last()) + rows.last()
    }
}

pub proof fn lemma_joined_take(rows: Seq<Seq<char>>, i: int)
    requires
        0 <= i < rows.len(),
    ensures
        joined(rows.take(i + 1)) == joined(rows.take(i)) + rows[i],
{
    assert(rows.take(i + 1).drop_last() =~= rows.take(i));
}

pub proof fn lemma_joined_all(rows: Seq<Seq<char>>)
    ensures
        joined(rows.take(rows.len() as int)) == joined(rows),
{
    assert(rows.take(rows.len() as int) =~= rows);
}

/// A line that clears the rest of the terminal line.
pub open spec fn clear_line() -> Seq<char> {
    "\x1b[K\r\n"@
}

pub open spec fn status_text() -> &'static str {
    "q: quit  ttop v0.1"
}

/// The status bar, right-aligned in `cols` columns.
pub open spec fn status_bar(cols: nat) -> Seq<char> {
    spaces(sat_sub(cols as int, status_text().len() as int)) + COLOR_DIM_GRAY@ + status_text()@
        + COLOR_RESET@
}

/// Appends `n` lines that clear the rest of the screen line.
pub fn push_clear_lines(buf: &mut String, n: usize)
    ensures
        final(buf)@ == old(buf)@ + repeat(clear_line(), n as nat),
{
    let mut i: usize = 0;
    while i < n
        invariant
            i <= n,
            buf@ == old(buf)@ + repeat(clear_line(), i as nat),
        decreases n - i,
    {
        push_str(buf, "\x1b[K\r\n");
        i += 1;
        assert(repeat(clear_line(), i as nat) == repeat(clear_line(), (i - 1) as nat)
            + clear_line());
        assert(buf@ =~= old(buf)@ + repeat(clear_line(), i as nat));
    }
}

/// Appends the status bar, right-aligned in `cols` columns.
pub fn push_status_bar(buf: &mut String, cols: u16)
    ensures
        final(buf)@ == old(buf)@ + status_bar(cols as nat),
{
    let status = "q: quit  ttop v0.1";
    let c = cols as usize;
    let padding = if c > status.len() { c - status.len() } else { 0 };
    push_spaces(buf, padding);
    push_str(buf, COLOR_DIM_GRAY);
    push_str(buf, status);
    push_str(buf, COLOR_RESET);
    assert(buf@ =~= old(buf)@ + status_bar(cols as nat));
}

} // verus!
