//! Sparkline glyphs and the ANSI colours of the charts.
use vstd::prelude::*;

verus! {

/// The eight block elements of a sparkline, lowest first.
pub const SPARKLINE_CHARS: [char; 8] = ['▁', '▂', '▃', '▄', '▅', '▆', '▇', '█'];

pub const COLOR_GREEN: &'static str = "\x1b[32m";
pub const COLOR_YELLOW: &'static str = "\x1b[33m";
pub const COLOR_ORANGE: &'static str = "\x1b[38;5;208m";
pub const COLOR_RED: &'static str = "\x1b[31m";
pub const COLOR_DIM_GRAY: &'static str = "\x1b[90m";
pub const COLOR_DIM_CHART: &'static str = "\x1b[38;5;240m";
pub const COLOR_BOLD_CYAN: &'static str = "\x1b[1;36m";
pub const COLOR_WHITE: &'static str = "\x1b[37m";
pub const COLOR_RESET: &'static str = "\x1b[0m";

/// The sparkline glyph of a level: level 0 is the lowest block, levels of
/// 7 and above the full block.
pub fn sparkline_glyph(level: usize) -> (c: char)
    ensures
        c == SPARKLINE_CHARS@[if level < 7 { level as int } else { 7 }],
{
    let i = if level < 7 { level } else { 7 };
    SPARKLINE_CHARS[i]
}

/// The sparkline level of a utilization of `pct` whole percent: 0 up to
/// 12, then one level more for each step of 12 or 13 percent (13–25,
/// 26–37, 38–50, 51–62, 63–75, 76–87), and 7 from 88.
pub fn utilization_level(pct: u32) -> (r: usize)
    ensures
        r == (if pct <= 12 {
            0usize
        } else if pct <= 25 {
            1
        } else if pct <= 37 {
            2
        } else if pct <= 50 {
            3
        } else if pct <= 62 {
            4
        } else if pct <= 75 {
            5
        } else if pct <= 87 {
            6
        } else {
            7
        }),
{
    if pct <= 12 {
        0
    } else if pct <= 25 {
        1
    } else if pct <= 37 {
        2
    } else if pct <= 50 {
        3
    } else if pct <= 62 {
        4
    } else if pct <= 75 {
        5
    } else if pct <= 87 {
        6
    } else {
        7
    }
}

/// Colour of a utilization of `pct` whole percent: green up to 25, yellow
/// up to 50, orange up to 75, red above.
pub fn utilization_band_color(pct: u32) -> (c: &'static str)
    ensures
        c == (if pct <= 25 {
            COLOR_GREEN
        } else if pct <= 50 {
            COLOR_YELLOW
        } else if pct <= 75 {
            COLOR_ORANGE
        } else {
            COLOR_RED
        }),
{
    if pct <= 25 {
        COLOR_GREEN
    } else if pct <= 50 {
        COLOR_YELLOW
    } else if pct <= 75 {
        COLOR_ORANGE
    } else {
        COLOR_RED
    }
}

/// Colour of a temperature of `deg` whole degrees Celsius: green below 50,
/// yellow below 70, orange below 85, red from 85.
pub fn temperature_band_color(deg: u32) -> (c: &'static str)
    ensures
        c == (if deg <= 49 {
            COLOR_GREEN
        } else if deg <= 69 {
            COLOR_YELLOW
        } else if deg <= 84 {
            COLOR_ORANGE
        } else {
            COLOR_RED
        }),
{
    if deg <= 49 {
        COLOR_GREEN
    } else if deg <= 69 {
        COLOR_YELLOW
    } else if deg <= 84 {
        COLOR_ORANGE
    } else {
        COLOR_RED
    }
}

} // verus!
