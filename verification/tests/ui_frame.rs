use ttop::memory::MemInfo;
use ttop::ui::colors::{temperature_band_color, utilization_band_color, COLOR_DIM_GRAY};
use ttop::ui::frame::{FrameInput, GpuPanel, Reading, Sensor, Series};
use ttop::ui::sparkline::Cell;
use ttop::ui::{
    mem_col_chart_width, render_frame, temp_chart_width, util_chart_width,
    COLOR_GREEN, COLOR_ORANGE, COLOR_RED, COLOR_YELLOW,
};

#[test]
fn ui_utilization_color_green_range() {
    assert_eq!(utilization_band_color(0.0 as u32), COLOR_GREEN);
    assert_eq!(utilization_band_color(12.0 as u32), COLOR_GREEN);
    assert_eq!(utilization_band_color(25.0 as u32), COLOR_GREEN);
}

#[test]
fn ui_utilization_color_yellow_range() {
    assert_eq!(utilization_band_color(26.0 as u32), COLOR_YELLOW);
    assert_eq!(utilization_band_color(38.0 as u32), COLOR_YELLOW);
    assert_eq!(utilization_band_color(50.0 as u32), COLOR_YELLOW);
}

#[test]
fn ui_utilization_color_orange_range() {
    assert_eq!(utilization_band_color(51.0 as u32), COLOR_ORANGE);
    assert_eq!(utilization_band_color(63.0 as u32), COLOR_ORANGE);
    assert_eq!(utilization_band_color(75.0 as u32), COLOR_ORANGE);
}

#[test]
fn ui_utilization_color_red_range() {
    assert_eq!(utilization_band_color(76.0 as u32), COLOR_RED);
    assert_eq!(utilization_band_color(90.0 as u32), COLOR_RED);
    assert_eq!(utilization_band_color(100.0 as u32), COLOR_RED);
}

#[test]
fn ui_temperature_color_green_range() {
    assert_eq!(temperature_band_color(30.0 as u32), COLOR_GREEN);
    assert_eq!(temperature_band_color(49.0 as u32), COLOR_GREEN);
}

#[test]
fn ui_temperature_color_yellow_range() {
    assert_eq!(temperature_band_color(50.0 as u32), COLOR_YELLOW);
    assert_eq!(temperature_band_color(69.0 as u32), COLOR_YELLOW);
}

#[test]
fn ui_temperature_color_orange_range() {
    assert_eq!(temperature_band_color(70.0 as u32), COLOR_ORANGE);
    assert_eq!(temperature_band_color(84.0 as u32), COLOR_ORANGE);
}

#[test]
fn ui_temperature_color_red_range() {
    assert_eq!(temperature_band_color(85.0 as u32), COLOR_RED);
    assert_eq!(temperature_band_color(100.0 as u32), COLOR_RED);
}

#[test]
fn ui_util_chart_width_standard() {
    let cw = util_chart_width(40, 2);
    assert_eq!(cw, 40 - 2 - 9);
}

#[test]
fn ui_util_chart_width_very_narrow() {
    let cw = util_chart_width(5, 2);
    assert_eq!(cw, 8);
}

#[test]
fn ui_temp_chart_width_standard() {
    let cw = temp_chart_width(40, 4);
    assert_eq!(cw, 40 - 4 - 18);
}

#[test]
fn ui_temp_chart_width_very_narrow() {
    let cw = temp_chart_width(10, 4);
    assert_eq!(cw, 8);
}

#[test]
fn ui_mem_col_chart_width_standard() {
    let cw = mem_col_chart_width(40, 9);
    assert_eq!(cw, 40 - 12 - 9);
}

#[test]
fn ui_mem_col_chart_width_very_narrow() {
    let cw = mem_col_chart_width(10, 9);
    assert_eq!(cw, 8);
}

#[test]
fn ui_mem_col_chart_width_short_abs() {
    let cw = mem_col_chart_width(40, 12);
    assert_eq!(cw, 40 - 12 - 12);
}

#[test]
fn ui_mem_col_chart_width_long_abs() {
    let cw = mem_col_chart_width(40, 15);
    assert_eq!(cw, 40 - 12 - 15);
}

fn series(current: &str, color: &'static str) -> Series {
    Series {
        cells: vec![
            Cell { glyph: '▂', color: COLOR_GREEN },
            Cell { glyph: '▅', color: COLOR_YELLOW },
        ],
        current: current.to_string(),
        color,
    }
}

fn sensor(label: &str, reading: Option<&str>) -> Sensor {
    Sensor {
        label: label.to_string(),
        reading: Reading {
            cells: vec![Cell { glyph: '▃', color: COLOR_GREEN }],
            current: reading.map(|r| r.to_string()),
            color: COLOR_GREEN,
        },
    }
}

fn sample_input(cores: usize, temps: Vec<Sensor>, gpu: Option<GpuPanel>) -> FrameInput {
    let mut cs = Vec::new();
    for _ in 0..cores {
        cs.push(series(" 37", COLOR_YELLOW));
    }
    FrameInput {
        cores: cs,
        temps,
        ram: series(" 50", COLOR_YELLOW),
        swap: series("  6", COLOR_GREEN),
        mem: MemInfo {
            mem_total_kb: 16384000,
            mem_available_kb: 8192000,
            swap_total_kb: 8192000,
            swap_free_kb: 7700000,
        },
        dimms: Vec::new(),
        gpu,
    }
}

fn strip_ansi(s: &str) -> String {
    let mut result = String::with_capacity(s.len());
    let mut chars = s.chars();
    while let Some(c) = chars.next() {
        if c == '\x1b' {
            if let Some('[') = chars.next() {
                for c2 in chars.by_ref() {
                    if c2.is_ascii_alphabetic() {
                        break;
                    }
                }
            }
        } else {
            result.push(c);
        }
    }
    result
}

#[test]
fn ui_render_frame_contains_subtitles() {
    let frame = render_frame(&sample_input(8, Vec::new(), None), 120, 40);
    let stripped = strip_ansi(&frame);
    assert!(stripped.contains("Utilization"), "frame should contain 'Utilization' subtitle");
    assert!(stripped.contains("Temperature"), "frame should contain 'Temperature' subtitle");
}

#[test]
fn ui_render_frame_contains_memory_section() {
    let frame = render_frame(&sample_input(4, Vec::new(), None), 120, 60);
    let stripped = strip_ansi(&frame);
    assert!(stripped.contains("Memory"), "frame should contain Memory header");
}

#[test]
fn ui_render_frame_contains_ram_and_swp_labels() {
    let frame = render_frame(&sample_input(4, Vec::new(), None), 120, 60);
    let stripped = strip_ansi(&frame);
    assert!(stripped.contains("RAM"), "frame should contain RAM label");
    assert!(stripped.contains("SWP"), "frame should contain SWP label");
}

#[test]
fn ui_render_frame_memory_has_three_column_subtitles() {
    let frame = render_frame(&sample_input(4, Vec::new(), None), 120, 60);
    let stripped = strip_ansi(&frame);
    assert!(stripped.contains("RAM Utilization"), "frame should contain 'RAM Utilization' subtitle");
    assert!(stripped.contains("Swap Utilization"), "frame should contain 'Swap Utilization' subtitle");
}

#[test]
fn frame_every_line_is_as_wide_as_the_terminal() {
    let temps = vec![sensor("Tctl", Some(" 46°C (115°F)"))];
    let frame = render_frame(&sample_input(8, temps, None), 120, 40);
    let stripped = strip_ansi(&frame);
    let lines: Vec<&str> = stripped.split("\r\n").collect();
    assert_eq!(lines.len(), 40);
    for line in &lines {
        if !line.is_empty() {
            assert_eq!(line.chars().count(), 120, "line {:?}", line);
        }
    }
    assert!(lines[39].ends_with("q: quit  ttop v0.1"));
}

#[test]
fn frame_gpu_and_dimm_lines_are_as_wide_as_the_terminal() {
    let gpu = GpuPanel {
        name: "GeForce RTX 4090".to_string(),
        util: series(" 72", COLOR_ORANGE),
        vram: series(" 40", COLOR_YELLOW),
        temp: Reading {
            cells: vec![Cell { glyph: '▃', color: COLOR_GREEN }],
            current: Some(" 52°C (126°F)".to_string()),
            color: COLOR_YELLOW,
        },
        mem_used_kb: 4404019,
        mem_total_kb: 25165824,
    };
    let mut input = sample_input(16, vec![sensor("Core 0", Some(" 46°C (115°F)"))], Some(gpu));
    input.dimms = vec![sensor("DIMM0", Some(" 40°C (104°F)")), sensor("DIMM1", None)];
    for cols in [100u16, 137, 200] {
        let frame = render_frame(&input, cols, 50);
        let stripped = strip_ansi(&frame);
        let lines: Vec<&str> = stripped.split("\r\n").collect();
        assert_eq!(lines.len(), 50);
        let mut boxed = 0;
        for line in &lines[..49] {
            if !line.is_empty() {
                assert_eq!(line.chars().count(), cols as usize, "line {:?}", line);
                boxed += 1;
            }
        }
        // CPU: 6 rows + 4; memory: 2 rows + 4; GPU: 1 row + 4.
        assert_eq!(boxed, 10 + 6 + 5);
    }
}

#[test]
fn frame_counts_line_ends_with_line_feeds_in_labels() {
    let temps = vec![sensor("Tc\ntl", Some(" 46°C (115°F)")), sensor("\nCore\r", None)];
    let mut input = sample_input(4, temps, None);
    input.dimms = vec![sensor("DIMM\n0", None)];
    for rows in [10u16, 30, 60] {
        let frame = render_frame(&input, 120, rows);
        assert!(frame.starts_with("\x1b[H"));
        assert!(frame.ends_with("\x1b[90mq: quit  ttop v0.1\x1b[0m"));
        // CPU: 2 rows + 4; memory: 1 row + 4.
        let expected = std::cmp::max(11, rows as usize - 1);
        assert_eq!(frame.matches("\r\n").count(), expected);
    }
}

#[test]
fn frame_shows_gpu_words_only_with_a_gpu() {
    let temps = || vec![sensor("GP", Some(" 46°C (115°F)")), sensor("VRAM1", None), sensor("UVRA", None)];
    let without = render_frame(&sample_input(4, temps(), None), 120, 40);
    assert!(!without.contains("GPU: "));
    assert!(!without.contains("GPU Utilization"));
    assert!(!without.contains("VRAM Utilization"));
    let gpu = GpuPanel {
        name: "Arc A770".to_string(),
        util: series("  3", COLOR_GREEN),
        vram: series("  1", COLOR_GREEN),
        temp: Reading { cells: Vec::new(), current: None, color: COLOR_GREEN },
        mem_used_kb: 0,
        mem_total_kb: 16777216,
    };
    let with = render_frame(&sample_input(4, temps(), Some(gpu)), 120, 40);
    assert!(with.contains("GPU: Arc A770"));
    assert!(with.contains("GPU Utilization"));
    assert!(with.contains("VRAM Utilization"));
}

#[test]
fn frame_cores_fill_columns_top_down() {
    let frame = render_frame(&sample_input(8, Vec::new(), None), 120, 40);
    let stripped = strip_ansi(&frame);
    let lines: Vec<&str> = stripped.split("\r\n").collect();
    assert!(lines[2].contains("#0") && lines[2].contains("#3") && lines[2].contains("#6"));
    assert!(lines[3].contains("#1") && lines[3].contains("#4") && lines[3].contains("#7"));
    assert!(lines[4].contains("#2") && lines[4].contains("#5"));
    assert!(lines[2].contains("N/A°C (N/A°F)"));
    assert!(!lines[3].contains("N/A"));
}

#[test]
fn frame_shows_gpu_section_when_present() {
    let gpu = GpuPanel {
        name: "Radeon RX 7600".to_string(),
        util: series(" 12", COLOR_GREEN),
        vram: series(" 25", COLOR_GREEN),
        temp: Reading { cells: Vec::new(), current: None, color: COLOR_GREEN },
        mem_used_kb: 2097152,
        mem_total_kb: 8388608,
    };
    let frame = render_frame(&sample_input(4, Vec::new(), Some(gpu)), 120, 40);
    let stripped = strip_ansi(&frame);
    assert!(stripped.contains("GPU: Radeon RX 7600"));
    assert!(stripped.contains("GPU Utilization"));
    assert!(stripped.contains("VRAM Utilization"));
    assert!(stripped.contains("2.0GB/8.0GB"));
    assert!(stripped.contains(" USE "));
    assert!(stripped.contains(" MEM "));
    assert!(stripped.contains(" TMP "));
    let without = strip_ansi(&render_frame(&sample_input(4, Vec::new(), None), 120, 40));
    assert!(!without.contains("GPU"));
}

#[test]
fn frame_dims_swap_when_there_is_none() {
    let mut input = sample_input(2, Vec::new(), None);
    input.mem.swap_total_kb = 0;
    input.mem.swap_free_kb = 0;
    let frame = render_frame(&input, 120, 40);
    let i = frame.find("0.0GB/0.0GB").unwrap();
    let before = frame[..i].trim_end_matches(' ');
    assert!(before.ends_with(COLOR_DIM_GRAY));
}
