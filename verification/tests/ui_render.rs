use ttop::memory::MemInfo;
use ttop::ui::colors::{COLOR_GREEN, COLOR_YELLOW};
use ttop::ui::frame::{FrameInput, GpuPanel, Reading, Sensor, Series};
use ttop::ui::render_frame;
use ttop::ui::sparkline::Cell;

fn series(current: &str, color: &'static str) -> Series {
    Series {
        cells: vec![
            Cell { glyph: '▂', color: COLOR_GREEN },
            Cell { glyph: '▅', color: COLOR_YELLOW },
        ],
        current: current.to_string(),
        color,
    }
}

fn sensor(label: &str, reading: Option<&str>) -> Sensor {
    Sensor {
        label: label.to_string(),
        reading: Reading {
            cells: vec![Cell { glyph: '▃', color: COLOR_GREEN }],
            current: reading.map(|r| r.to_string()),
            color: COLOR_GREEN,
        },
    }
}

fn sample_input(cores: usize, temps: Vec<Sensor>, gpu: Option<GpuPanel>) -> FrameInput {
    let mut cs = Vec::new();
    for _ in 0..cores {
        cs.push(series(" 37", COLOR_YELLOW));
    }
    FrameInput {
        cores: cs,
        temps,
        ram: series(" 50", COLOR_YELLOW),
        swap: series("  6", COLOR_GREEN),
        mem: MemInfo {
            mem_total_kb: 16384000,
            mem_available_kb: 8192000,
            swap_total_kb: 8192000,
            swap_free_kb: 7700000,
        },
        dimms: Vec::new(),
        gpu,
    }
}

fn strip_ansi(s: &str) -> String {
    let mut result = String::with_capacity(s.len());
    let mut chars = s.chars();
    while let Some(c) = chars.next() {
        if c == '\x1b' {
            if let Some('[') = chars.next() {
                for c2 in chars.by_ref() {
                    if c2.is_ascii_alphabetic() {
                        break;
                    }
                }
            }
        } else {
            result.push(c);
        }
    }
    result
}

#[test]
fn render_render_frame_contains_cpu_section() {
    let frame = render_frame(&sample_input(8, Vec::new(), None), 120, 40);
    let stripped = strip_ansi(&frame);
    assert!(stripped.contains("CPU"), "frame should contain CPU header");
}

#[test]
fn render_render_frame_contains_subtitles() {
    let frame = render_frame(&sample_input(8, Vec::new(), None), 120, 40);
    let stripped = strip_ansi(&frame);
    assert!(stripped.contains("Utilization"), "frame should contain 'Utilization' subtitle");
    assert!(stripped.contains("Temperature"), "frame should contain 'Temperature' subtitle");
}

#[test]
fn render_render_frame_contains_status_bar() {
    let frame = render_frame(&sample_input(8, Vec::new(), None), 120, 40);
    let stripped = strip_ansi(&frame);
    assert!(stripped.contains("q: quit"));
    assert!(stripped.contains("ttop v0.1"));
}

#[test]
fn render_render_frame_contains_all_core_labels() {
    let input = sample_input(16, Vec::new(), None);
    let frame = render_frame(&input, 120, 60);
    let stripped = strip_ansi(&frame);
    for i in 0..input.cores.len() {
        assert!(
            stripped.contains(&format!("#{}", i)),
            "frame should contain label for core #{}",
            i
        );
    }
}

#[test]
fn render_render_frame_has_box_drawing_chars() {
    let frame = render_frame(&sample_input(4, Vec::new(), None), 120, 40);
    let stripped = strip_ansi(&frame);
    assert!(stripped.contains('╭'));
    assert!(stripped.contains('╮'));
    assert!(stripped.contains('╰'));
    assert!(stripped.contains('╯'));
}

#[test]
fn render_render_frame_contains_vertical_separator() {
    let frame = render_frame(&sample_input(4, Vec::new(), None), 120, 40);
    let stripped = strip_ansi(&frame);
    let lines: Vec<&str> = stripped.lines().collect();
    if lines.len() > 2 {
        let data_line = lines[2];
        let pipe_count = data_line.chars().filter(|&c| c == '│').count();
        assert!(pipe_count >= 3, "data row should have left border, separator, and right border");
    }
}

#[test]
fn render_render_frame_shows_temp_or_na() {
    let frame = render_frame(&sample_input(4, vec![sensor("Tctl", Some(" 46°C (115°F)"))], None), 120, 40);
    let stripped = strip_ansi(&frame);
    let has_temp = stripped.contains("°C") && stripped.contains("°F");
    let has_na = stripped.contains("N/A");
    assert!(has_temp || has_na, "frame should show temperature or N/A");
}

#[test]
fn render_render_frame_contains_memory_section() {
    let frame = render_frame(&sample_input(4, Vec::new(), None), 120, 60);
    let stripped = strip_ansi(&frame);
    assert!(stripped.contains("Memory"), "frame should contain Memory header");
}

#[test]
fn render_render_frame_contains_ram_and_swp_labels() {
    let frame = render_frame(&sample_input(4, Vec::new(), None), 120, 60);
    let stripped = strip_ansi(&frame);
    assert!(stripped.contains("RAM"), "frame should contain RAM label");
    assert!(stripped.contains("SWP"), "frame should contain SWP label");
}

#[test]
fn render_render_frame_memory_has_three_column_subtitles() {
    let frame = render_frame(&sample_input(4, Vec::new(), None), 120, 60);
    let stripped = strip_ansi(&frame);
    assert!(stripped.contains("RAM Utilization"), "frame should contain 'RAM Utilization' subtitle");
    assert!(stripped.contains("Swap Utilization"), "frame should contain 'Swap Utilization' subtitle");
}

