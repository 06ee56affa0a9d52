use ttop::ui::colors::{COLOR_GREEN, COLOR_RED};
use ttop::ui::frame::{Reading, Sensor, Series};
use ttop::ui::halves::{label_width, left_chart_width, render_frame, right_chart_width};
use ttop::ui::sparkline::Cell;

#[test]
fn ui_label_width_zero_cores() {
    assert_eq!(label_width(0), 2);
}

#[test]
fn ui_label_width_single_core() {
    assert_eq!(label_width(1), 2);
}

#[test]
fn ui_label_width_ten_cores() {
    assert_eq!(label_width(10), 2);
}

#[test]
fn ui_label_width_eleven_cores() {
    assert_eq!(label_width(11), 2);
}

#[test]
fn ui_label_width_hundred_cores() {
    assert_eq!(label_width(100), 2);
}

#[test]
fn ui_label_width_hundred_one_cores() {
    assert_eq!(label_width(101), 3);
}

#[test]
fn ui_label_width_thousand_cores() {
    assert_eq!(label_width(1000), 3);
}

#[test]
fn ui_label_width_thousand_one_cores() {
    assert_eq!(label_width(1001), 4);
}

#[test]
fn left_chart_width_standard() {
    let cw = left_chart_width(40, 2);
    assert_eq!(cw, 40 - 2 - 10);
}

#[test]
fn left_chart_width_very_narrow() {
    let cw = left_chart_width(5, 2);
    assert_eq!(cw, 8);
}

#[test]
fn right_chart_width_standard() {
    let cw = right_chart_width(40, 4);
    assert_eq!(cw, 40 - 4 - 19);
}

#[test]
fn right_chart_width_very_narrow() {
    let cw = right_chart_width(10, 4);
    assert_eq!(cw, 8);
}

fn core_series(pct: &str) -> Series {
    Series {
        cells: vec![
            Cell { glyph: '▁', color: COLOR_GREEN },
            Cell { glyph: '█', color: COLOR_RED },
        ],
        current: pct.to_string(),
        color: COLOR_RED,
    }
}

fn cores(n: usize) -> Vec<Series> {
    let mut v = Vec::new();
    for _ in 0..n {
        v.push(core_series(" 42"));
    }
    v
}

fn sensor(label: &str, reading: Option<&str>) -> Sensor {
    Sensor {
        label: label.to_string(),
        reading: Reading {
            cells: vec![Cell { glyph: '▃', color: COLOR_GREEN }],
            current: reading.map(|r| r.to_string()),
            color: COLOR_GREEN,
        },
    }
}

fn strip_ansi(s: &str) -> String {
    let mut result = String::with_capacity(s.len());
    let mut chars = s.chars();
    while let Some(c) = chars.next() {
        if c == '\x1b' {
            if let Some('[') = chars.next() {
                for c2 in chars.by_ref() {
                    if c2.is_ascii_alphabetic() {
                        break;
                    }
                }
            }
        } else {
            result.push(c);
        }
    }
    result
}

#[test]
fn ui_render_frame_contains_cpu_section() {
    let frame = render_frame(&cores(4), &vec![sensor("Tctl", Some(" 46°C (115°F)"))], 120, 40);
    let stripped = strip_ansi(&frame);
    assert!(stripped.contains("CPU"), "frame should contain CPU header");
}

#[test]
fn ui_render_frame_contains_status_bar() {
    let frame = render_frame(&cores(4), &Vec::new(), 120, 40);
    let stripped = strip_ansi(&frame);
    assert!(stripped.contains("q: quit"));
    assert!(stripped.contains("ttop v0.1"));
}

#[test]
fn ui_render_frame_contains_all_core_labels() {
    let cs = cores(12);
    let frame = render_frame(&cs, &Vec::new(), 120, 60);
    let stripped = strip_ansi(&frame);
    for i in 0..cs.len() {
        assert!(
            stripped.contains(&format!("{}", i)),
            "frame should contain label for core {}",
            i
        );
    }
}

#[test]
fn ui_render_frame_has_box_drawing_chars() {
    let frame = render_frame(&cores(2), &Vec::new(), 120, 40);
    let stripped = strip_ansi(&frame);
    assert!(stripped.contains('╭'));
    assert!(stripped.contains('╮'));
    assert!(stripped.contains('╰'));
    assert!(stripped.contains('╯'));
}

#[test]
fn ui_render_frame_contains_vertical_separator() {
    let frame = render_frame(&cores(2), &vec![sensor("Tctl", None)], 120, 40);
    let stripped = strip_ansi(&frame);
    let lines: Vec<&str> = stripped.lines().collect();
    if lines.len() > 2 {
        let data_line = lines[2];
        let pipe_count = data_line.chars().filter(|&c| c == '│').count();
        assert!(pipe_count >= 3, "data row should have left border, separator, and right border");
    }
}

#[test]
fn ui_render_frame_shows_temp_or_na() {
    let frame = render_frame(&cores(2), &Vec::new(), 120, 40);
    let stripped = strip_ansi(&frame);
    let has_temp = stripped.contains("°C") && stripped.contains("°F");
    let has_na = stripped.contains("N/A");
    assert!(has_temp || has_na, "frame should show temperature or N/A");
}

#[test]
fn halves_frame_lines_reach_the_status_bar() {
    let frame = render_frame(&cores(3), &Vec::new(), 80, 20);
    let stripped = strip_ansi(&frame);
    let lines: Vec<&str> = stripped.split("\r\n").collect();
    assert_eq!(lines.len(), 20);
    assert!(lines[19].ends_with("q: quit  ttop v0.1"));
    assert_eq!(lines[19].chars().count(), 80);
}

#[test]
fn halves_frame_sensor_rows_are_top_aligned() {
    let frame = render_frame(&cores(3), &vec![sensor("Core 0", Some(" 50°C (122°F)"))], 80, 20);
    let stripped = strip_ansi(&frame);
    let lines: Vec<&str> = stripped.split("\r\n").collect();
    assert!(lines[2].starts_with("│  0 "));
    assert!(lines[2].contains("Core 0"));
    assert!(lines[2].contains(" 50°C (122°F)"));
    assert!(lines[3].starts_with("│  1 "));
    assert!(!lines[3].contains("°C"));
    assert!(lines[3].ends_with('│'));
}

#[test]
fn halves_frame_counts_line_ends_with_line_feeds_in_labels() {
    let sensors = vec![sensor("Tc\ntl", Some(" 50°C (122°F)")), sensor("\nx\r", None)];
    for rows in [5u16, 20] {
        let frame = render_frame(&cores(3), &sensors, 80, rows);
        assert_eq!(frame.matches("\r\n").count(), std::cmp::max(7, rows as usize - 1));
    }
}
