use ttop::ui::colors::{COLOR_GREEN, COLOR_ORANGE, COLOR_YELLOW};
use ttop::ui::gpu::{
    render_gpu_mem_col_inner, render_gpu_subtitle_line, render_gpu_temp_col_right,
    render_gpu_util_col_first,
};
use ttop::ui::sparkline::Cell;

fn strip_ansi(s: &str) -> String {
    let mut result = String::with_capacity(s.len());
    let mut chars = s.chars();
    while let Some(c) = chars.next() {
        if c == '\x1b' {
            if let Some('[') = chars.next() {
                for c2 in chars.by_ref() {
                    if c2.is_ascii_alphabetic() {
                        break;
                    }
                }
            }
        } else {
            result.push(c);
        }
    }
    result
}

fn cells(n: usize) -> Vec<Cell> {
    let mut v = Vec::new();
    for _ in 0..n {
        v.push(Cell { glyph: '▆', color: COLOR_ORANGE });
    }
    v
}

#[test]
fn render_gpu_util_col_first_contains_use_label() {
    let mut buf = String::new();
    render_gpu_util_col_first(&mut buf, &cells(1), " 72", COLOR_ORANGE, 10, 30);
    let stripped = strip_ansi(&buf);
    assert!(stripped.contains("USE"), "should contain USE label");
    assert!(stripped.contains("72%"), "should contain percentage");
}

#[test]
fn render_gpu_util_col_first_starts_with_border() {
    let mut buf = String::new();
    render_gpu_util_col_first(&mut buf, &cells(0), "  0", COLOR_GREEN, 10, 30);
    let stripped = strip_ansi(&buf);
    assert!(stripped.starts_with('│'), "first column should start with border");
}

#[test]
fn render_gpu_util_col_first_empty_history_shows_zero() {
    let mut buf = String::new();
    render_gpu_util_col_first(&mut buf, &cells(0), "  0", COLOR_GREEN, 10, 30);
    let stripped = strip_ansi(&buf);
    assert!(stripped.contains("0%"), "empty history should show 0%");
}

#[test]
fn render_gpu_mem_col_inner_contains_mem_label_and_abs() {
    let mut buf = String::new();
    render_gpu_mem_col_inner(&mut buf, &cells(1), 10, "4.2GB/24.0GB", " 40", COLOR_YELLOW, 35);
    let stripped = strip_ansi(&buf);
    assert!(stripped.contains("MEM"), "should contain MEM label");
    assert!(stripped.contains("40%"), "should contain percentage");
    assert!(stripped.contains("4.2GB/24.0GB"), "should contain absolute values");
}

#[test]
fn render_gpu_mem_col_inner_does_not_start_with_border() {
    let mut buf = String::new();
    render_gpu_mem_col_inner(&mut buf, &cells(0), 10, "0KB/0KB", "  0", COLOR_GREEN, 30);
    let stripped = strip_ansi(&buf);
    assert!(!stripped.starts_with('│'), "inner column should not start with border");
}

#[test]
fn render_gpu_temp_col_right_contains_celsius_and_fahrenheit() {
    let mut buf = String::new();
    render_gpu_temp_col_right(&mut buf, &cells(1), Some(" 52°C (126°F)"), COLOR_YELLOW, 10, 40);
    let stripped = strip_ansi(&buf);
    assert!(stripped.contains("TMP"), "should contain TMP label");
    assert!(stripped.contains("°C"), "should contain °C");
    assert!(stripped.contains("°F"), "should contain °F");
}

#[test]
fn render_gpu_temp_col_right_empty_history_shows_na() {
    let mut buf = String::new();
    render_gpu_temp_col_right(&mut buf, &cells(0), None, COLOR_GREEN, 10, 40);
    let stripped = strip_ansi(&buf);
    assert!(stripped.contains("N/A"), "empty history should show N/A");
}

#[test]
fn render_gpu_temp_col_right_ends_with_border() {
    let mut buf = String::new();
    render_gpu_temp_col_right(&mut buf, &cells(1), Some(" 50°C (122°F)"), COLOR_YELLOW, 10, 40);
    let stripped = strip_ansi(&buf);
    assert!(stripped.ends_with('│'), "should end with right border");
}

#[test]
fn render_gpu_subtitle_line_contains_all_titles() {
    let mut buf = String::new();
    render_gpu_subtitle_line(&mut buf, 30, 30, 30);
    let stripped = strip_ansi(&buf);
    assert!(stripped.contains("GPU Utilization"), "should contain GPU Utilization");
    assert!(stripped.contains("VRAM Utilization"), "should contain VRAM Utilization");
    assert!(stripped.contains("Temperature"), "should contain Temperature");
}

#[test]
fn render_gpu_subtitle_line_has_borders() {
    let mut buf = String::new();
    render_gpu_subtitle_line(&mut buf, 30, 30, 30);
    let stripped = strip_ansi(&buf);
    let border_count = stripped.chars().filter(|&c| c == '│').count();
    assert_eq!(border_count, 4, "subtitle line should have 4 borders");
}

#[test]
fn render_gpu_subtitle_line_ends_with_newline() {
    let mut buf = String::new();
    render_gpu_subtitle_line(&mut buf, 30, 30, 30);
    assert!(buf.ends_with("\r\n"), "subtitle line should end with CRLF");
}

#[test]
fn gpu_util_col_layout_is_exact() {
    let mut buf = String::new();
    render_gpu_util_col_first(&mut buf, &cells(2), " 72", COLOR_ORANGE, 3, 20);
    let stripped = strip_ansi(&buf);
    assert_eq!(stripped, "│ USE ▁▆▆  72%      ");
}
