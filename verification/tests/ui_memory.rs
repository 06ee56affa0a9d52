use ttop::ui::colors::{COLOR_DIM_GRAY, COLOR_GREEN, COLOR_YELLOW};
use ttop::ui::memory::{render_mem_col_first, render_mem_col_inner, render_mem_subtitle_line};
use ttop::ui::sparkline::Cell;

fn strip_ansi(s: &str) -> String {
    let mut result = String::with_capacity(s.len());
    let mut chars = s.chars();
    while let Some(c) = chars.next() {
        if c == '\x1b' {
            if let Some('[') = chars.next() {
                for c2 in chars.by_ref() {
                    if c2.is_ascii_alphabetic() {
                        break;
                    }
                }
            }
        } else {
            result.push(c);
        }
    }
    result
}

fn cells(n: usize) -> Vec<Cell> {
    let mut v = Vec::new();
    for _ in 0..n {
        v.push(Cell { glyph: '▃', color: COLOR_YELLOW });
    }
    v
}

#[test]
fn render_mem_col_first_contains_label_and_percentage() {
    let mut buf = String::new();
    render_mem_col_first(&mut buf, "RAM", &cells(1), 10, "5.1GB/16.0GB", " 35", COLOR_YELLOW, 40, false);
    let stripped = strip_ansi(&buf);
    assert!(stripped.contains("RAM"), "should contain RAM label");
    assert!(stripped.contains("35%"), "should contain percentage");
    assert!(stripped.contains("5.1GB/16.0GB"), "should contain absolute values");
}

#[test]
fn render_mem_col_first_starts_with_border() {
    let mut buf = String::new();
    render_mem_col_first(&mut buf, "RAM", &cells(0), 10, "0KB/0KB", "  0", COLOR_GREEN, 30, false);
    let stripped = strip_ansi(&buf);
    assert!(stripped.starts_with('│'), "first column should start with border");
}

#[test]
fn render_mem_col_first_dim_mode() {
    let mut buf = String::new();
    render_mem_col_first(&mut buf, "SWP", &cells(0), 10, "0.0GB/0.0GB", "  0", COLOR_GREEN, 40, true);
    let stripped = strip_ansi(&buf);
    assert!(stripped.contains("SWP"), "should contain SWP label");
    assert!(stripped.contains("0%"), "dim mode should show 0%");
}

#[test]
fn render_mem_col_inner_contains_label_and_percentage() {
    let mut buf = String::new();
    render_mem_col_inner(&mut buf, "SWP", &cells(1), 10, "0.5GB/8.0GB", "  6", COLOR_GREEN, 35, false);
    let stripped = strip_ansi(&buf);
    assert!(stripped.contains("SWP"), "should contain SWP label");
    assert!(stripped.contains("6%"), "should contain percentage");
    assert!(stripped.contains("0.5GB/8.0GB"), "should contain absolute values");
}

#[test]
fn render_mem_col_inner_does_not_start_with_border() {
    let mut buf = String::new();
    render_mem_col_inner(&mut buf, "SWP", &cells(0), 10, "0KB/0KB", "  0", COLOR_GREEN, 30, false);
    let stripped = strip_ansi(&buf);
    assert!(!stripped.starts_with('│'), "inner column should not start with border");
}

#[test]
fn render_mem_col_inner_dim_mode() {
    let mut buf = String::new();
    render_mem_col_inner(&mut buf, "SWP", &cells(0), 10, "0.0GB/0.0GB", "  0", COLOR_GREEN, 35, true);
    let stripped = strip_ansi(&buf);
    assert!(stripped.contains("SWP"), "should contain SWP label");
    assert!(stripped.contains("0%"), "dim mode should show 0%");
}

#[test]
fn render_mem_subtitle_line_contains_all_titles() {
    let mut buf = String::new();
    render_mem_subtitle_line(&mut buf, 30, 30, 30);
    let stripped = strip_ansi(&buf);
    assert!(stripped.contains("RAM Utilization"), "should contain RAM Utilization");
    assert!(stripped.contains("Swap Utilization"), "should contain Swap Utilization");
    assert!(stripped.contains("Temperature"), "should contain Temperature");
}

#[test]
fn render_mem_subtitle_line_has_borders() {
    let mut buf = String::new();
    render_mem_subtitle_line(&mut buf, 30, 30, 30);
    let stripped = strip_ansi(&buf);
    let border_count = stripped.chars().filter(|&c| c == '│').count();
    assert_eq!(border_count, 4, "subtitle line should have 4 borders (left + 3 separators)");
}

#[test]
fn render_mem_subtitle_line_ends_with_newline() {
    let mut buf = String::new();
    render_mem_subtitle_line(&mut buf, 30, 30, 30);
    assert!(buf.ends_with("\r\n"), "subtitle line should end with CRLF");
}

#[test]
fn mem_col_dim_mode_greys_out_chart_and_amounts() {
    let mut buf = String::new();
    render_mem_col_inner(&mut buf, "SWP", &cells(3), 4, "0.0GB/0.0GB", "  0", COLOR_YELLOW, 30, true);
    let stripped = strip_ansi(&buf);
    assert_eq!(stripped, " SWP ▁▁▁▁ 0.0GB/0.0GB    0%   ");
    assert!(!buf.contains(COLOR_YELLOW));
    assert!(buf.contains(&format!("{}0.0GB/0.0GB", COLOR_DIM_GRAY)));
}

#[test]
fn mem_subtitle_centres_titles() {
    let mut buf = String::new();
    render_mem_subtitle_line(&mut buf, 19, 20, 13);
    let stripped = strip_ansi(&buf);
    assert_eq!(stripped, "│  RAM Utilization  │  Swap Utilization  │ Temperature │\r\n");
}
