use ttop::ui::colors::{COLOR_GREEN, COLOR_ORANGE, COLOR_YELLOW};
use ttop::ui::cpu::{
    render_empty_col, render_empty_first_col, render_empty_right_half, render_na_temp_row,
    render_temp_row, render_util_row, render_util_row_inner,
};
use ttop::ui::sparkline::Cell;

fn strip_ansi(s: &str) -> String {
    let mut result = String::with_capacity(s.len());
    let mut chars = s.chars();
    while let Some(c) = chars.next() {
        if c == '\x1b' {
            if let Some('[') = chars.next() {
                for c2 in chars.by_ref() {
                    if c2.is_ascii_alphabetic() {
                        break;
                    }
                }
            }
        } else {
            result.push(c);
        }
    }
    result
}

fn cell(glyph: char) -> Cell {
    Cell { glyph, color: COLOR_GREEN }
}

#[test]
fn render_util_row_contains_label_and_percentage() {
    let cells = vec![cell('▄')];
    let mut buf = String::new();
    render_util_row(&mut buf, "#0", 2, &cells, " 42", COLOR_YELLOW, 10, 30);
    let stripped = strip_ansi(&buf);
    assert!(stripped.contains("#0"), "should contain core label");
    assert!(stripped.contains("42%"), "should contain percentage");
}

#[test]
fn render_util_row_empty_history_shows_zero() {
    let cells: Vec<Cell> = Vec::new();
    let mut buf = String::new();
    render_util_row(&mut buf, "#0", 2, &cells, "  0", COLOR_GREEN, 10, 30);
    let stripped = strip_ansi(&buf);
    assert!(stripped.contains("0%"), "empty history should show 0%");
}

#[test]
fn render_util_row_inner_contains_label_and_percentage() {
    let cells = vec![cell('▆')];
    let mut buf = String::new();
    render_util_row_inner(&mut buf, "#3", 2, &cells, " 75", COLOR_ORANGE, 10, 25);
    let stripped = strip_ansi(&buf);
    assert!(stripped.contains("#3"), "should contain core label");
    assert!(stripped.contains("75%"), "should contain percentage");
}

#[test]
fn render_util_row_inner_does_not_start_with_border() {
    let cells: Vec<Cell> = Vec::new();
    let mut buf = String::new();
    render_util_row_inner(&mut buf, "#1", 2, &cells, "  0", COLOR_GREEN, 10, 25);
    let stripped = strip_ansi(&buf);
    assert!(!stripped.starts_with('│'), "inner row should not start with border");
}

#[test]
fn render_empty_first_col_has_border() {
    let mut buf = String::new();
    render_empty_first_col(&mut buf, 20);
    let stripped = strip_ansi(&buf);
    assert!(stripped.starts_with('│'), "should start with left border");
    assert_eq!(stripped.chars().count(), 20, "should be exactly section_width chars");
}

#[test]
fn render_empty_col_is_all_spaces() {
    let mut buf = String::new();
    render_empty_col(&mut buf, 15);
    assert_eq!(buf.len(), 15);
    assert!(buf.chars().all(|c| c == ' '), "should be all spaces");
}

#[test]
fn render_empty_right_half_ends_with_border() {
    let mut buf = String::new();
    render_empty_right_half(&mut buf, 20);
    let stripped = strip_ansi(&buf);
    assert!(stripped.ends_with('│'), "should end with right border");
}

#[test]
fn render_temp_row_contains_celsius_and_fahrenheit() {
    let cells = vec![cell('▄')];
    let mut buf = String::new();
    render_temp_row(&mut buf, "Tctl", 4, &cells, Some(" 65°C (149°F)"), COLOR_YELLOW, 10, 40);
    let stripped = strip_ansi(&buf);
    assert!(stripped.contains("°C"), "should contain °C");
    assert!(stripped.contains("°F"), "should contain °F");
    assert!(stripped.contains("Tctl"), "should contain sensor label");
}

#[test]
fn render_temp_row_empty_history_shows_na() {
    let cells: Vec<Cell> = Vec::new();
    let mut buf = String::new();
    render_temp_row(&mut buf, "Tctl", 4, &cells, None, COLOR_GREEN, 10, 40);
    let stripped = strip_ansi(&buf);
    assert!(stripped.contains("N/A"), "empty history should show N/A");
}

#[test]
fn render_temp_row_ends_with_border() {
    let cells = vec![cell('▃')];
    let mut buf = String::new();
    render_temp_row(&mut buf, "Tctl", 4, &cells, Some(" 50°C (122°F)"), COLOR_YELLOW, 10, 40);
    let stripped = strip_ansi(&buf);
    assert!(stripped.ends_with('│'), "should end with right border");
}

#[test]
fn render_na_temp_row_shows_na() {
    let mut buf = String::new();
    render_na_temp_row(&mut buf, 3, 10, 40);
    let stripped = strip_ansi(&buf);
    assert!(stripped.contains("N/A°C"), "should contain N/A°C");
    assert!(stripped.contains("N/A°F"), "should contain N/A°F");
}

#[test]
fn render_na_temp_row_ends_with_border() {
    let mut buf = String::new();
    render_na_temp_row(&mut buf, 3, 10, 40);
    let stripped = strip_ansi(&buf);
    assert!(stripped.ends_with('│'), "should end with right border");
}

#[test]
fn render_util_row_sparkline_fills_chart_width() {
    let cells = vec![cell('▁'), cell('▂'), cell('▄'), cell('▅'), cell('▇')];
    let mut buf = String::new();
    render_util_row(&mut buf, "#0", 2, &cells, " 80", COLOR_ORANGE, 10, 30);
    let stripped = strip_ansi(&buf);
    let sparkline_chars: Vec<char> = "▁▂▃▄▅▆▇█".chars().collect();
    let sparkline_count = stripped.chars().filter(|c| sparkline_chars.contains(c)).count();
    assert_eq!(sparkline_count, 10, "chart should fill the full chart width with sparkline chars");
}

#[test]
fn util_row_shows_only_the_newest_samples() {
    let cells = vec![cell('█'), cell('▂'), cell('▃')];
    let mut buf = String::new();
    render_util_row(&mut buf, "#0", 2, &cells, " 30", COLOR_YELLOW, 2, 20);
    let stripped = strip_ansi(&buf);
    assert_eq!(stripped, "│ #0 ▂▃  30%        ");
    assert_eq!(stripped.chars().count(), 20);
}

#[test]
fn temp_row_right_aligns_label_and_pads_to_width() {
    let cells = vec![cell('▃')];
    let mut buf = String::new();
    render_temp_row(&mut buf, "T", 4, &cells, Some(" 46°C (115°F)"), COLOR_GREEN, 3, 30);
    let stripped = strip_ansi(&buf);
    assert_eq!(stripped, "    T ▁▁▃  46°C (115°F)      │");
    assert_eq!(stripped.chars().count(), 30);
}
