use ttop::ui::colors::{COLOR_GREEN, COLOR_YELLOW};
use ttop::ui::disk::{render_disk_io_col_right, render_disk_space_col_first, render_disk_subtitle_line};
use ttop::ui::sparkline::Cell;

#[test]
fn render_disk_subtitle_line_contains_titles() {
    let mut buf = String::new();
    render_disk_subtitle_line(&mut buf, 40, 30);
    assert!(buf.contains("Space"), "should contain Space subtitle");
    assert!(buf.contains("I/O"), "should contain I/O subtitle");
}

#[test]
fn render_disk_space_col_first_smoke() {
    let mut buf = String::new();
    let cells = vec![Cell { glyph: '▄', color: COLOR_YELLOW }];
    render_disk_space_col_first(&mut buf, "/", 5, &cells, 10, "120.5GB/500.0GB", " 45", COLOR_YELLOW, 50);
    assert!(!buf.is_empty());
    assert!(buf.contains('/'), "should contain mount label");
    assert!(buf.contains("45%"), "should contain percentage");
}

#[test]
fn render_disk_space_col_first_empty_history() {
    let mut buf = String::new();
    let cells: Vec<Cell> = Vec::new();
    render_disk_space_col_first(&mut buf, "/home", 5, &cells, 10, "0KB/500.0GB", "  0", COLOR_GREEN, 50);
    assert!(!buf.is_empty());
    assert!(buf.contains("0%"), "should show 0% for empty history");
}

#[test]
fn render_disk_io_col_right_smoke() {
    let mut buf = String::new();
    let cells = vec![Cell { glyph: '▄', color: COLOR_YELLOW }];
    render_disk_io_col_right(&mut buf, "sdaR", 5, &cells, 10, "50.0MB/s", COLOR_YELLOW, 9, 40);
    assert!(!buf.is_empty());
    assert!(buf.contains("sda"), "should contain device label");
    assert!(buf.contains("MB/s"), "should contain rate unit");
}

#[test]
fn render_disk_io_col_right_zero_throughput() {
    let mut buf = String::new();
    let cells = vec![Cell { glyph: '▁', color: COLOR_GREEN }];
    render_disk_io_col_right(&mut buf, "sdaW", 5, &cells, 10, "0B/s", COLOR_GREEN, 6, 40);
    assert!(!buf.is_empty());
    assert!(buf.contains("0B/s"), "should show zero rate");
}
