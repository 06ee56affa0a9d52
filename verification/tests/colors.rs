use ttop::ui::colors::{
    utilization_level,
    sparkline_glyph, temperature_band_color, utilization_band_color, COLOR_GREEN, COLOR_ORANGE,
    COLOR_RED, COLOR_YELLOW, SPARKLINE_CHARS,
};

#[test]
fn colors_utilization_color_green_range() {
    assert_eq!(utilization_band_color(0.0 as u32), COLOR_GREEN);
    assert_eq!(utilization_band_color(12.0 as u32), COLOR_GREEN);
    assert_eq!(utilization_band_color(25.0 as u32), COLOR_GREEN);
}

#[test]
fn colors_utilization_color_yellow_range() {
    assert_eq!(utilization_band_color(26.0 as u32), COLOR_YELLOW);
    assert_eq!(utilization_band_color(38.0 as u32), COLOR_YELLOW);
    assert_eq!(utilization_band_color(50.0 as u32), COLOR_YELLOW);
}

#[test]
fn colors_utilization_color_orange_range() {
    assert_eq!(utilization_band_color(51.0 as u32), COLOR_ORANGE);
    assert_eq!(utilization_band_color(63.0 as u32), COLOR_ORANGE);
    assert_eq!(utilization_band_color(75.0 as u32), COLOR_ORANGE);
}

#[test]
fn colors_utilization_color_red_range() {
    assert_eq!(utilization_band_color(76.0 as u32), COLOR_RED);
    assert_eq!(utilization_band_color(90.0 as u32), COLOR_RED);
    assert_eq!(utilization_band_color(100.0 as u32), COLOR_RED);
}

#[test]
fn colors_temperature_color_green_range() {
    assert_eq!(temperature_band_color(30.0 as u32), COLOR_GREEN);
    assert_eq!(temperature_band_color(49.0 as u32), COLOR_GREEN);
}

#[test]
fn colors_temperature_color_yellow_range() {
    assert_eq!(temperature_band_color(50.0 as u32), COLOR_YELLOW);
    assert_eq!(temperature_band_color(69.0 as u32), COLOR_YELLOW);
}

#[test]
fn colors_temperature_color_orange_range() {
    assert_eq!(temperature_band_color(70.0 as u32), COLOR_ORANGE);
    assert_eq!(temperature_band_color(84.0 as u32), COLOR_ORANGE);
}

#[test]
fn colors_temperature_color_red_range() {
    assert_eq!(temperature_band_color(85.0 as u32), COLOR_RED);
    assert_eq!(temperature_band_color(100.0 as u32), COLOR_RED);
}

#[test]
fn sparkline_glyph_levels_clamp_to_full_block() {
    assert_eq!(sparkline_glyph(0), '▁');
    assert_eq!(sparkline_glyph(3), SPARKLINE_CHARS[3]);
    assert_eq!(sparkline_glyph(7), '█');
    assert_eq!(sparkline_glyph(12), '█');
}

#[test]
fn utilization_level_follows_the_band_table() {
    let bands = [(0, 0), (12, 0), (13, 1), (25, 1), (26, 2), (37, 2), (38, 3), (50, 3), (51, 4), (62, 4), (63, 5), (75, 5), (76, 6), (87, 6), (88, 7), (100, 7), (150, 7)];
    for (pct, level) in bands {
        assert_eq!(utilization_level(pct), level, "{pct}%");
    }
}
