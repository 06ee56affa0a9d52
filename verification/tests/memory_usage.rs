use ttop::memory::usage::{format_human_bytes, format_mem_pair, max_mem_pair_width, parse_meminfo, MemInfo};

const MEMINFO: &str = "MemTotal:       16384000 kB\nMemFree:         1024000 kB\nMemAvailable:    8192000 kB\nBuffers:          512000 kB\nSwapTotal:       8192000 kB\nSwapFree:        7700000 kB\n";

#[test]
fn parse_meminfo_returns_nonzero_mem_total() {
    let info = parse_meminfo(MEMINFO);
    assert!(info.mem_total_kb > 0, "MemTotal should be nonzero");
}

#[test]
fn parse_meminfo_mem_available_le_total() {
    let info = parse_meminfo(MEMINFO);
    assert!(
        info.mem_available_kb <= info.mem_total_kb,
        "MemAvailable ({}) should not exceed MemTotal ({})",
        info.mem_available_kb,
        info.mem_total_kb
    );
}

#[test]
fn parse_meminfo_swap_free_le_total() {
    let info = parse_meminfo(MEMINFO);
    assert!(
        info.swap_free_kb <= info.swap_total_kb || info.swap_total_kb == 0,
        "SwapFree ({}) should not exceed SwapTotal ({})",
        info.swap_free_kb,
        info.swap_total_kb
    );
}

#[test]
fn format_human_bytes_kilobytes() {
    assert_eq!(format_human_bytes(512), "512KB");
}

#[test]
fn format_human_bytes_megabytes() {
    assert_eq!(format_human_bytes(1500), "1.5MB");
}

#[test]
fn format_human_bytes_megabytes_exact() {
    assert_eq!(format_human_bytes(1024), "1.0MB");
}

#[test]
fn format_human_bytes_gigabytes() {
    assert_eq!(format_human_bytes(16_777_216), "16.0GB");
}

#[test]
fn format_human_bytes_terabytes() {
    let one_tb_in_kb = 1024 * 1024 * 1024;
    assert_eq!(format_human_bytes(one_tb_in_kb), "1.0TB");
}

#[test]
fn format_human_bytes_zero() {
    assert_eq!(format_human_bytes(0), "0KB");
}

#[test]
fn format_mem_pair_gigabyte_range() {
    let total = 16_777_216;
    let used = total / 2;
    let text = format_mem_pair(used, total);
    assert!(text.ends_with("GB"), "should use GB unit, got {}", text);
    assert!(text.contains('/'), "should have slash separator, got {}", text);
}

#[test]
fn format_mem_pair_zero_total() {
    assert_eq!(format_mem_pair(0, 0), "0.0GB/0.0GB");
}

#[test]
fn format_mem_pair_zero_used() {
    let total = 8_388_608;
    let text = format_mem_pair(0, total);
    assert!(text.starts_with("0KB/") || text.starts_with("0.0"), "got {}", text);
    assert_eq!(text, "0KB/8.0GB");
}

#[test]
fn format_mem_pair_mixed_units() {
    let used_kb = 8_388_608;
    let total_kb = 1024 * 1024 * 1024;
    assert_eq!(format_mem_pair(used_kb, total_kb), "8.0GB/1.0TB");
}

#[test]
fn meminfo_fields_parse_from_their_lines() {
    let info = parse_meminfo(MEMINFO);
    assert_eq!(info.mem_total_kb, 16384000);
    assert_eq!(info.mem_available_kb, 8192000);
    assert_eq!(info.swap_total_kb, 8192000);
    assert_eq!(info.swap_free_kb, 7700000);
    assert_eq!(info.ram_used_kb(), 8192000);
    assert_eq!(info.swap_used_kb(), 492000);
}

#[test]
fn meminfo_missing_or_malformed_fields_stay_zero() {
    let info = parse_meminfo("MemTotal: abc kB\nSwapTotal:\nSwapFree: 12 kB\n");
    assert_eq!(info.mem_total_kb, 0);
    assert_eq!(info.mem_available_kb, 0);
    assert_eq!(info.swap_total_kb, 0);
    assert_eq!(info.swap_free_kb, 12);
    assert_eq!(info.swap_used_kb(), 0);
}

#[test]
fn human_bytes_rounds_to_one_decimal() {
    assert_eq!(format_human_bytes(1075), "1.0MB");
    assert_eq!(format_human_bytes(1126), "1.1MB");
    assert_eq!(format_human_bytes(1023), "1023KB");
    assert_eq!(format_human_bytes(1280), "1.2MB");
    assert_eq!(format_human_bytes(1792), "1.8MB");
}

#[test]
fn mem_pair_width_covers_every_used_amount() {
    let total = 16_384_000;
    let w = max_mem_pair_width(total);
    for used in [0u64, 1, 1023, 1024, 1_048_575, 1_048_576, 8_192_000, total] {
        assert!(format_mem_pair(used, total).len() <= w);
    }
    assert_eq!(max_mem_pair_width(0), 11);
}
