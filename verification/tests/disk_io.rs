use ttop::disk::io::{
    find_device, is_physical_disk, label_width, parse_diskstats, transferred_bytes, DiskIoEntry,
    IoCounters, record_peaks,
};

const DISKSTATS: &str = "   7       0 loop0 51 0 2118 12 0 0 0 0 0 28 12 0 0 0 0 0 0\n   8       0 sda 12345 10 987654 2000 5432 20 456789 3000 0 4000 5000 0 0 0 0 0 0\n   8       1 sda1 100 0 2000 10 50 0 1000 5 0 20 15 0 0 0 0 0 0\n 259       0 nvme0n1 200 0 4000 30 100 0 8000 40 0 50 70 0 0 0 0 0 0\n 253       0 dm-0 10 0 80 1 0 0 0 0 0 1 1 0 0 0 0 0 0\n  11       0 sr0 1 0 8 0 0 0 0 0 0 0 0\n   8      16 sdb 1 2\n";

fn block_devices() -> Vec<String> {
    vec!["loop0".to_string(), "sda".to_string(), "nvme0n1".to_string(), "dm-0".to_string(), "sr0".to_string(), "sdb".to_string()]
}

#[test]
fn parse_diskstats_returns_entries() {
    let entries = parse_diskstats(DISKSTATS, &block_devices());
    assert!(!entries.is_empty(), "should find at least one whole-disk device");
}

#[test]
fn parse_diskstats_excludes_partitions() {
    let blocks = block_devices();
    let entries = parse_diskstats(DISKSTATS, &blocks);
    for e in &entries {
        assert!(
            !e.device.ends_with(|c: char| c.is_ascii_digit()) || blocks.contains(&e.device),
            "device {} should be a whole disk (present in /sys/block/)",
            e.device
        );
    }
}

#[test]
fn parse_diskstats_excludes_virtual_devices() {
    let entries = parse_diskstats(DISKSTATS, &block_devices());
    let virtual_prefixes = ["loop", "ram", "dm-", "sr", "fd"];
    for e in &entries {
        assert!(
            !virtual_prefixes.iter().any(|p| e.device.starts_with(p)),
            "virtual device {} should be filtered out",
            e.device
        );
    }
}

#[test]
fn parse_diskstats_entries_have_nonempty_device() {
    let entries = parse_diskstats(DISKSTATS, &block_devices());
    for e in &entries {
        assert!(!e.device.is_empty());
    }
}

#[test]
fn disk_io_state_label_width_at_least_four() {
    let entries = parse_diskstats(DISKSTATS, &block_devices());
    let devices: Vec<String> = entries.iter().map(|e| e.device.clone()).collect();
    assert!(label_width(&devices) >= 4);
    assert!(label_width(&Vec::new()) >= 4);
}

#[test]
fn diskstats_keeps_whole_physical_disks_in_order() {
    let entries = parse_diskstats(DISKSTATS, &block_devices());
    assert_eq!(entries.len(), 2);
    assert_eq!(entries[0].device, "sda");
    assert_eq!(entries[0].read_sectors, 987654);
    assert_eq!(entries[0].write_sectors, 456789);
    assert_eq!(entries[1].device, "nvme0n1");
    assert_eq!(entries[1].read_sectors, 4000);
    assert_eq!(entries[1].write_sectors, 8000);
}

#[test]
fn physical_disk_needs_block_entry_and_no_virtual_prefix() {
    let blocks = block_devices();
    assert!(is_physical_disk(&"sda".chars().collect(), &blocks));
    assert!(!is_physical_disk(&"sda1".chars().collect(), &blocks));
    assert!(!is_physical_disk(&"loop0".chars().collect(), &blocks));
    assert!(!is_physical_disk(&"fd0".chars().collect(), &vec!["fd0".to_string()]));
}

#[test]
fn io_label_width_is_longest_name_plus_suffix() {
    assert_eq!(label_width(&vec!["sda".to_string()]), 4);
    assert_eq!(label_width(&vec!["sda".to_string(), "nvme0n1".to_string()]), 8);
}

#[test]
fn transferred_bytes_counts_sector_growth() {
    assert_eq!(transferred_bytes(100, 300), 200 * 512);
    assert_eq!(transferred_bytes(300, 100), 0);
}

#[test]
fn find_device_gives_first_match() {
    let entries = parse_diskstats(DISKSTATS, &block_devices());
    assert_eq!(find_device(&entries, "nvme0n1"), Some(1));
    assert_eq!(find_device(&entries, "sdb"), None);
}

fn entry(device: &str, read_sectors: u64, write_sectors: u64) -> DiskIoEntry {
    DiskIoEntry { device: device.to_string(), read_sectors, write_sectors }
}

#[test]
fn io_counters_report_bytes_from_the_second_reading_on() {
    let mut c = IoCounters::new(&vec![entry("sda", 100, 50), entry("nvme0n1", 10, 10)]);
    assert_eq!(c.devices, vec!["sda".to_string(), "nvme0n1".to_string()]);
    assert!(!c.has_prev);
    let first = c.advance(&vec![entry("sda", 110, 60), entry("nvme0n1", 12, 10)]);
    assert_eq!(first, vec![None, None]);
    assert!(c.has_prev);
    assert_eq!(c.read_sectors, vec![110, 12]);
    let second = c.advance(&vec![entry("nvme0n1", 20, 9), entry("sda", 111, 64)]);
    assert_eq!(second, vec![Some((512, 4 * 512)), Some((8 * 512, 0))]);
    assert_eq!(c.read_sectors, vec![111, 20]);
    assert_eq!(c.write_sectors, vec![64, 9]);
}

#[test]
fn io_counters_keep_a_missing_device() {
    let mut c = IoCounters::new(&vec![entry("sda", 100, 50), entry("sdb", 7, 7)]);
    c.advance(&vec![entry("sda", 100, 50), entry("sdb", 7, 7)]);
    let moved = c.advance(&vec![entry("sda", 101, 50)]);
    assert_eq!(moved, vec![Some((512, 0)), None]);
    assert_eq!(c.read_sectors, vec![101, 7]);
    assert_eq!(c.write_sectors, vec![50, 7]);
}

#[test]
fn record_peaks_keeps_the_largest_transfer() {
    let mut peaks = vec![0u64, 4096, 100];
    record_peaks(&mut peaks, &vec![Some((512, 1024)), Some((512, 0)), None]);
    assert_eq!(peaks, vec![1024, 4096, 100]);
    record_peaks(&mut peaks, &vec![Some((8192, 0)), Some((0, 5000)), Some((1, 2))]);
    assert_eq!(peaks, vec![8192, 5000, 100]);
}
