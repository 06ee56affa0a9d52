use ttop::disk::space::{abs_width, label_width, parse_proc_mounts, statvfs_usage};
use ttop::memory::usage::{format_mem_pair, max_mem_pair_width};

const MOUNTS: &str = "sysfs /sys sysfs rw,nosuid 0 0\nproc /proc proc rw 0 0\n/dev/nvme0n1p2 / ext4 rw,relatime 0 0\ntmpfs /run tmpfs rw 0 0\n/dev/nvme0n1p1 /boot/efi vfat rw 0 0\n/dev/loop3 /snap/core squashfs ro 0 0\n/dev/sda1 /home xfs rw 0 0\n/dev/sdb1 /home ext4 rw 0 0\noverlay /var/lib/docker overlay rw 0 0\n/dev/mapper/root /data ext4 rw 0 0\n";

#[test]
fn parse_proc_mounts_returns_at_least_root() {
    let mounts = parse_proc_mounts(MOUNTS);
    let has_root = mounts.iter().any(|m| m.mount_point == "/");
    assert!(has_root, "root filesystem should always be present");
}

#[test]
fn parse_proc_mounts_filters_virtual_filesystems() {
    let mounts = parse_proc_mounts(MOUNTS);
    for m in &mounts {
        assert_ne!(m.fs_type, "sysfs", "sysfs should be filtered out");
        assert_ne!(m.fs_type, "proc", "proc should be filtered out");
        assert_ne!(m.fs_type, "tmpfs", "tmpfs should be filtered out");
        assert_ne!(m.fs_type, "devtmpfs", "devtmpfs should be filtered out");
        assert_ne!(m.fs_type, "squashfs", "squashfs should be filtered out");
        assert_ne!(m.fs_type, "fuse.snapfuse", "fuse.snapfuse should be filtered out");
    }
}

#[test]
fn parse_proc_mounts_only_physical_devices() {
    let mounts = parse_proc_mounts(MOUNTS);
    let physical_prefixes = ["/dev/sd", "/dev/nvme", "/dev/vd", "/dev/hd", "/dev/xvd", "/dev/mmcblk"];
    for m in &mounts {
        assert!(
            physical_prefixes.iter().any(|p| m.device.starts_with(p)),
            "device {} should have a physical device prefix",
            m.device
        );
    }
}

#[test]
fn parse_proc_mounts_no_duplicate_mount_points() {
    let mounts = parse_proc_mounts(MOUNTS);
    let mut seen = Vec::new();
    for m in &mounts {
        assert!(!seen.contains(&m.mount_point), "duplicate mount point: {}", m.mount_point);
        seen.push(m.mount_point.clone());
    }
}

#[test]
fn parse_proc_mounts_entries_have_nonempty_fields() {
    let mounts = parse_proc_mounts(MOUNTS);
    for m in &mounts {
        assert!(!m.device.is_empty(), "device should not be empty");
        assert!(!m.mount_point.is_empty(), "mount_point should not be empty");
        assert!(!m.fs_type.is_empty(), "fs_type should not be empty");
    }
}

#[test]
fn disk_space_state_abs_width_covers_all_used_values() {
    let totals: Vec<u64> = vec![488_281_250, 524_288, 2_147_483_648];
    let fixed_w = abs_width(&totals);
    for i in 0..totals.len() {
        let total = totals[i];
        let test_values: &[u64] = &[0, 1023, 1024, 1_048_575, 1_048_576, total];
        for &used in test_values {
            if used > total {
                continue;
            }
            let text = format_mem_pair(used, total);
            assert!(
                text.len() <= fixed_w,
                "disk mount {i}: format_mem_pair({used}, {total}) = \"{text}\" ({} chars) exceeds fixed width {fixed_w}",
                text.len()
            );
        }
    }
}

#[test]
fn disk_space_state_abs_width_equals_max_mem_pair_width() {
    let totals: Vec<u64> = vec![488_281_250, 524_288, 2_147_483_648];
    let expected = totals.iter().map(|&total| max_mem_pair_width(total)).max().unwrap_or(0);
    assert_eq!(abs_width(&totals), expected);
    assert_eq!(abs_width(&Vec::new()), 0);
}

#[test]
fn mounts_keep_first_of_each_mount_point_in_order() {
    let mounts = parse_proc_mounts(MOUNTS);
    let points: Vec<&str> = mounts.iter().map(|m| m.mount_point.as_str()).collect();
    assert_eq!(points, vec!["/", "/boot/efi", "/home"]);
    assert_eq!(mounts[2].device, "/dev/sda1");
    assert_eq!(mounts[2].fs_type, "xfs");
}

#[test]
fn statvfs_usage_converts_fragments_to_kb() {
    assert_eq!(statvfs_usage(1000, 250, 4096), Some((3000, 4000)));
    assert_eq!(statvfs_usage(1, 0, 512), None);
    assert_eq!(statvfs_usage(10, 20, 1024), Some((0, 10)));
}

#[test]
fn mount_label_width_is_longest_mount_point() {
    assert_eq!(label_width(&vec!["/".to_string(), "/boot/efi".to_string()]), 9);
    assert_eq!(label_width(&Vec::new()), 1);
}
