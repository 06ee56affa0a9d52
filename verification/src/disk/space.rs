//! Mounted physical filesystems from `/proc/mounts`, and their usage.
use vstd::prelude::*;

use crate::disk::io::{byte_len, names};
use crate::memory::usage::{max_mem_pair_width, max_pair_width, mem_pair};
use crate::text::{
    chars_eq, chars_of, chars_start_with, deep_chars, lines, split_lines, split_words,
    starts_with, string_of, words,
};

verus! {

/// One mounted filesystem.
#[derive(Debug)]
pub struct MountEntry {
    pub device: String,
    pub mount_point: String,
    pub fs_type: String,
}

impl View for MountEntry {
    type V = (Seq<char>, Seq<char>, Seq<char>);

    open spec fn view(&self) -> (Seq<char>, Seq<char>, Seq<char>) {
        (self.device@, self.mount_point@, self.fs_type@)
    }
}

/// Filesystem types that hold no disk space of their own.
pub open spec fn virtual_fs_types() -> Seq<Seq<char>> {
    seq![
        "autofs"@, "bpf"@, "cgroup"@, "cgroup2"@, "configfs"@, "debugfs"@, "devpts"@,
        "devtmpfs"@, "efivarfs"@, "fuse.gvfsd-fuse"@, "fuse.portal"@, "fuse.snapfuse"@,
        "fusectl"@, "hugetlbfs"@, "mqueue"@, "nsfs"@, "overlay"@, "proc"@, "pstore"@,
        "ramfs"@, "securityfs"@, "squashfs"@, "sysfs"@, "tmpfs"@, "tracefs"@,
    ]
}

/// Device paths of SCSI/SATA, NVMe, virtio, IDE, Xen and MMC disks.
pub open spec fn physical_device_prefixes() -> Seq<Seq<char>> {
    seq!["/dev/sd"@, "/dev/nvme"@, "/dev/vd"@, "/dev/hd"@, "/dev/xvd"@, "/dev/mmcblk"@]
}

pub open spec fn has_physical_prefix(device: Seq<char>) -> bool {
    exists|i: int| 0 <= i < 6 && #[trigger] starts_with(device, physical_device_prefixes()[i])
}

pub open spec fn mount_points(v: Seq<(Seq<char>, Seq<char>, Seq<char>)>) -> Seq<Seq<char>> {
    Seq::new(v.len(), |i: int| v[i].1)
}

/// The entries kept from the given `/proc/mounts` lines, in order: lines
/// with at least three fields, a filesystem type that is not virtual, a
/// physical device, and a mount point not already kept.
pub open spec fn mounts_fold(ls: Seq<Seq<char>>) -> Seq<(Seq<char>, Seq<char>, Seq<char>)>
    decreases ls.len(),
{
    if ls.len() == 0 {
        seq![]
    } else {
        let rest = mounts_fold(ls.drop_last());
        let ws = words(ls.last());
        if ws.len() >= 3 && !virtual_fs_types().contains(ws[2]) && has_physical_prefix(ws[0])
            && !mount_points(rest).contains(ws[1]) {
            rest.push((ws[0], ws[1], ws[2]))
        } else {
            rest
        }
    }
}

/// What `parse_proc_mounts` keeps: no mount point twice, only disks with a
/// physical device path, no virtual filesystem type, and every field as
/// it appeared as one whitespace-separated word of its line.
pub proof fn lemma_mounts_kept(ls: Seq<Seq<char>>)
    ensures
        forall|i: int, j: int|
            0 <= i < j < mounts_fold(ls).len() ==> #[trigger] mounts_fold(ls)[i].1 != #[trigger] mounts_fold(
                ls,
            )[j].1,
        forall|i: int|
            0 <= i < mounts_fold(ls).len() ==> has_physical_prefix(#[trigger] mounts_fold(ls)[i].0),
        forall|i: int|
            0 <= i < mounts_fold(ls).len() ==> !virtual_fs_types().contains(
                #[trigger] mounts_fold(ls)[i].2,
            ),
    decreases ls.len(),
{
    if ls.len() > 0 {
        lemma_mounts_kept(ls.drop_last());
        let rest = mounts_fold(ls.drop_last());
        let ws = words(ls.last());
        if ws.len() >= 3 && !virtual_fs_types().contains(ws[2]) && has_physical_prefix(ws[0])
            && !mount_points(rest).contains(ws[1]) {
            let m = mounts_fold(ls);
            assert(m == rest.push((ws[0], ws[1], ws[2])));
            assert forall|i: int, j: int| 0 <= i < j < m.len() implies #[trigger] m[i].1
                != #[trigger] m[j].1 by {
                if j == m.len() - 1 {
                    assert(mount_points(rest)[i] == rest[i].1);
                }
            }
            assert forall|i: int| 0 <= i < m.len() implies has_physical_prefix(#[trigger] m[i].0)
                && !virtual_fs_types().contains(m[i].2) by {
                if i < rest.len() {
                    assert(m[i] == rest[i]);
                    assert(!virtual_fs_types().contains(rest[i].2));
                }
                if i < rest.len() {
                    assert(m[i] == rest[i]);
                    assert(has_physical_prefix(rest[i].0));
                } else {
                    assert(m[i].0 == ws[0]);
                }
            }
        } else {
            assert(mounts_fold(ls) == rest);
        }
    }
}

pub open spec fn mount_views(v: Seq<MountEntry>) -> Seq<(Seq<char>, Seq<char>, Seq<char>)> {
    Seq::new(v.len(), |i: int| v[i]@)
}

fn is_virtual_fs(fs_type: &Vec<char>) -> (r: bool)
    ensures
        r == virtual_fs_types().contains(fs_type@),
{
    let names: [&str; 25] = [
        "autofs", "bpf", "cgroup", "cgroup2", "configfs", "debugfs", "devpts", "devtmpfs",
        "efivarfs", "fuse.gvfsd-fuse", "fuse.portal", "fuse.snapfuse", "fusectl", "hugetlbfs",
        "mqueue", "nsfs", "overlay", "proc", "pstore", "ramfs", "securityfs", "squashfs",
        "sysfs", "tmpfs", "tracefs",
    ];
    assert(names@.map_values(|s: &str| s@) =~= virtual_fs_types());
    let mut i: usize = 0;
    while i < 25
        invariant
            i <= 25,
            names@.map_values(|s: &str| s@) == virtual_fs_types(),
            forall|k: int| 0 <= k < i ==> virtual_fs_types()[k] != fs_type@,
        decreases 25 - i,
    {
        if chars_eq(fs_type, names[i]) {
            assert(virtual_fs_types()[i as int] == fs_type@);
            return true;
        }
        i += 1;
    }
    false
}

fn has_physical_device_prefix(device: &Vec<char>) -> (r: bool)
    ensures
        r == has_physical_prefix(device@),
{
    let prefixes: [&str; 6] = ["/dev/sd", "/dev/nvme", "/dev/vd", "/dev/hd", "/dev/xvd", "/dev/mmcblk"];
    assert(prefixes@.map_values(|s: &str| s@) =~= physical_device_prefixes());
    let mut i: usize = 0;
    while i < 6
        invariant
            i <= 6,
            prefixes@.map_values(|s: &str| s@) == physical_device_prefixes(),
            forall|k: int| 0 <= k < i ==> !starts_with(device@, #[trigger] physical_device_prefixes()[k]),
        decreases 6 - i,
    {
        if chars_start_with(device, prefixes[i]) {
            assert(starts_with(device@, physical_device_prefixes()[i as int]));
            return true;
        }
        i += 1;
    }
    false
}

fn contains_mount_point(kept: &Vec<MountEntry>, mp: &Vec<char>) -> (r: bool)
    ensures
        r == mount_points(mount_views(kept@)).contains(mp@),
{
    let mut i: usize = 0;
    while i < kept.len()
        invariant
            i <= kept.len(),
            forall|k: int| 0 <= k < i ==> kept@[k].mount_point@ != mp@,
        decreases kept.len() - i,
    {
        if chars_eq(mp, kept[i].mount_point.as_str()) {
            assert(mount_points(mount_views(kept@))[i as int] == mp@);
            return true;
        }
        i += 1;
    }
    assert(!mount_points(mount_views(kept@)).contains(mp@)) by {
        if mount_points(mount_views(kept@)).contains(mp@) {
            let k = choose|k: int|
                0 <= k < kept.len() && mount_points(mount_views(kept@))[k] == mp@;
            assert(kept@[k].mount_point@ == mp@);
        }
    }
    false
}

/// The physical filesystems mounted, from the text of `/proc/mounts`, in
/// the order the lines appear: virtual filesystem types and devices that
/// are not disks are skipped, and a mount point mounted again is kept only
/// the first time.
pub fn parse_proc_mounts(content: &str) -> (r: Vec<MountEntry>)
    ensures
        mount_views(r@) == mounts_fold(lines(content@)),
{
    let cs = chars_of(content);
    let ls = split_lines(&cs);
    let ghost lv = deep_chars(ls@);
    let mut out: Vec<MountEntry> = Vec::new();
    let mut i: usize = 0;
    while i < ls.len()
        invariant
            i <= ls.len(),
            lv == deep_chars(ls@),
            mount_views(out@) == mounts_fold(lv.take(i as int)),
        decreases ls.len() - i,
    {
        assert(lv.take(i + 1).drop_last() =~= lv.take(i as int));
        assert(lv.take(i + 1).last() == ls@[i as int]@);
        let ws = split_words(&ls[i]);
        if ws.len() >= 3 && !is_virtual_fs(&ws[2]) && has_physical_device_prefix(&ws[0])
            && !contains_mount_point(&out, &ws[1]) {
            let e = MountEntry {
                device: string_of(&ws[0]),
                mount_point: string_of(&ws[1]),
                fs_type: string_of(&ws[2]),
            };
            let ghost before = out@;
            out.push(e);
            assert(mount_views(out@) =~= mount_views(before).push(e@));
        }
        i += 1;
    }
    assert(lv.take(ls.len() as int) =~= lv);
    out
}

/// Used and total space in kB of a filesystem with `blocks` fragments of
/// `fragment_size` bytes, `free_blocks` of them free; `None` when the total
/// is below one kB.
pub fn statvfs_usage(blocks: u64, free_blocks: u64, fragment_size: u64) -> (r: Option<(u64, u64)>)
    requires
        blocks * fragment_size <= u64::MAX,
        free_blocks * fragment_size <= u64::MAX,
    ensures
        ({
            let total = blocks * fragment_size;
            let free = free_blocks * fragment_size;
            let used = if free <= total { total - free } else { 0 };
            if total / 1024 == 0 {
                r is None
            } else {
                r == Some(((used / 1024) as u64, (total / 1024) as u64))
            }
        }),
{
    let total_bytes = blocks * fragment_size;
    let free_bytes = free_blocks * fragment_size;
    let used_bytes = total_bytes.saturating_sub(free_bytes);
    let total_kb = total_bytes / 1024;
    let used_kb = used_bytes / 1024;
    if total_kb == 0 {
        return None;
    }
    Some((used_kb, total_kb))
}

/// Width of the mount point label column: the longest mount point in
/// bytes, at least 1.
pub open spec fn mount_label_width(points: Seq<Seq<char>>) -> nat
    decreases points.len(),
{
    if points.len() == 0 {
        1
    } else {
        let rest = mount_label_width(points.drop_last());
        let w = byte_len(points.last());
        if w > rest {
            w
        } else {
            rest
        }
    }
}

/// Width of the mount point label column of the disk space chart: the
/// longest mount point in bytes, at least 1.
pub fn label_width(mount_points: &Vec<String>) -> (r: usize)
    requires
        forall|i: int|
            0 <= i < mount_points.len() ==> byte_len(#[trigger] mount_points@[i]@) <= usize::MAX,
    ensures
        r == mount_label_width(names(mount_points@)),
        r >= 1,
{
    let mut w: usize = 1;
    let mut i: usize = 0;
    while i < mount_points.len()
        invariant
            w >= 1,
            i <= mount_points.len(),
            forall|k: int|
                0 <= k < mount_points.len() ==> byte_len(#[trigger] mount_points@[k]@) <= usize::MAX,
            w == mount_label_width(names(mount_points@).take(i as int)),
        decreases mount_points.len() - i,
    {
        assert(names(mount_points@).take(i + 1).drop_last() =~= names(mount_points@).take(
            i as int,
        ));
        let n = mount_points[i].as_str().len();
        assert(n == byte_len(mount_points@[i as int]@));
        if n > w {
            w = n;
        }
        i += 1;
    }
    assert(names(mount_points@).take(mount_points.len() as int) =~= names(mount_points@));
    w
}

/// The widest used/total text over the given filesystem sizes, 0 when
/// there are none.
pub open spec fn space_abs_width(totals: Seq<u64>) -> nat
    decreases totals.len(),
{
    if totals.len() == 0 {
        0
    } else {
        let rest = space_abs_width(totals.drop_last());
        let w = max_pair_width(totals.last() as nat);
        if w > rest {
            w
        } else {
            rest
        }
    }
}

/// Width of the used/total column of the disk space chart: the widest
/// `format_mem_pair(used, total)` can get for any of the filesystems, so
/// that the column keeps its width as usage changes.
pub fn abs_width(totals_kb: &Vec<u64>) -> (r: usize)
    ensures
        r == space_abs_width(totals_kb@),
        r <= 61,
        forall|k: int, u: nat|
            0 <= k < totals_kb.len() && u <= totals_kb@[k] ==> #[trigger] mem_pair(
                u,
                totals_kb@[k] as nat,
            ).len() <= r,
{
    let mut w: usize = 0;
    let mut i: usize = 0;
    while i < totals_kb.len()
        invariant
            i <= totals_kb.len(),
            w == space_abs_width(totals_kb@.take(i as int)),
            w <= 61,
            forall|k: int, u: nat|
                0 <= k < i && u <= totals_kb@[k] ==> #[trigger] mem_pair(
                    u,
                    totals_kb@[k] as nat,
                ).len() <= w,
        decreases totals_kb.len() - i,
    {
        assert(totals_kb@.take(i + 1).drop_last() =~= totals_kb@.take(i as int));
        let m = max_mem_pair_width(totals_kb[i]);
        if m > w {
            w = m;
        }
        i += 1;
    }
    assert(totals_kb@.take(totals_kb.len() as int) =~= totals_kb@);
    w
}

} // verus!
