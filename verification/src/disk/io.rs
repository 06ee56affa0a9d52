//! Per-device sector counters from `/proc/diskstats`.
use vstd::prelude::*;
use vstd::utf8::encode_utf8;

use crate::text::{
    chars_eq, chars_of, chars_start_with, deep_chars, lines, parse_u64, parse_u64_chars,
    sat_sub, split_lines, split_words, starts_with, string_of, words,
};

verus! {

/// Cumulative read and write sector counts of one whole disk.
#[derive(Debug)]
pub struct DiskIoEntry {
    pub device: String,
    pub read_sectors: u64,
    pub write_sectors: u64,
}

impl View for DiskIoEntry {
    type V = (Seq<char>, u64, u64);

    open spec fn view(&self) -> (Seq<char>, u64, u64) {
        (self.device@, self.read_sectors, self.write_sectors)
    }
}

/// Device names of loop, RAM, device-mapper, optical and floppy devices.
pub open spec fn has_virtual_prefix(device: Seq<char>) -> bool {
    ||| starts_with(device, "loop"@)
    ||| starts_with(device, "ram"@)
    ||| starts_with(device, "dm-"@)
    ||| starts_with(device, "sr"@)
    ||| starts_with(device, "fd"@)
}

/// A whole physical disk: not a virtual device, and listed under
/// `/sys/block` (which `block_devices` holds).
pub open spec fn physical(device: Seq<char>, block_devices: Seq<Seq<char>>) -> bool {
    !has_virtual_prefix(device) && block_devices.contains(device)
}

/// The entry of one `/proc/diskstats` line: at least 14 fields, a physical
/// device in field 2, and sector counts that parse in fields 5 and 9.
pub open spec fn diskstats_line(line: Seq<char>, block_devices: Seq<Seq<char>>) -> Option<
    (Seq<char>, u64, u64),
> {
    let ws = words(line);
    if ws.len() < 14 || !physical(ws[2], block_devices) {
        None
    } else {
        match (parse_u64(ws[5]), parse_u64(ws[9])) {
            (Some(r), Some(w)) => Some((ws[2], r, w)),
            _ => None,
        }
    }
}

pub open spec fn diskstats_entries(ls: Seq<Seq<char>>, block_devices: Seq<Seq<char>>) -> Seq<
    (Seq<char>, u64, u64),
>
    decreases ls.len(),
{
    if ls.len() == 0 {
        seq![]
    } else {
        let rest = diskstats_entries(ls.drop_last(), block_devices);
        match diskstats_line(ls.last(), block_devices) {
            Some(e) => rest.push(e),
            None => rest,
        }
    }
}

/// Every entry `parse_diskstats` keeps is a whole physical disk.
pub proof fn lemma_entries_physical(ls: Seq<Seq<char>>, block_devices: Seq<Seq<char>>)
    ensures
        forall|i: int|
            0 <= i < diskstats_entries(ls, block_devices).len() ==> physical(
                #[trigger] diskstats_entries(ls, block_devices)[i].0,
                block_devices,
            ),
    decreases ls.len(),
{
    if ls.len() > 0 {
        lemma_entries_physical(ls.drop_last(), block_devices);
        let rest = diskstats_entries(ls.drop_last(), block_devices);
        let all = diskstats_entries(ls, block_devices);
        assert forall|i: int| 0 <= i < all.len() implies physical(#[trigger] all[i].0, block_devices) by {
            if i < rest.len() {
                assert(all[i] == rest[i]);
            }
        }
    }
}

pub open spec fn names(v: Seq<String>) -> Seq<Seq<char>> {
    Seq::new(v.len(), |i: int| v[i]@)
}

pub open spec fn entry_views(v: Seq<DiskIoEntry>) -> Seq<(Seq<char>, u64, u64)> {
    Seq::new(v.len(), |i: int| v[i]@)
}

/// Whether `device` is a whole physical disk: not a loop, RAM,
/// device-mapper, optical or floppy device, and present under `/sys/block`,
/// whose entries `block_devices` lists.
pub fn is_physical_disk(device: &Vec<char>, block_devices: &Vec<String>) -> (r: bool)
    ensures
        r == physical(device@, names(block_devices@)),
{
    if chars_start_with(device, "loop") || chars_start_with(device, "ram") || chars_start_with(
        device,
        "dm-",
    ) || chars_start_with(device, "sr") || chars_start_with(device, "fd") {
        return false;
    }
    assert(!has_virtual_prefix(device@));
    let mut j: usize = 0;
    while j < block_devices.len()
        invariant
            j <= block_devices.len(),
            !has_virtual_prefix(device@),
            forall|k: int| 0 <= k < j ==> block_devices@[k]@ != device@,
        decreases block_devices.len() - j,
    {
        if chars_eq(device, block_devices[j].as_str()) {
            assert(names(block_devices@)[j as int] == device@);
            assert(names(block_devices@).contains(device@));
            return true;
        }
        j += 1;
    }
    assert(!names(block_devices@).contains(device@)) by {
        if names(block_devices@).contains(device@) {
            let k = choose|k: int|
                0 <= k < names(block_devices@).len() && names(block_devices@)[k] == device@;
            assert(block_devices@[k]@ == device@);
        }
    }
    false
}

/// Sector counters of the whole physical disks in the text of
/// `/proc/diskstats`, in the order the lines appear; `block_devices` lists
/// the entries of `/sys/block`.  Lines with fewer than 14 fields, virtual or
/// partition devices, and counters that do not parse are skipped.
pub fn parse_diskstats(content: &str, block_devices: &Vec<String>) -> (r: Vec<DiskIoEntry>)
    ensures
        entry_views(r@) == diskstats_entries(lines(content@), names(block_devices@)),
{
    let cs = chars_of(content);
    let ls = split_lines(&cs);
    let ghost lv = deep_chars(ls@);
    let ghost bd = names(block_devices@);
    let mut out: Vec<DiskIoEntry> = Vec::new();
    let mut i: usize = 0;
    while i < ls.len()
        invariant
            i <= ls.len(),
            lv == deep_chars(ls@),
            bd == names(block_devices@),
            entry_views(out@) == diskstats_entries(lv.take(i as int), bd),
        decreases ls.len() - i,
    {
        assert(lv.take(i + 1).drop_last() =~= lv.take(i as int));
        assert(lv.take(i + 1).last() == ls@[i as int]@);
        let ws = split_words(&ls[i]);
        let ghost wv = deep_chars(ws@);
        if ws.len() >= 14 && is_physical_disk(&ws[2], block_devices) {
            match (parse_u64_chars(&ws[5]), parse_u64_chars(&ws[9])) {
                (Some(r), Some(w)) => {
                    let e = DiskIoEntry { device: string_of(&ws[2]), read_sectors: r, write_sectors: w };
                    let ghost before = out@;
                    out.push(e);
                    assert(entry_views(out@) =~= entry_views(before).push(e@));
                },
                _ => {},
            }
        }
        i += 1;
    }
    assert(lv.take(ls.len() as int) =~= lv);
    out
}

/// Byte length of a string with the given characters.
pub open spec fn byte_len(s: Seq<char>) -> nat {
    encode_utf8(s).len()
}

/// The bytes of two strings one after the other.
pub proof fn lemma_byte_len_concat(a: Seq<char>, b: Seq<char>)
    ensures
        byte_len(a + b) == byte_len(a) + byte_len(b),
    decreases a.len(),
{
    if a.len() == 0 {
        assert(a + b =~= b);
    } else {
        lemma_byte_len_concat(a.drop_first(), b);
        assert((a + b).drop_first() =~= a.drop_first() + b);
    }
}

/// Width of the device label column: the longest device name plus one
/// (for the `R`/`W` suffix), and at least 4.
pub open spec fn io_label_width(devices: Seq<Seq<char>>) -> nat
    decreases devices.len(),
{
    if devices.len() == 0 {
        4
    } else {
        let rest = io_label_width(devices.drop_last());
        let w = byte_len(devices.last()) + 1;
        if w > rest {
            w
        } else {
            rest
        }
    }
}

/// Width of the device label column of the disk I/O chart: the longest
/// device name in bytes plus one for the `R`/`W` suffix, at least 4.
pub fn label_width(devices: &Vec<String>) -> (r: usize)
    requires
        forall|i: int| 0 <= i < devices.len() ==> byte_len(#[trigger] devices@[i]@) < usize::MAX,
    ensures
        r == io_label_width(names(devices@)),
        r >= 4,
{
    let mut w: usize = 4;
    let mut i: usize = 0;
    while i < devices.len()
        invariant
            w >= 4,
            i <= devices.len(),
            forall|k: int| 0 <= k < devices.len() ==> byte_len(#[trigger] devices@[k]@) < usize::MAX,
            w == io_label_width(names(devices@).take(i as int)),
        decreases devices.len() - i,
    {
        assert(names(devices@).take(i + 1).drop_last() =~= names(devices@).take(i as int));
        let n = devices[i].as_str().len();
        assert(n == byte_len(devices@[i as int]@));
        if n + 1 > w {
            w = n + 1;
        }
        i += 1;
    }
    assert(names(devices@).take(devices.len() as int) =~= names(devices@));
    w
}

/// Bytes in one sector of the kernel's disk statistics.
pub const SECTOR_SIZE: u64 = 512;

/// Bytes transferred between two readings of a sector counter: the
/// counter's growth in sectors, floored at zero, times the sector size.
pub fn transferred_bytes(prev_sectors: u64, curr_sectors: u64) -> (r: u64)
    requires
        sat_sub(curr_sectors as int, prev_sectors as int) * 512 <= u64::MAX,
    ensures
        r == sat_sub(curr_sectors as int, prev_sectors as int) * 512,
{
    let delta = curr_sectors.saturating_sub(prev_sectors);
    delta * SECTOR_SIZE
}

/// The position of the first entry for `device`, if any.
pub fn find_device(entries: &Vec<DiskIoEntry>, device: &str) -> (r: Option<usize>)
    ensures
        match r {
            Some(i) => i < entries.len() && entries@[i as int].device@ == device@ && forall|k: int|
                0 <= k < i ==> #[trigger] entries@[k].device@ != device@,
            None => forall|k: int| 0 <= k < entries.len() ==> #[trigger] entries@[k].device@ != device@,
        },
{
    let mut i: usize = 0;
    while i < entries.len()
        invariant
            i <= entries.len(),
            forall|k: int| 0 <= k < i ==> #[trigger] entries@[k].device@ != device@,
        decreases entries.len() - i,
    {
        if chars_eq(&chars_of(entries[i].device.as_str()), device) {
            return Some(i);
        }
        i += 1;
    }
    None
}

/// The position of the first entry for `device`, if any.
pub open spec fn entry_for(entries: Seq<DiskIoEntry>, device: Seq<char>) -> Option<int>
    decreases entries.len(),
{
    if entries.len() == 0 {
        None
    } else {
        match entry_for(entries.drop_last(), device) {
            Some(k) => Some(k),
            None => if entries.last().device@ == device {
                Some(entries.len() - 1)
            } else {
                None
            },
        }
    }
}

/// `entry_for` names the first entry for the device.
pub proof fn lemma_entry_for(entries: Seq<DiskIoEntry>, device: Seq<char>)
    ensures
        match entry_for(entries, device) {
            Some(i) => 0 <= i < entries.len() && entries[i].device@ == device && forall|k: int|
                0 <= k < i ==> #[trigger] entries[k].device@ != device,
            None => forall|k: int| 0 <= k < entries.len() ==> #[trigger] entries[k].device@ != device,
        },
    decreases entries.len(),
{
    if entries.len() > 0 {
        lemma_entry_for(entries.drop_last(), device);
        assert forall|k: int| 0 <= k < entries.len() - 1 implies #[trigger] entries[k] == entries.drop_last()[k] by {}
    }
}

/// The sector counters of the watched devices as last read, and whether
/// there was a reading before.
pub struct IoCounters {
    pub devices: Vec<String>,
    pub read_sectors: Vec<u64>,
    pub write_sectors: Vec<u64>,
    pub has_prev: bool,
}

/// Whether the bytes moved since the last reading fit in a `u64` for every
/// device that `snapshot` lists.
pub open spec fn moves_fit(c: IoCounters, snapshot: Seq<DiskIoEntry>) -> bool {
    forall|i: int|
        0 <= i < c.devices@.len() ==> match #[trigger] entry_for(snapshot, c.devices@[i]@) {
            Some(k) => c.has_prev ==> sat_sub(snapshot[k].read_sectors as int, c.read_sectors@[i] as int)
                * 512 <= u64::MAX && sat_sub(
                snapshot[k].write_sectors as int,
                c.write_sectors@[i] as int,
            ) * 512 <= u64::MAX,
            None => true,
        }
}

impl IoCounters {
    /// One counter of each kind per device.
    pub open spec fn wf(&self) -> bool {
        &&& self.read_sectors@.len() == self.devices@.len()
        &&& self.write_sectors@.len() == self.devices@.len()
    }

    /// Watches the devices of a first reading, with their counters.
    pub fn new(snapshot: &Vec<DiskIoEntry>) -> (r: IoCounters)
        ensures
            r.wf(),
            !r.has_prev,
            r.devices@.len() == snapshot@.len(),
            forall|i: int|
                0 <= i < snapshot@.len() ==> #[trigger] r.devices@[i]@ == snapshot@[i].device@
                    && r.read_sectors@[i] == snapshot@[i].read_sectors && r.write_sectors@[i]
                    == snapshot@[i].write_sectors,
    {
        let mut devices: Vec<String> = Vec::new();
        let mut read_sectors: Vec<u64> = Vec::new();
        let mut write_sectors: Vec<u64> = Vec::new();
        let mut i: usize = 0;
        while i < snapshot.len()
            invariant
                i <= snapshot.len(),
                devices@.len() == i,
                read_sectors@.len() == i,
                write_sectors@.len() == i,
                forall|k: int|
                    0 <= k < i ==> #[trigger] devices@[k]@ == snapshot@[k].device@
                        && read_sectors@[k] == snapshot@[k].read_sectors && write_sectors@[k]
                        == snapshot@[k].write_sectors,
            decreases snapshot.len() - i,
        {
            devices.push(snapshot[i].device.clone());
            read_sectors.push(snapshot[i].read_sectors);
            write_sectors.push(snapshot[i].write_sectors);
            assert(devices@[i as int]@ == snapshot@[i as int].device@);
            i += 1;
        }
        IoCounters { devices, read_sectors, write_sectors, has_prev: false }
    }

    /// Takes a new reading. For each watched device that `snapshot` lists,
    /// its counters become the listed ones and, when there was a reading
    /// before, the result holds the bytes read and written since; a device
    /// that the snapshot leaves out keeps its counters and gets `None`, as
    /// does every device on the first reading.
    pub fn advance(&mut self, snapshot: &Vec<DiskIoEntry>) -> (r: Vec<Option<(u64, u64)>>)
        requires
            old(self).wf(),
            moves_fit(*old(self), snapshot@),
        ensures
            final(self).wf(),
            final(self).has_prev,
            final(self).devices@ == old(self).devices@,
            r@.len() == old(self).devices@.len(),
            forall|i: int|
                0 <= i < r@.len() ==> (#[trigger] r@[i] matches Some((rd, wr)) ==> rd % 512 == 0 && wr
                    % 512 == 0),
            forall|i: int|
                0 <= i < r@.len() ==> match #[trigger] entry_for(snapshot@, old(self).devices@[i]@) {
                    Some(k) => {
                        &&& final(self).read_sectors@[i] == snapshot@[k].read_sectors
                        &&& final(self).write_sectors@[i] == snapshot@[k].write_sectors
                        &&& r@[i] == if old(self).has_prev {
                            Some(
                                (
                                    (sat_sub(snapshot@[k].read_sectors as int, old(self).read_sectors@[i] as int)
                                        * 512) as u64,
                                    (sat_sub(snapshot@[k].write_sectors as int, old(self).write_sectors@[i] as int)
                                        * 512) as u64,
                                ),
                            )
                        } else {
                            None
                        }
                    },
                    None => {
                        &&& final(self).read_sectors@[i] == old(self).read_sectors@[i]
                        &&& final(self).write_sectors@[i] == old(self).write_sectors@[i]
                        &&& r@[i] is None
                    },
                },
    {
        let ghost old_self = *self;
        let mut r: Vec<Option<(u64, u64)>> = Vec::new();
        let mut i: usize = 0;
        while i < self.devices.len()
            invariant
                self.wf(),
                self.devices@ == old_self.devices@,
                self.has_prev == old_self.has_prev,
                old_self.wf(),
                moves_fit(old_self, snapshot@),
                i <= self.devices@.len(),
                r@.len() == i,
                forall|j: int|
                    i <= j < self.devices@.len() ==> #[trigger] self.read_sectors@[j]
                        == old_self.read_sectors@[j],
                forall|j: int|
                    i <= j < self.devices@.len() ==> #[trigger] self.write_sectors@[j]
                        == old_self.write_sectors@[j],
                forall|j: int|
                    0 <= j < i ==> match #[trigger] entry_for(snapshot@, old_self.devices@[j]@) {
                        Some(k) => {
                            &&& self.read_sectors@[j] == snapshot@[k].read_sectors
                            &&& self.write_sectors@[j] == snapshot@[k].write_sectors
                            &&& r@[j] == if old_self.has_prev {
                                Some(
                                    (
                                        (sat_sub(snapshot@[k].read_sectors as int, old_self.read_sectors@[j] as int)
                                            * 512) as u64,
                                        (sat_sub(snapshot@[k].write_sectors as int, old_self.write_sectors@[j] as int)
                                            * 512) as u64,
                                    ),
                                )
                            } else {
                                None
                            }
                        },
                        None => {
                            &&& self.read_sectors@[j] == old_self.read_sectors@[j]
                            &&& self.write_sectors@[j] == old_self.write_sectors@[j]
                            &&& r@[j] is None
                        },
                    },
            decreases self.devices@.len() - i,
        {
            let found = find_device(snapshot, self.devices[i].as_str());
            proof {
                lemma_entry_for(snapshot@, self.devices@[i as int]@);
                assert(self.devices@[i as int]@ == old_self.devices@[i as int]@);
                let e = entry_for(snapshot@, old_self.devices@[i as int]@);
                match found {
                    Some(k) => {
                        if e is None {
                            assert(false);
                        } else if e->0 != k as int {
                            assert(e->0 < k || e->0 > k);
                            assert(false);
                        }
                    },
                    None => {
                        if e is Some {
                            assert(snapshot@[e->0].device@ == old_self.devices@[i as int]@);
                            assert(false);
                        }
                    },
                }
                assert(moves_fit(old_self, snapshot@));
            }
            match found {
                Some(k) => {
                    let rd = snapshot[k].read_sectors;
                    let wr = snapshot[k].write_sectors;
                    if self.has_prev {
                        let read_bytes = transferred_bytes(self.read_sectors[i], rd);
                        let write_bytes = transferred_bytes(self.write_sectors[i], wr);
                        r.push(Some((read_bytes, write_bytes)));
                    } else {
                        r.push(None);
                    }
                    self.read_sectors.set(i, rd);
                    self.write_sectors.set(i, wr);
                },
                None => {
                    r.push(None);
                },
            }
            i += 1;
        }
        proof {
            assert forall|j: int| 0 <= j < r@.len() implies (#[trigger] r@[j] matches Some((rd, wr)) ==> rd
                % 512 == 0 && wr % 512 == 0) by {
                if let Some((rd, wr)) = r@[j] {
                    let k = entry_for(snapshot@, old_self.devices@[j]@)->0;
                    assert(moves_fit(old_self, snapshot@));
                    assert(entry_for(snapshot@, old_self.devices@[j]@) is Some);
                    let dr = sat_sub(snapshot@[k].read_sectors as int, old_self.read_sectors@[j] as int);
                    let dw = sat_sub(snapshot@[k].write_sectors as int, old_self.write_sectors@[j] as int);
                    assert(rd == dr * 512);
                    assert(wr == dw * 512);
                    vstd::arithmetic::div_mod::lemma_mod_multiples_basic(dr as int, 512);
                    vstd::arithmetic::div_mod::lemma_mod_multiples_basic(dw as int, 512);
                }
            }
        }
        self.has_prev = true;
        r
    }
}

/// The larger of `a` and `b`.
pub open spec fn max_u64(a: u64, b: u64) -> u64 {
    if a >= b {
        a
    } else {
        b
    }
}

/// Raises each device's peak to the bytes it read or wrote in the last
/// reading, where it had one.
pub fn record_peaks(peaks: &mut Vec<u64>, moved: &Vec<Option<(u64, u64)>>)
    requires
        old(peaks)@.len() == moved@.len(),
    ensures
        final(peaks)@.len() == moved@.len(),
        forall|i: int|
            0 <= i < moved@.len() ==> #[trigger] final(peaks)@[i] == match moved@[i] {
                Some((rd, wr)) => max_u64(old(peaks)@[i], max_u64(rd, wr)),
                None => old(peaks)@[i],
            },
{
    let ghost before = peaks@;
    let mut i: usize = 0;
    while i < moved.len()
        invariant
            i <= moved@.len(),
            peaks@.len() == moved@.len(),
            before.len() == moved@.len(),
            forall|j: int| i <= j < moved@.len() ==> #[trigger] peaks@[j] == before[j],
            forall|j: int|
                0 <= j < i ==> #[trigger] peaks@[j] == match moved@[j] {
                    Some((rd, wr)) => max_u64(before[j], max_u64(rd, wr)),
                    None => before[j],
                },
        decreases moved@.len() - i,
    {
        if let Some((rd, wr)) = moved[i] {
            let local = if rd >= wr { rd } else { wr };
            if local > peaks[i] {
                peaks.set(i, local);
            }
        }
        i += 1;
    }
}

} // verus!
