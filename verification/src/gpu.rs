//! The GPU shown in the GPU section: which backend reports it, and its
//! rolling utilization, VRAM and temperature histories.
pub mod amd;
pub mod nvidia;

use std::collections::VecDeque;
use vstd::prelude::*;

pub use amd::AmdGpu;
pub use nvidia::NvidiaGpu;
use crate::history::{keep_newest, push_sample, trim_history};

verus! {

/// Where the GPU's readings come from.
pub enum GpuBackend {
    Nvidia,
    Amd { card_path: String, hwmon_path: Option<String> },
    Absent,
}

impl GpuBackend {
    /// Whether a GPU was found.
    pub fn available(&self) -> (r: bool)
        ensures
            r == !(self is Absent),
    {
        !matches!(self, GpuBackend::Absent)
    }

    /// Whether the GPU has a temperature to show: it has reported one
    /// (`temp_samples` of them are kept), or its backend reports one
    /// (NVIDIA always, AMD when it has a monitoring directory).
    pub fn has_temperature(&self, temp_samples: usize) -> (r: bool)
        ensures
            r == (temp_samples > 0 || match self {
                GpuBackend::Nvidia => true,
                GpuBackend::Amd { hwmon_path, .. } => hwmon_path is Some,
                GpuBackend::Absent => false,
            }),
    {
        temp_samples > 0 || match self {
            GpuBackend::Nvidia => true,
            GpuBackend::Amd { hwmon_path, .. } => hwmon_path.is_some(),
            GpuBackend::Absent => false,
        }
    }
}

/// One reading of the GPU: utilization and VRAM use percentages, the
/// temperature when there is one, and VRAM used and total in kB.
pub struct GpuSample<T> {
    pub util: T,
    pub mem_pct: T,
    pub temp: Option<T>,
    pub used_kb: u64,
    pub total_kb: u64,
}

/// The GPU's histories, each at most as long as the chart is wide, and
/// the latest VRAM amounts in kB.
pub struct GpuHistories<T> {
    pub util: VecDeque<T>,
    pub mem: VecDeque<T>,
    pub temp: VecDeque<T>,
    pub mem_used_kb: u64,
    pub mem_total_kb: u64,
}

impl<T> GpuHistories<T> {
    /// Empty histories and no VRAM in use.
    pub fn new() -> (r: Self)
        ensures
            r.util@.len() == 0,
            r.mem@.len() == 0,
            r.temp@.len() == 0,
            r.mem_used_kb == 0,
            r.mem_total_kb == 0,
    {
        GpuHistories {
            util: VecDeque::new(),
            mem: VecDeque::new(),
            temp: VecDeque::new(),
            mem_used_kb: 0,
            mem_total_kb: 0,
        }
    }

    /// Records a reading, if there is one, and trims every history to
    /// `width`: utilization and VRAM use are always pushed, the temperature
    /// only when the reading has one; the VRAM amounts become the
    /// reading's.  Without a reading the histories are only trimmed.
    pub fn record(&mut self, sample: Option<GpuSample<T>>, width: usize)
        ensures
            match sample {
                Some(s) => {
                    &&& final(self).util@ == keep_newest(old(self).util@.push(s.util), width as nat)
                    &&& final(self).mem@ == keep_newest(old(self).mem@.push(s.mem_pct), width as nat)
                    &&& final(self).temp@ == match s.temp {
                        Some(t) => keep_newest(old(self).temp@.push(t), width as nat),
                        None => keep_newest(old(self).temp@, width as nat),
                    }
                    &&& final(self).mem_used_kb == s.used_kb
                    &&& final(self).mem_total_kb == s.total_kb
                },
                None => {
                    &&& final(self).util@ == keep_newest(old(self).util@, width as nat)
                    &&& final(self).mem@ == keep_newest(old(self).mem@, width as nat)
                    &&& final(self).temp@ == keep_newest(old(self).temp@, width as nat)
                    &&& final(self).mem_used_kb == old(self).mem_used_kb
                    &&& final(self).mem_total_kb == old(self).mem_total_kb
                },
            },
    {
        match sample {
            Some(s) => {
                push_sample(&mut self.util, s.util, width);
                push_sample(&mut self.mem, s.mem_pct, width);
                match s.temp {
                    Some(t) => push_sample(&mut self.temp, t, width),
                    None => trim_history(&mut self.temp, width),
                }
                self.mem_used_kb = s.used_kb;
                self.mem_total_kb = s.total_kb;
            },
            None => {
                trim_history(&mut self.util, width);
                trim_history(&mut self.mem, width);
                trim_history(&mut self.temp, width);
            },
        }
    }
}

/// VRAM reported in MiB, in kB.
pub fn kb_from_mib(mib: u64) -> (r: u64)
    requires
        mib * 1024 <= u64::MAX,
    ensures
        r == mib * 1024,
{
    mib * 1024
}

/// VRAM reported in bytes, in whole kB.
pub fn kb_from_bytes(bytes: u64) -> (r: u64)
    ensures
        r == bytes / 1024,
{
    bytes / 1024
}

/// An AMD reading: the utilization and VRAM percentages and the
/// temperature as read, and the VRAM used and total, read in bytes, in
/// whole kB; no reading without both the utilization and the VRAM amounts.
pub fn amd_sample<T>(util: Option<T>, mem_pct: T, temp: Option<T>, vram_bytes: Option<(u64, u64)>) -> (r:
    Option<GpuSample<T>>)
    ensures
        match (util, vram_bytes) {
            (Some(u), Some((used, total))) => r == Some(
                GpuSample { util: u, mem_pct, temp, used_kb: used / 1024, total_kb: total / 1024 },
            ),
            _ => r is None,
        },
{
    match (util, vram_bytes) {
        (Some(u), Some((used, total))) => Some(
            GpuSample { util: u, mem_pct, temp, used_kb: kb_from_bytes(used), total_kb: kb_from_bytes(total) },
        ),
        _ => None,
    }
}

/// An NVIDIA reading: the percentages and temperature as read, and the
/// VRAM used and total, read in MiB, in kB.
pub fn nvidia_sample<T>(util: T, mem_pct: T, temp: T, used_mib: u64, total_mib: u64) -> (r: GpuSample<T>)
    requires
        used_mib * 1024 <= u64::MAX,
        total_mib * 1024 <= u64::MAX,
    ensures
        r == (GpuSample { util, mem_pct, temp: Some(temp), used_kb: (used_mib * 1024) as u64, total_kb: (total_mib * 1024) as u64 }),
{
    GpuSample { util, mem_pct, temp: Some(temp), used_kb: kb_from_mib(used_mib), total_kb: kb_from_mib(total_mib) }
}

/// The GPU to show: an NVIDIA GPU when `nvidia-smi` names one, else the
/// first AMD GPU found, else none (with an empty name).
pub fn select_gpu(nvidia: Option<NvidiaGpu>, amd: Option<AmdGpu>) -> (r: (GpuBackend, String))
    ensures
        match nvidia {
            Some(n) => r.0 is Nvidia && r.1@ == n.name@,
            None => match amd {
                Some(a) => r.0 == (GpuBackend::Amd {
                    card_path: a.card_path,
                    hwmon_path: a.hwmon_path,
                }) && r.1@ == a.name@,
                None => r.0 is Absent && r.1@.len() == 0,
            },
        },
{
    if let Some(n) = nvidia {
        return (GpuBackend::Nvidia, n.name);
    }
    if let Some(a) = amd {
        return (GpuBackend::Amd { card_path: a.card_path, hwmon_path: a.hwmon_path }, a.name);
    }
    (GpuBackend::Absent, String::new())
}

} // verus!
