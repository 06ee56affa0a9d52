//! NVIDIA GPUs through `nvidia-smi`: the GPU's name, and the fields of a
//! utilization, memory and temperature query.
use vstd::prelude::*;

use crate::text::{
    chars_of, deep_chars, parse_u64, parse_u64_chars, split_chars, split_on, string_of, trim,
    trim_chars,
};

verus! {

/// An NVIDIA GPU, by the name `nvidia-smi` reports for it.
pub struct NvidiaGpu {
    pub name: String,
}

/// The fields of one `utilization.gpu,memory.used,memory.total,
/// temperature.gpu` query: the memory amounts in MiB, and the utilization
/// percentage and temperature in °C as printed.
pub struct SnapshotFields {
    pub utilization: String,
    pub memory_used_mib: u64,
    pub memory_total_mib: u64,
    pub temperature: String,
}

/// The name printed by a `name` query, when it is not blank.
pub open spec fn gpu_name(stdout: Seq<char>) -> Option<Seq<char>> {
    if trim(stdout).len() > 0 {
        Some(trim(stdout))
    } else {
        None
    }
}

/// The GPU named by the output of a successful `name` query; `None` when
/// the output is blank.
pub fn detect(stdout: &str) -> (r: Option<NvidiaGpu>)
    ensures
        match r {
            Some(g) => gpu_name(stdout@) == Some(g.name@),
            None => gpu_name(stdout@) is None,
        },
{
    let t = trim_chars(&chars_of(stdout));
    if t.len() == 0 {
        return None;
    }
    Some(NvidiaGpu { name: string_of(&t) })
}

/// The comma-separated fields of the output, each trimmed.
pub open spec fn csv_fields(text: Seq<char>) -> Seq<Seq<char>> {
    let parts = split_on(trim(text), ',');
    Seq::new(parts.len(), |i: int| trim(parts[i]))
}

/// The fields of a query's output: at least four comma-separated fields,
/// the second and third whole numbers of MiB.
pub open spec fn snapshot_fields(text: Seq<char>) -> Option<(Seq<char>, u64, u64, Seq<char>)> {
    let f = csv_fields(text);
    if f.len() < 4 {
        None
    } else {
        match (parse_u64(f[1]), parse_u64(f[2])) {
            (Some(used), Some(total)) => Some((f[0], used, total, f[3])),
            _ => None,
        }
    }
}

pub open spec fn fields_view(r: Option<SnapshotFields>) -> Option<(Seq<char>, u64, u64, Seq<char>)> {
    match r {
        Some(s) => Some((s.utilization@, s.memory_used_mib, s.memory_total_mib, s.temperature@)),
        None => None,
    }
}

/// Splits the output of a successful query into its fields; `None` when
/// there are fewer than four or a memory amount is not a whole number.
pub fn read_snapshot_fields(text: &str) -> (r: Option<SnapshotFields>)
    ensures
        fields_view(r) == snapshot_fields(text@),
{
    let t = trim_chars(&chars_of(text));
    let parts = split_chars(&t, ',');
    let ghost f = csv_fields(text@);
    if parts.len() < 4 {
        assert(deep_chars(parts@).len() == parts.len());
        return None;
    }
    assert(deep_chars(parts@)[0] == parts@[0]@);
    assert(deep_chars(parts@)[1] == parts@[1]@);
    assert(deep_chars(parts@)[2] == parts@[2]@);
    assert(deep_chars(parts@)[3] == parts@[3]@);
    let util = trim_chars(&parts[0]);
    let used = trim_chars(&parts[1]);
    let total = trim_chars(&parts[2]);
    let temp = trim_chars(&parts[3]);
    assert(f[1] == used@);
    assert(f[2] == total@);
    match (parse_u64_chars(&used), parse_u64_chars(&total)) {
        (Some(u), Some(tt)) => Some(
            SnapshotFields {
                utilization: string_of(&util),
                memory_used_mib: u,
                memory_total_mib: tt,
                temperature: string_of(&temp),
            },
        ),
        _ => None,
    }
}

} // verus!
