//! CPU temperature sensors: which hardware monitoring directory belongs to
//! the CPU, and how its sensors are labelled.
use vstd::prelude::*;

use crate::text::{chars_eq, chars_of, dec, push_decimal, push_str, string_of, trim, trim_chars};
use crate::ui::frame::opt_view;

verus! {

/// A temperature sensor: the file its readings come from and its label.
pub struct TempSensor {
    pub input_path: String,
    pub label: String,
}

/// One `tempN_input` file of a monitoring directory, with the contents of
/// its `tempN_label` file when that could be read.
pub struct SensorFiles {
    pub input_path: String,
    pub label: Option<String>,
}

/// A hardware monitoring directory: the contents of its `name` file
/// (`None` when unreadable) and its `temp1_input`, `temp2_input`, … files
/// in order, up to the first one missing.
pub struct HwmonDir {
    pub name: Option<String>,
    pub sensors: Vec<SensorFiles>,
}

/// The drivers that report CPU temperatures: AMD's `k10temp` and Intel's
/// `coretemp`.
pub open spec fn is_cpu_driver_name(name: Seq<char>) -> bool {
    trim(name) == "k10temp"@ || trim(name) == "coretemp"@
}

/// Whether a driver name (as read, surrounding whitespace allowed) is one
/// of the CPU temperature drivers.
pub fn is_cpu_driver(name: &str) -> (r: bool)
    ensures
        r == is_cpu_driver_name(name@),
{
    let t = trim_chars(&chars_of(name));
    chars_eq(&t, "k10temp") || chars_eq(&t, "coretemp")
}

/// The label of sensor number `index`: its label file trimmed, or
/// `Sensor N` when there is none.
pub open spec fn sensor_label_text(index: nat, label: Option<Seq<char>>) -> Seq<char> {
    match label {
        Some(l) => trim(l),
        None => "Sensor "@ + dec(index),
    }
}

/// The label of sensor number `index` (counted from 1).
pub fn sensor_label(index: u64, label: Option<&str>) -> (r: String)
    ensures
        r@ == sensor_label_text(
            index as nat,
            match label {
                Some(l) => Some(l@),
                None => None,
            },
        ),
{
    match label {
        Some(l) => string_of(&trim_chars(&chars_of(l))),
        None => {
            let mut s = String::new();
            push_str(&mut s, "Sensor ");
            push_decimal(&mut s, index);
            s
        },
    }
}

/// A directory of a CPU driver with at least one sensor.
pub open spec fn is_cpu_dir(d: HwmonDir) -> bool {
    &&& d.name matches Some(n) && is_cpu_driver_name(n@)
    &&& d.sensors.len() > 0
}

/// The sensors of a CPU directory, at most 128: input file and label.
pub open spec fn dir_sensors(d: HwmonDir) -> Seq<(Seq<char>, Seq<char>)> {
    Seq::new(
        if d.sensors.len() <= 128 {
            d.sensors.len() as nat
        } else {
            128nat
        },
        |k: int| (d.sensors[k].input_path@, sensor_label_text((k + 1) as nat, opt_view(d.sensors[k].label))),
    )
}

/// The sensors of the first CPU directory, none when there is no such
/// directory.
pub open spec fn cpu_sensors(dirs: Seq<HwmonDir>) -> Seq<(Seq<char>, Seq<char>)>
    decreases dirs.len(),
{
    if dirs.len() == 0 {
        seq![]
    } else if is_cpu_dir(dirs[0]) {
        dir_sensors(dirs[0])
    } else {
        cpu_sensors(dirs.drop_first())
    }
}

pub open spec fn sensor_views(v: Seq<TempSensor>) -> Seq<(Seq<char>, Seq<char>)> {
    Seq::new(v.len(), |i: int| (v[i].input_path@, v[i].label@))
}

fn is_cpu_dir_exec(d: &HwmonDir) -> (r: bool)
    ensures
        r == is_cpu_dir(*d),
{
    match &d.name {
        Some(n) => is_cpu_driver(n.as_str()) && d.sensors.len() > 0,
        None => false,
    }
}

fn sensors_of_dir(d: &HwmonDir) -> (r: Vec<TempSensor>)
    ensures
        sensor_views(r@) == dir_sensors(*d),
{
    let n = if d.sensors.len() <= 128 { d.sensors.len() } else { 128 };
    let mut r: Vec<TempSensor> = Vec::new();
    let mut k: usize = 0;
    while k < n
        invariant
            k <= n,
            n == (if d.sensors.len() <= 128 {
                d.sensors.len()
            } else {
                128
            }),
            sensor_views(r@) == dir_sensors(*d).take(k as int),
        decreases n - k,
    {
        let f = &d.sensors[k];
        let label = match &f.label {
            Some(l) => sensor_label((k + 1) as u64, Some(l.as_str())),
            None => sensor_label((k + 1) as u64, None),
        };
        assert(label@ == sensor_label_text((k + 1) as nat, opt_view(f.label)));
        let s = TempSensor { input_path: string_of(&chars_of(f.input_path.as_str())), label };
        let ghost sv = (s.input_path@, s.label@);
        assert(sv == dir_sensors(*d)[k as int]);
        let ghost prev = r@;
        r.push(s);
        assert(sensor_views(r@) =~= sensor_views(prev).push(sv));
        assert(dir_sensors(*d).take(k + 1) =~= dir_sensors(*d).take(k as int).push(sv));
        k += 1;
        assert(sensor_views(r@) =~= dir_sensors(*d).take(k as int));
    }
    assert(dir_sensors(*d).take(n as int) =~= dir_sensors(*d));
    r
}

/// The CPU temperature sensors among the monitoring directories, in the
/// order they are listed: those of the first directory of a CPU driver
/// that has a sensor, labelled from their label files or `Sensor N`;
/// none when there is no such directory.
pub fn discover_sensors(dirs: &Vec<HwmonDir>) -> (r: Vec<TempSensor>)
    ensures
        sensor_views(r@) == cpu_sensors(dirs@),
{
    let mut i: usize = 0;
    assert(dirs@.skip(0) =~= dirs@);
    while i < dirs.len()
        invariant
            i <= dirs.len(),
            cpu_sensors(dirs@) == cpu_sensors(dirs@.skip(i as int)),
        decreases dirs.len() - i,
    {
        assert(dirs@.skip(i as int).drop_first() =~= dirs@.skip(i + 1));
        assert(dirs@.skip(i as int)[0] == dirs@[i as int]);
        if is_cpu_dir_exec(&dirs[i]) {
            return sensors_of_dir(&dirs[i]);
        }
        i += 1;
    }
    assert(dirs@.skip(i as int) =~= Seq::<HwmonDir>::empty());
    Vec::new()
}

} // verus!
