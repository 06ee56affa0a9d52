//! DIMM temperature sensors: the `jc42` hardware monitoring directories
//! and how their sensors are labelled.
use vstd::prelude::*;

use crate::text::{chars_eq, chars_of, dec, push_decimal, push_str, string_of, trim, trim_chars};

verus! {

/// A DIMM temperature sensor: the file its readings come from and its
/// label.
pub struct MemTempSensor {
    pub input_path: String,
    pub label: String,
}

/// A hardware monitoring directory as seen when looking for DIMM sensors:
/// the contents of its `name` file, its `temp1_input` file when it exists,
/// and the contents of its `temp1_label` file; `None` for what could not be
/// read or does not exist.
pub struct DimmDir {
    pub name: Option<String>,
    pub input_path: Option<String>,
    pub label: Option<String>,
}

/// A `jc42` directory with a `temp1_input` file.
pub open spec fn is_dimm_dir(d: DimmDir) -> bool {
    &&& d.name matches Some(n) && trim(n@) == "jc42"@
    &&& d.input_path is Some
}

/// The label of the `index`-th DIMM sensor (counted from 0): its label
/// file trimmed when that is not empty, else `DIMM` and the index.
pub open spec fn dimm_label_text(index: nat, label: Option<String>) -> Seq<char> {
    match label {
        Some(l) => if trim(l@).len() > 0 {
            trim(l@)
        } else {
            "DIMM"@ + dec(index)
        },
        None => "DIMM"@ + dec(index),
    }
}

/// The DIMM sensors among the directories, in order, numbered from 0.
pub open spec fn dimm_sensors(dirs: Seq<DimmDir>) -> Seq<(Seq<char>, Seq<char>)>
    decreases dirs.len(),
{
    if dirs.len() == 0 {
        seq![]
    } else {
        let rest = dimm_sensors(dirs.drop_last());
        let d = dirs.last();
        if is_dimm_dir(d) {
            rest.push((d.input_path->0@, dimm_label_text(rest.len(), d.label)))
        } else {
            rest
        }
    }
}

pub open spec fn mem_sensor_views(v: Seq<MemTempSensor>) -> Seq<(Seq<char>, Seq<char>)> {
    Seq::new(v.len(), |i: int| (v[i].input_path@, v[i].label@))
}

fn is_dimm_dir_exec(d: &DimmDir) -> (r: bool)
    ensures
        r == is_dimm_dir(*d),
{
    match &d.name {
        Some(n) => chars_eq(&trim_chars(&chars_of(n.as_str())), "jc42") && d.input_path.is_some(),
        None => false,
    }
}

fn dimm_label(index: usize, label: &Option<String>) -> (r: String)
    ensures
        r@ == dimm_label_text(index as nat, *label),
{
    if let Some(l) = label {
        let t = trim_chars(&chars_of(l.as_str()));
        if t.len() > 0 {
            return string_of(&t);
        }
    }
    let mut s = String::new();
    push_str(&mut s, "DIMM");
    push_decimal(&mut s, index as u64);
    s
}

/// The DIMM temperature sensors: one per `jc42` directory that has a
/// `temp1_input` file, in the order listed, labelled from its label file
/// or `DIMM0`, `DIMM1`, … by its position among them.
pub fn discover_sensors(dirs: &Vec<DimmDir>) -> (r: Vec<MemTempSensor>)
    ensures
        mem_sensor_views(r@) == dimm_sensors(dirs@),
{
    let mut r: Vec<MemTempSensor> = Vec::new();
    let mut i: usize = 0;
    while i < dirs.len()
        invariant
            i <= dirs.len(),
            mem_sensor_views(r@) == dimm_sensors(dirs@.take(i as int)),
            r.len() <= i,
        decreases dirs.len() - i,
    {
        assert(dirs@.take(i + 1).drop_last() =~= dirs@.take(i as int));
        let d = &dirs[i];
        if is_dimm_dir_exec(d) {
            let input = match &d.input_path {
                Some(p) => string_of(&chars_of(p.as_str())),
                None => String::new(),
            };
            let label = dimm_label(r.len(), &d.label);
            let s = MemTempSensor { input_path: input, label };
            let ghost sv = (s.input_path@, s.label@);
            let ghost prev = r@;
            r.push(s);
            assert(mem_sensor_views(r@) =~= mem_sensor_views(prev).push(sv));
        }
        i += 1;
    }
    assert(dirs@.take(dirs.len() as int) =~= dirs@);
    r
}

} // verus!
