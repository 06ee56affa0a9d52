use vstd::prelude::*;

pub mod control;
pub mod cpu;
pub mod disk;
pub mod gpu;
pub mod history;
pub mod memory;
pub mod text;
pub mod ui;

verus! {
} // verus!
