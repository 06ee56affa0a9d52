pub mod temperature;
pub mod usage;

pub use temperature::MemTempSensor;
pub use usage::{format_human_bytes, format_mem_pair, MemInfo};
