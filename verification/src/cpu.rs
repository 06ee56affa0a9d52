pub mod utilization;
pub mod temperature;
