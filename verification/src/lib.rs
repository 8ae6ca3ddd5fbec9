//! Point-in-time GPU telemetry: readings of one device are merged, converted
//! to mebibytes, sorted and rendered as a fixed-width text report.

pub mod device;
pub mod info;
pub mod memory;
pub mod names;
pub mod order;
pub mod report;
pub mod session;
pub mod table;
pub mod text;
