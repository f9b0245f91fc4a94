//! Per-thread CPU metrics read from the operating system's process tables.

pub mod collector;
pub mod fields;
pub mod stat;
pub mod status;
pub mod unsupported;
