//! Processor and serial port: the decisions taken around the hardware accesses.

pub mod cpu;
pub mod serial;
