//! CRC-16/MODBUS batch checksum engine.
//!
//! The crate turns a whitespace-separated hex byte list into a bounded frame,
//! computes the frame's CRC-16/MODBUS checksum with a baseline or a 16-byte
//! unrolled kernel, repeats the computation a validated number of times for
//! throughput measurement, and reports the checksum together with the elapsed
//! time in nanoseconds.

pub mod batch;
pub mod crc;
pub mod hex;
mod timing;

pub use batch::{
    calculate_crc, compute_batch_crcs_optimized, parallel_eligible, parse_iterations,
    partition_iterations, run_batch, validate_frame, CrcResult, RunError, ValidationError,
};
pub use crc::{crc16_modbus_baseline, crc16_modbus_optimized, crc16_of};
pub use hex::{parse_hex_input, ParseError};
