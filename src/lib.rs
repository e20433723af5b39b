//! Byte accounting, capture decisions and trial outcomes for a network
//! amplification fuzzer.

pub mod byte_count;
pub mod capture;
pub mod status_type;
