//! Verified core of a block-replay harness that measures what an execution witness costs.

pub mod b256_map;
pub mod blocks;
pub mod bundle;
pub mod bytes;
pub mod clock;
pub mod encoding;
pub mod engine;
pub mod faults;
pub mod fees;
pub mod hash;
pub mod hashed_state;
pub mod json;
pub mod measure;
pub mod meter;
pub mod numeric_string;
pub mod replay;
pub mod sample;
pub mod stages;
pub mod tally;
pub mod text;
pub mod u256;
pub mod witness;
