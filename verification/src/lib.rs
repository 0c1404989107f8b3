//! A single-channel dynamics compressor with a verified fixed-point core.
//!
//! Audio samples, gains and decibel values are carried as 64-bit integers in
//! units of `1 / SCALE` (ten-millionths), so every step of the gain computer
//! is exact integer arithmetic with a proved contract.  Parameter changes
//! travel from a control thread to the audio thread through a bounded
//! crossbeam channel; the channel itself is trusted, the logic around it is
//! verified.

pub mod block;
pub mod channel;
pub mod compressor;
pub mod math;
pub mod params;
pub mod units;
