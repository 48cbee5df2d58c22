//! Verified core of an LED-garland animation pipeline.
//!
//! The library turns raw analog samples into a seed, the seed into a stream
//! of base colors, each color into a brightness-envelope pattern, and the
//! pattern elements into a sliding strip frame.  Hardware access (analog
//! reads, strip output, timers) stays outside; every function here is pure
//! logic over plain values and carries a contract.

pub mod adc_rand_seed;
pub mod frame;
pub mod garland;
pub mod hvec;
pub mod pipeline;
pub mod rng;
