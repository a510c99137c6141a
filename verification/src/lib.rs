//! Configuration state of a particle simulation that runs on the GPU: the
//! parameter record, the rules that keep coupled parameters consistent, and
//! the two fixed-layout word sequences handed to the compute and render
//! passes.
//!
//! Single-precision numbers are held throughout as their IEEE 754 bit
//! patterns (`u32`), so that every rule and every encoded word is exact.

pub mod binary32;
pub mod buffers;
pub mod edit;
pub mod laws;
pub mod settings;
pub mod structure;
