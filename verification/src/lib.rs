//! A black-box command-line fuzzer library.
//!
//! The library holds the verified core of the fuzzer: the bounded ranges that
//! limit every randomized quantity, the random value generators, the assembly
//! of the argument vector handed to the target process, the classification of
//! a trial's outcome against an allow-list of exit codes, the sequential
//! trial-loop decisions, and the codec for the persisted failure artifact.
//!
//! Process spawning and file writing are left to the surrounding binary; the
//! library hands it plain values and takes plain values back.

pub mod artifact;
pub mod command;
pub mod digits;
pub mod generate;
pub mod number_range;
pub mod rng_source;
pub mod strings;
pub mod trial;
