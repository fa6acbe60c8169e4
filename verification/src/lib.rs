//! Decoding of infrared-remote signal dumps.
//!
//! A dump is a line-oriented text document that records, for each captured
//! signal, the durations of its pulses and pauses in microseconds. The crate
//! reads such a document ([`dump`]), sorts the durations of one signal into
//! symbolic classes and demodulates them into packets of bits ([`signal`]),
//! and lays a signal out for export as a table row or as a timeline
//! ([`export`], [`plotting`]).

pub mod dump;
pub mod export;
pub mod plotting;
pub mod signal;
pub mod utils;
