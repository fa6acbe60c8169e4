//! Signals: as captured, and as decoded into packets.

use vstd::prelude::*;

pub mod parsed;
pub mod raw;

pub use parsed::{Packet, ParsedSignal};
pub use raw::RawSignal;

verus! {

/// How a signal was recorded.
#[derive(Debug, PartialEq, Eq, Structural, Clone, Copy)]
pub enum SignalType {
    /// A plain list of pulse and pause durations.
    Raw,
}

impl View for SignalType {
    type V = SignalType;

    open spec fn view(&self) -> SignalType {
        *self
    }
}

} // verus!
