//! Signals as captured: a name, the carrier, and the raw durations.

use super::SignalType;
use vstd::prelude::*;

verus! {

/// What a raw signal holds.
pub struct RawSignalView {
    pub name: Seq<char>,
    pub kind: SignalType,
    pub frequency: u32,
    pub duty_cycle: Seq<char>,
    pub data: Seq<u32>,
}

/// One captured signal of a dump.
///
/// The duty cycle is kept as the decimal number written in the dump.
#[derive(Debug, PartialEq, Eq)]
pub struct RawSignal {
    name: String,
    kind: SignalType,
    frequency: u32,
    duty_cycle: String,
    data: Vec<u32>,
}

impl View for RawSignal {
    type V = RawSignalView;

    closed spec fn view(&self) -> RawSignalView {
        RawSignalView {
            name: self.name@,
            kind: self.kind,
            frequency: self.frequency,
            duty_cycle: self.duty_cycle@,
            data: self.data@,
        }
    }
}

impl RawSignal {
    /// A raw signal of the given parts. The data are durations in
    /// microseconds: the first of a pulse, the second of the pause behind
    /// it, and so on in turn.
    pub fn new(
        name: String,
        kind: SignalType,
        frequency: u32,
        duty_cycle: String,
        data: Vec<u32>,
    ) -> (signal: RawSignal)
        ensures
            signal@ == (RawSignalView {
                name: name@,
                kind,
                frequency,
                duty_cycle: duty_cycle@,
                data: data@,
            }),
    {
        RawSignal { name, kind, frequency, duty_cycle, data }
    }

    /// The name of the signal.
    pub fn name(&self) -> (name: &str)
        ensures
            name@ == self@.name,
    {
        self.name.as_str()
    }

    /// How the signal was recorded.
    pub fn kind(&self) -> (kind: SignalType)
        ensures
            kind == self@.kind,
    {
        self.kind
    }

    /// The carrier frequency in hertz.
    pub fn frequency(&self) -> (frequency: u32)
        ensures
            frequency == self@.frequency,
    {
        self.frequency
    }

    /// The duty cycle of the carrier, as the number written in the dump.
    pub fn duty_cycle(&self) -> (duty_cycle: &str)
        ensures
            duty_cycle@ == self@.duty_cycle,
    {
        self.duty_cycle.as_str()
    }

    /// The durations of the signal in microseconds, pulse and pause in turn.
    pub fn data(&self) -> (data: &[u32])
        ensures
            data@ == self@.data,
    {
        self.data.as_slice()
    }
}

} // verus!
