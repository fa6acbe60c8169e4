//! Decoded signals and their packets.

use super::raw::RawSignal;
use super::SignalType;
use bitvec::order::Lsb0;
use bitvec::vec::BitVec;
use vstd::prelude::*;
use vstd::string::StringExecFns;

pub mod parsing;

use parsing::{bits_of, dump_of, slots_of, stream_to_packets, ParseError};

verus! {

/// The bit storage of a packet: a `bitvec::vec::BitVec` over machine words,
/// the least significant bit of a word first. The parameters of that type
/// are bound by traits of `bitvec`, which keeps it from being declared to
/// the verifier; so it is held here, in a struct of which the verifier sees
/// nothing. What it holds is named by [`bit_contents`].
#[verifier::external_body]
#[derive(Debug, PartialEq, Eq)]
pub struct DataVec {
    bits: BitVec<usize, Lsb0>,
}

/// The bits that a [`DataVec`] holds, by index.
pub uninterp spec fn bit_contents(data: DataVec) -> Seq<bool>;

/// The most bits that a [`DataVec`] can hold, `BitSlice::MAX_BITS`: the
/// largest `usize` with its three highest bits cleared.
pub open spec fn max_bits() -> nat {
    (usize::MAX / 8) as nat
}

impl DataVec {
    /// `BitVec::new`: the bit vector made holds no bit.
    #[verifier::external_body]
    fn new() -> (data: DataVec)
        ensures
            bit_contents(data) == Seq::<bool>::empty(),
    {
        DataVec { bits: BitVec::new() }
    }

    /// `BitVec::push`: the bit is appended behind those already held. The
    /// call panics on a vector that holds `max_bits()` bits, so that is
    /// ruled out.
    #[verifier::external_body]
    fn push(&mut self, bit: bool)
        requires
            bit_contents(*old(self)).len() < max_bits(),
        ensures
            bit_contents(*final(self)) == bit_contents(*old(self)).push(bit),
    {
        self.bits.push(bit)
    }

    /// `BitVec::len`: the number of bits held.
    #[verifier::external_body]
    fn len(&self) -> (len: usize)
        ensures
            len == bit_contents(*self).len(),
    {
        self.bits.len()
    }

    /// Indexing of a `BitSlice` by `usize`: the bit at `index`. The call
    /// panics from the length on, so such an index is ruled out.
    #[verifier::external_body]
    fn get(&self, index: usize) -> (bit: bool)
        requires
            index < bit_contents(*self).len(),
        ensures
            bit == bit_contents(*self)[index as int],
    {
        self.bits[index]
    }
}

/// The character that stands for a bit in text.
pub open spec fn bit_char(bit: bool) -> char {
    if bit {
        '1'
    } else {
        '0'
    }
}

/// One transmission burst: the bits of a packet, the bit received last at
/// index 0.
#[derive(Debug, PartialEq, Eq)]
pub struct Packet {
    data: DataVec,
}

impl View for Packet {
    type V = Seq<bool>;

    closed spec fn view(&self) -> Seq<bool> {
        bit_contents(self.data)
    }
}

impl Packet {
    /// The packet whose stored bits are `bits`, in that order.
    pub fn from_bits(bits: &[bool]) -> (packet: Packet)
        requires
            bits@.len() <= max_bits(),
        ensures
            packet@ == bits@,
    {
        let mut data = DataVec::new();
        let mut i: usize = 0;
        while i < bits.len()
            invariant
                i <= bits@.len() <= max_bits(),
                bit_contents(data) == bits@.take(i as int),
            decreases bits@.len() - i,
        {
            data.push(bits[i]);
            i += 1;
        }
        Packet { data }
    }

    /// The packet of a bit run given in the order of reception: it stores
    /// the run reversed.
    pub fn from_reception(received: &[bool]) -> (packet: Packet)
        requires
            received@.len() <= max_bits(),
        ensures
            packet@ == received@.reverse(),
    {
        let mut data = DataVec::new();
        let n = received.len();
        let mut i: usize = n;
        while i > 0
            invariant
                i <= n == received@.len() <= max_bits(),
                bit_contents(data) == received@.reverse().take(n - i),
            decreases i,
        {
            i -= 1;
            data.push(received[i]);
        }
        Packet { data }
    }

    /// The number of bits in the packet.
    pub fn len(&self) -> (len: usize)
        ensures
            len == self@.len(),
    {
        self.data.len()
    }

    /// The stored bits, index 0 first.
    pub fn bits(&self) -> (bits: Vec<bool>)
        ensures
            bits@ == self@,
    {
        let n = self.data.len();
        let mut bits: Vec<bool> = Vec::new();
        let mut i: usize = 0;
        while i < n
            invariant
                i <= n == self@.len(),
                bits@ == self@.take(i as int),
            decreases n - i,
        {
            bits.push(self.data.get(i));
            i += 1;
        }
        bits
    }

    /// The packet as text: one `'0'` or `'1'` for each stored bit, index 0
    /// first.
    pub fn to_string(&self) -> (text: String)
        ensures
            text@ == self@.map_values(|bit: bool| bit_char(bit)),
    {
        let n = self.data.len();
        let mut text = String::new();
        let mut i: usize = 0;
        proof {
            reveal_strlit("0");
            reveal_strlit("1");
        }
        while i < n
            invariant
                i <= n == self@.len(),
                "0"@ == seq!['0'],
                "1"@ == seq!['1'],
                text@ == self@.take(i as int).map_values(|bit: bool| bit_char(bit)),
            decreases n - i,
        {
            if self.data.get(i) {
                text.append("1");
            } else {
                text.append("0");
            }
            i += 1;
        }
        text
    }
}

impl Default for Packet {
    /// The packet without bits.
    fn default() -> (packet: Packet)
        ensures
            packet@ == Seq::<bool>::empty(),
    {
        Packet { data: DataVec::new() }
    }
}

/// What a parsed signal holds.
pub struct ParsedSignalView {
    pub name: Seq<char>,
    pub kind: SignalType,
    pub frequency: u32,
    pub duty_cycle: Seq<char>,
    pub packets: Seq<Seq<bool>>,
}

/// One signal of a dump, decoded into its packets.
#[derive(Debug)]
pub struct ParsedSignal {
    name: String,
    kind: SignalType,
    frequency: u32,
    duty_cycle: String,
    packets: Vec<Packet>,
}

impl View for ParsedSignal {
    type V = ParsedSignalView;

    closed spec fn view(&self) -> ParsedSignalView {
        ParsedSignalView {
            name: self.name@,
            kind: self.kind,
            frequency: self.frequency,
            duty_cycle: self.duty_cycle@,
            packets: bits_of(self.packets@),
        }
    }
}

impl ParsedSignal {
    /// A parsed signal of the given parts.
    pub fn new(
        name: String,
        kind: SignalType,
        frequency: u32,
        duty_cycle: String,
        packets: Vec<Packet>,
    ) -> (signal: ParsedSignal)
        ensures
            signal@ == (ParsedSignalView {
                name: name@,
                kind,
                frequency,
                duty_cycle: duty_cycle@,
                packets: bits_of(packets@),
            }),
    {
        ParsedSignal { name, kind, frequency, duty_cycle, packets }
    }

    /// Decodes a raw signal: its durations are demodulated into packets,
    /// and the name and the carrier are taken over as they are.
    pub fn try_from(raw: &RawSignal) -> (result: Result<ParsedSignal, ParseError>)
        requires
            raw@.data.len() <= 2 * max_bits(),
        ensures
            match result {
                Ok(signal) => dump_of(slots_of(raw@.data)) == Ok::<_, ParseError>(
                    signal@.packets,
                ) && signal@.name == raw@.name && signal@.kind == raw@.kind && signal@.frequency
                    == raw@.frequency && signal@.duty_cycle == raw@.duty_cycle,
                Err(error) => dump_of(slots_of(raw@.data)) == Err::<Seq<Seq<bool>>, _>(error),
            },
    {
        match stream_to_packets(raw.data()) {
            Ok(packets) => Ok(
                ParsedSignal {
                    name: raw.name().to_owned(),
                    kind: raw.kind(),
                    frequency: raw.frequency(),
                    duty_cycle: raw.duty_cycle().to_owned(),
                    packets,
                },
            ),
            Err(error) => Err(error),
        }
    }

    /// The name of the signal.
    pub fn name(&self) -> (name: &str)
        ensures
            name@ == self@.name,
    {
        self.name.as_str()
    }

    /// How the signal was recorded.
    pub fn kind(&self) -> (kind: SignalType)
        ensures
            kind == self@.kind,
    {
        self.kind
    }

    /// The carrier frequency in hertz.
    pub fn frequency(&self) -> (frequency: u32)
        ensures
            frequency == self@.frequency,
    {
        self.frequency
    }

    /// The duty cycle of the carrier, as the number written in the dump.
    pub fn duty_cycle(&self) -> (duty_cycle: &str)
        ensures
            duty_cycle@ == self@.duty_cycle,
    {
        self.duty_cycle.as_str()
    }

    /// The packets of the signal, in the order of transmission.
    pub fn packets(&self) -> (packets: &[Packet])
        ensures
            bits_of(packets@) == self@.packets,
    {
        self.packets.as_slice()
    }
}

} // verus!
