//! From durations to packets: the timing classes and the packet grammar.
//!
//! Each rule of the grammar matches a prefix of the slots it is given and
//! hands back the slots behind it, or fails and says how many slots were
//! left where it failed.

use super::{max_bits, Packet};
use crate::utils::{nearest_multiple, round_to};
use vstd::prelude::*;
use vstd::slice::slice_subrange;

verus! {

/// The nominal length of a short pulse or pause, in microseconds.
pub const SHORT_DURATION: u32 = 550;

/// The nominal length of the long pause of a one bit.
pub const LONG_BIT_DURATION: u32 = 3 * SHORT_DURATION;

/// The unit to which a duration is rounded before it is classified.
pub const ROUND_TO: u32 = SHORT_DURATION;

/// The pause that opens a dump is longer than this many short durations.
pub const DUMP_START_PAUSE_ABOVE: u32 = 26;

/// The pulse that opens a packet lasts from this many short durations on.
pub const PACKET_PULSE_FROM: u32 = 4;

/// The pulse that opens a packet lasts fewer than this many short durations.
pub const PACKET_PULSE_BELOW: u32 = 7;

/// The pause that opens a packet lasts from this many short durations on.
pub const PACKET_PAUSE_FROM: u32 = 15;

/// The pause that opens a packet lasts fewer than this many short durations.
pub const PACKET_PAUSE_BELOW: u32 = 20;

/// The gap between two packets lasts from this many short durations on.
pub const GAP_FROM: u32 = 4;

/// The gap between two packets lasts fewer than this many short durations.
pub const GAP_BELOW: u32 = 7;

/// The class of a duration.
#[derive(Debug, PartialEq, Eq, Structural, Clone, Copy)]
pub enum DurationClass {
    /// About one short duration.
    Short,
    /// About three short durations.
    Long,
    /// Anything else, with the duration as it was measured.
    Unusual(u32),
}

/// Whether the signal is on or off during a slot.
#[derive(Debug, PartialEq, Eq, Structural, Clone, Copy)]
pub enum SignalComponent {
    Pulse,
    Pause,
}

/// One classified duration of a signal.
#[derive(Debug, PartialEq, Eq, Structural, Clone, Copy)]
pub struct TimeSlot {
    pub duration: DurationClass,
    pub component: SignalComponent,
}

/// Why a slot sequence is not a dump of packets. Each variant names the rule
/// that failed and tells how many slots were left unconsumed where it failed.
#[derive(Debug, PartialEq, Eq, Structural, Clone, Copy)]
pub enum ParseError {
    /// The slots do not begin with the marker that opens a dump.
    DumpStart { remaining: usize },
    /// The slots do not begin with the marker that opens a packet.
    PacketStart { remaining: usize },
    /// The slots do not begin with a bit.
    Bit { remaining: usize },
    /// The slots do not begin with the marker that closes a packet.
    PacketEnd { remaining: usize },
    /// No packet follows the marker that opens the dump.
    NoPacket { remaining: usize },
    /// Slots are left behind the last packet.
    Trailing { remaining: usize },
}

impl ParseError {
    /// The number of slots that were left unconsumed where the rule failed.
    pub open spec fn spec_remaining(self) -> usize {
        match self {
            ParseError::DumpStart { remaining } => remaining,
            ParseError::PacketStart { remaining } => remaining,
            ParseError::Bit { remaining } => remaining,
            ParseError::PacketEnd { remaining } => remaining,
            ParseError::NoPacket { remaining } => remaining,
            ParseError::Trailing { remaining } => remaining,
        }
    }

    /// The number of slots that were left unconsumed where the rule failed.
    #[verifier::when_used_as_spec(spec_remaining)]
    pub fn remaining(self) -> (remaining: usize)
        ensures
            remaining == self.spec_remaining(),
    {
        match self {
            ParseError::DumpStart { remaining } => remaining,
            ParseError::PacketStart { remaining } => remaining,
            ParseError::Bit { remaining } => remaining,
            ParseError::PacketEnd { remaining } => remaining,
            ParseError::NoPacket { remaining } => remaining,
            ParseError::Trailing { remaining } => remaining,
        }
    }
}

/// The component of the slot at `index`: a pulse at an even index, a pause
/// at an odd one.
pub open spec fn component_at(index: int) -> SignalComponent {
    if index % 2 == 0 {
        SignalComponent::Pulse
    } else {
        SignalComponent::Pause
    }
}

/// The class of a duration: short or long where it rounds to the nominal
/// length, else unusual with the duration unrounded.
pub open spec fn class_of(duration: u32) -> DurationClass {
    let rounded = nearest_multiple(duration as int, ROUND_TO as int);
    if rounded == SHORT_DURATION {
        DurationClass::Short
    } else if rounded == LONG_BIT_DURATION {
        DurationClass::Long
    } else {
        DurationClass::Unusual(duration)
    }
}

/// The slots of a sequence of durations, one for each.
pub open spec fn slots_of(timings: Seq<u32>) -> Seq<TimeSlot> {
    Seq::new(
        timings.len(),
        |i: int| TimeSlot { duration: class_of(timings[i]), component: component_at(i) },
    )
}

/// A duration is short exactly from 275 to 824 microseconds and long exactly
/// from 1375 to 1924.
pub proof fn lemma_class_bands(duration: u32)
    ensures
        class_of(duration) == DurationClass::Short <==> 275 <= duration < 825,
        class_of(duration) == DurationClass::Long <==> 1375 <= duration < 1925,
        class_of(duration) == DurationClass::Unusual(duration) <==> !(275 <= duration < 825)
            && !(1375 <= duration < 1925),
{
}

/// The classifier is a function of the durations: two results for the same
/// durations are the same slots, one for each duration, and the component
/// of each follows from its index alone.
pub proof fn lemma_classifier_deterministic(
    timings: Seq<u32>,
    first: Seq<TimeSlot>,
    second: Seq<TimeSlot>,
)
    requires
        first == slots_of(timings),
        second == slots_of(timings),
    ensures
        first == second,
        first.len() == timings.len(),
        forall|index: int|
            0 <= index < first.len() ==> (#[trigger] first[index]).component == component_at(
                index,
            ),
{
}

/// The component of a slot follows from its index alone: two duration
/// sequences yield the same component wherever both have a slot.
pub proof fn lemma_component_by_parity(first: Seq<u32>, second: Seq<u32>, index: int)
    requires
        0 <= index < first.len(),
        index < second.len(),
    ensures
        slots_of(first)[index].component == component_at(index),
        slots_of(first)[index].component == slots_of(second)[index].component,
{
}

/// Classifies one duration.
fn classify(duration: u32) -> (class: DurationClass)
    ensures
        class == class_of(duration),
{
    let rounded = round_to(duration, ROUND_TO);
    if rounded == SHORT_DURATION {
        DurationClass::Short
    } else if rounded == LONG_BIT_DURATION {
        DurationClass::Long
    } else {
        DurationClass::Unusual(duration)
    }
}

/// Turns the durations of a signal into slots: pulse and pause in turn, the
/// first a pulse, each with the class of its duration.
pub fn stream_to_signals(signal_timings: &[u32]) -> (slots: Vec<TimeSlot>)
    ensures
        slots@ == slots_of(signal_timings@),
{
    let mut slots: Vec<TimeSlot> = Vec::new();
    let mut i: usize = 0;
    while i < signal_timings.len()
        invariant
            i <= signal_timings@.len(),
            slots@ == slots_of(signal_timings@).take(i as int),
        decreases signal_timings@.len() - i,
    {
        let component = if i % 2 == 0 {
            SignalComponent::Pulse
        } else {
            SignalComponent::Pause
        };
        let duration = classify(signal_timings[i]);
        slots.push(TimeSlot { duration, component });
        i += 1;
    }
    slots
}

/// A pulse of about one short duration.
pub open spec fn short_pulse() -> TimeSlot {
    TimeSlot { duration: DurationClass::Short, component: SignalComponent::Pulse }
}

/// The pause of unusual length in a slot, if the slot is such a pause.
pub open spec fn unusual_pause(slot: TimeSlot) -> Option<u32> {
    match slot {
        TimeSlot { duration: DurationClass::Unusual(length), component: SignalComponent::Pause } => Some(
            length,
        ),
        _ => None,
    }
}

/// The pulse of unusual length in a slot, if the slot is such a pulse.
pub open spec fn unusual_pulse(slot: TimeSlot) -> Option<u32> {
    match slot {
        TimeSlot { duration: DurationClass::Unusual(length), component: SignalComponent::Pulse } => Some(
            length,
        ),
        _ => None,
    }
}

/// Whether the slots begin with the marker that opens a dump: a short pulse
/// and a pause of more than 26 short durations.
pub open spec fn starts_dump(slots: Seq<TimeSlot>) -> bool {
    &&& slots.len() >= 2
    &&& slots[0] == short_pulse()
    &&& unusual_pause(slots[1]) matches Some(pause)
    &&& pause / SHORT_DURATION > DUMP_START_PAUSE_ABOVE
}

/// Whether the slots begin with the marker that opens a packet: a pulse of
/// 4 to 6 short durations and a pause of 15 to 19.
pub open spec fn starts_packet(slots: Seq<TimeSlot>) -> bool {
    &&& slots.len() >= 2
    &&& unusual_pulse(slots[0]) matches Some(pulse)
    &&& unusual_pause(slots[1]) matches Some(pause)
    &&& PACKET_PULSE_FROM <= pulse / SHORT_DURATION < PACKET_PULSE_BELOW
    &&& PACKET_PAUSE_FROM <= pause / SHORT_DURATION < PACKET_PAUSE_BELOW
}

/// The bit with which the slots begin: a short pulse and a short pause are
/// a zero, a short pulse and a long pause a one.
pub open spec fn leading_bit(slots: Seq<TimeSlot>) -> Option<bool> {
    if slots.len() >= 2 && slots[0] == short_pulse() && slots[1].component
        == SignalComponent::Pause {
        match slots[1].duration {
            DurationClass::Short => Some(false),
            DurationClass::Long => Some(true),
            DurationClass::Unusual(_) => None,
        }
    } else {
        None
    }
}

/// The number of slots in the marker that closes a packet, if the slots
/// begin with one: a short pulse that ends the slots, or a short pulse and
/// a gap of 4 to 6 short durations.
pub open spec fn packet_end_len(slots: Seq<TimeSlot>) -> Option<nat> {
    if slots.len() == 1 && slots[0] == short_pulse() {
        Some(1)
    } else if slots.len() >= 2 && slots[0] == short_pulse() {
        match unusual_pause(slots[1]) {
            Some(gap) => if GAP_FROM <= gap / SHORT_DURATION < GAP_BELOW {
                Some(2)
            } else {
                None
            },
            None => None,
        }
    } else {
        None
    }
}

/// The longest run of bits with which the slots begin, in the order of
/// reception.
pub open spec fn bit_run(slots: Seq<TimeSlot>) -> Seq<bool>
    decreases slots.len(),
{
    match leading_bit(slots) {
        Some(bit) => seq![bit] + bit_run(slots.skip(2)),
        None => Seq::empty(),
    }
}

/// The packet with which the slots begin, as its stored bits, and the slots
/// behind it; or the rule that fails first. The stored bits are the bit run
/// reversed.
pub open spec fn packet_of(slots: Seq<TimeSlot>) -> Result<(Seq<bool>, Seq<TimeSlot>), ParseError> {
    if !starts_packet(slots) {
        Err(ParseError::PacketStart { remaining: slots.len() as usize })
    } else {
        let body = slots.skip(2);
        let run = bit_run(body);
        let tail = body.skip(2 * run.len() as int);
        if run.len() == 0 {
            Err(ParseError::Bit { remaining: body.len() as usize })
        } else {
            match packet_end_len(tail) {
                Some(n) => Ok((run.reverse(), tail.skip(n as int))),
                None => Err(ParseError::PacketEnd { remaining: tail.len() as usize }),
            }
        }
    }
}

/// The packets with which the slots begin, as many as follow one another,
/// and the slots behind the last of them. A packet takes slots
/// ([`lemma_packet_consumes`]), so each packet is looked for in fewer slots
/// than the one before it.
pub open spec fn packets_of(slots: Seq<TimeSlot>) -> (Seq<Seq<bool>>, Seq<TimeSlot>)
    decreases slots.len(),
{
    match packet_of(slots) {
        Ok((bits, rest)) => if rest.len() < slots.len() {
            let (more, left) = packets_of(rest);
            (seq![bits] + more, left)
        } else {
            (seq![bits], rest)
        },
        Err(_) => (Seq::empty(), slots),
    }
}

/// The packets of a whole dump: the opening marker, then one packet or more
/// up to the last slot; or the rule that fails first.
pub open spec fn dump_of(slots: Seq<TimeSlot>) -> Result<Seq<Seq<bool>>, ParseError> {
    if !starts_dump(slots) {
        Err(ParseError::DumpStart { remaining: slots.len() as usize })
    } else {
        let body = slots.skip(2);
        let (packets, left) = packets_of(body);
        if packets.len() == 0 {
            Err(ParseError::NoPacket { remaining: body.len() as usize })
        } else if left.len() > 0 {
            Err(ParseError::Trailing { remaining: left.len() as usize })
        } else {
            Ok(packets)
        }
    }
}

/// The stored bits of each packet of a list.
pub open spec fn bits_of(packets: Seq<Packet>) -> Seq<Seq<bool>> {
    packets.map_values(|packet: Packet| packet@)
}

/// The bit run takes two slots for each bit.
pub proof fn lemma_bit_run_len(slots: Seq<TimeSlot>)
    ensures
        2 * bit_run(slots).len() <= slots.len(),
    decreases slots.len(),
{
    if leading_bit(slots) is Some {
        lemma_bit_run_len(slots.skip(2));
    }
}

/// A packet takes at least five slots, so what is left behind it is shorter.
pub proof fn lemma_packet_consumes(slots: Seq<TimeSlot>)
    ensures
        packet_of(slots) matches Ok((_, rest)) ==> rest.len() + 5 <= slots.len(),
{
    lemma_bit_run_len(slots.skip(2));
}

/// Whether a slot is a pause.
fn is_pause(slot: &TimeSlot) -> (pause: bool)
    ensures
        pause == (slot.component == SignalComponent::Pause),
{
    match slot.component {
        SignalComponent::Pause => true,
        SignalComponent::Pulse => false,
    }
}

/// Whether a slot is a short pulse.
fn is_short_pulse(slot: &TimeSlot) -> (short: bool)
    ensures
        short == (*slot == short_pulse()),
{
    match slot {
        TimeSlot { duration: DurationClass::Short, component: SignalComponent::Pulse } => true,
        _ => false,
    }
}

/// Whether a slot is an unusual duration of at least `from` and fewer than
/// `below` short durations.
fn unusual_within(slot: &TimeSlot, from: u32, below: u32) -> (within: bool)
    ensures
        within == (slot.duration matches DurationClass::Unusual(length) && from <= length
            / SHORT_DURATION < below),
{
    match slot.duration {
        DurationClass::Unusual(length) => from <= length / SHORT_DURATION && length
            / SHORT_DURATION < below,
        _ => false,
    }
}

/// Matches the marker that opens a dump and hands back the slots behind it.
pub fn ir_dump_start(stream: &[TimeSlot]) -> (result: Result<(&[TimeSlot], ()), ParseError>)
    ensures
        match result {
            Ok((rest, _)) => starts_dump(stream@) && rest@ == stream@.skip(2),
            Err(error) => !starts_dump(stream@) && error == (ParseError::DumpStart {
                remaining: stream@.len() as usize,
            }),
        },
{
    if stream.len() >= 2 && is_short_pulse(&stream[0]) && is_pause(&stream[1]) {
        match stream[1].duration {
            DurationClass::Unusual(pause) => {
                if pause / SHORT_DURATION > DUMP_START_PAUSE_ABOVE {
                    return Ok((slice_subrange(stream, 2, stream.len()), ()));
                }
            },
            _ => {},
        }
    }
    Err(ParseError::DumpStart { remaining: stream.len() })
}

/// Matches one bit and hands it back with the slots behind it.
pub fn packet_bit(stream: &[TimeSlot]) -> (result: Result<(&[TimeSlot], bool), ParseError>)
    ensures
        match result {
            Ok((rest, bit)) => leading_bit(stream@) == Some(bit) && rest@ == stream@.skip(2),
            Err(error) => leading_bit(stream@) is None && error == (ParseError::Bit {
                remaining: stream@.len() as usize,
            }),
        },
{
    if stream.len() >= 2 && is_short_pulse(&stream[0]) && is_pause(&stream[1]) {
        match stream[1].duration {
            DurationClass::Short => {
                return Ok((slice_subrange(stream, 2, stream.len()), false));
            },
            DurationClass::Long => {
                return Ok((slice_subrange(stream, 2, stream.len()), true));
            },
            DurationClass::Unusual(_) => {},
        }
    }
    Err(ParseError::Bit { remaining: stream.len() })
}

/// Matches the marker that opens a packet and hands back the slots behind
/// it.
pub fn packet_start(stream: &[TimeSlot]) -> (result: Result<(&[TimeSlot], ()), ParseError>)
    ensures
        match result {
            Ok((rest, _)) => starts_packet(stream@) && rest@ == stream@.skip(2),
            Err(error) => !starts_packet(stream@) && error == (ParseError::PacketStart {
                remaining: stream@.len() as usize,
            }),
        },
{
    if stream.len() >= 2 && !is_pause(&stream[0]) && is_pause(&stream[1]) && unusual_within(
        &stream[0],
        PACKET_PULSE_FROM,
        PACKET_PULSE_BELOW,
    ) && unusual_within(&stream[1], PACKET_PAUSE_FROM, PACKET_PAUSE_BELOW) {
        Ok((slice_subrange(stream, 2, stream.len()), ()))
    } else {
        Err(ParseError::PacketStart { remaining: stream.len() })
    }
}

/// Matches the marker that closes a packet and hands back the slots behind
/// it.
pub fn packet_end(stream: &[TimeSlot]) -> (result: Result<(&[TimeSlot], ()), ParseError>)
    ensures
        match result {
            Ok((rest, _)) => packet_end_len(stream@) matches Some(n) && rest@ == stream@.skip(
                n as int,
            ),
            Err(error) => packet_end_len(stream@) is None && error == (ParseError::PacketEnd {
                remaining: stream@.len() as usize,
            }),
        },
{
    if stream.len() == 1 && is_short_pulse(&stream[0]) {
        Ok((slice_subrange(stream, 1, stream.len()), ()))
    } else if stream.len() >= 2 && is_short_pulse(&stream[0]) && is_pause(&stream[1])
        && unusual_within(&stream[1], GAP_FROM, GAP_BELOW) {
        Ok((slice_subrange(stream, 2, stream.len()), ()))
    } else {
        Err(ParseError::PacketEnd { remaining: stream.len() })
    }
}

/// Matches one packet: the opening marker, one bit or more, the closing
/// marker. Hands back the slots behind it and the packet, which stores the
/// bits in the reverse of the order in which they were received.
pub fn single_packet(stream: &[TimeSlot]) -> (result: Result<(&[TimeSlot], Packet), ParseError>)
    requires
        stream@.len() <= 2 * max_bits(),
    ensures
        match result {
            Ok((rest, packet)) => packet_of(stream@) == Ok::<_, ParseError>((packet@, rest@)),
            Err(error) => packet_of(stream@) == Err::<(Seq<bool>, Seq<TimeSlot>), _>(error),
        },
{
    let body = match packet_start(stream) {
        Ok((body, _)) => body,
        Err(error) => {
            return Err(error);
        },
    };
    let mut received: Vec<bool> = Vec::new();
    let mut rest = body;
    loop
        invariant
            2 * received@.len() <= body@.len(),
            rest@ == body@.skip(2 * received@.len() as int),
            bit_run(body@) == received@ + bit_run(rest@),
        ensures
            leading_bit(rest@) is None,
        decreases rest@.len(),
    {
        match packet_bit(rest) {
            Ok((next, bit)) => {
                received.push(bit);
                rest = next;
            },
            Err(_) => {
                break ;
            },
        }
    }
    if received.len() == 0 {
        return Err(ParseError::Bit { remaining: body.len() });
    }
    match packet_end(rest) {
        Ok((rest, _)) => {
            let packet = Packet::from_reception(received.as_slice());
            Ok((rest, packet))
        },
        Err(error) => Err(error),
    }
}

/// Matches a whole dump: the opening marker, then packets up to the last
/// slot. Hands back the packets in the order of the dump, and the slots
/// behind them, of which there are none.
pub fn ir_dump_to_packets(stream: &[TimeSlot]) -> (result: Result<
    (&[TimeSlot], Vec<Packet>),
    ParseError,
>)
    requires
        stream@.len() <= 2 * max_bits(),
    ensures
        match result {
            Ok((rest, packets)) => rest@.len() == 0 && dump_of(stream@) == Ok::<_, ParseError>(
                bits_of(packets@),
            ),
            Err(error) => dump_of(stream@) == Err::<Seq<Seq<bool>>, _>(error),
        },
{
    let body = match ir_dump_start(stream) {
        Ok((body, _)) => body,
        Err(error) => {
            return Err(error);
        },
    };
    let mut packets: Vec<Packet> = Vec::new();
    let mut rest = body;
    loop
        invariant
            rest@.len() <= body@.len() <= 2 * max_bits(),
            packets_of(body@) == (bits_of(packets@) + packets_of(rest@).0, packets_of(rest@).1),
        ensures
            packet_of(rest@) is Err,
        decreases rest@.len(),
    {
        match single_packet(rest) {
            Ok((next, packet)) => {
                proof {
                    lemma_packet_consumes(rest@);
                }
                packets.push(packet);
                rest = next;
            },
            Err(_) => {
                break ;
            },
        }
    }
    if packets.len() == 0 {
        Err(ParseError::NoPacket { remaining: body.len() })
    } else if rest.len() > 0 {
        Err(ParseError::Trailing { remaining: rest.len() })
    } else {
        Ok((rest, packets))
    }
}

/// Decodes the durations of one signal into its packets: the durations are
/// classified, and the slots matched as a whole dump.
pub fn stream_to_packets(signal_timings: &[u32]) -> (result: Result<Vec<Packet>, ParseError>)
    requires
        signal_timings@.len() <= 2 * max_bits(),
    ensures
        match result {
            Ok(packets) => dump_of(slots_of(signal_timings@)) == Ok::<_, ParseError>(
                bits_of(packets@),
            ),
            Err(error) => dump_of(slots_of(signal_timings@)) == Err::<Seq<Seq<bool>>, _>(error),
        },
{
    let signals = stream_to_signals(signal_timings);
    match ir_dump_to_packets(signals.as_slice()) {
        Ok((_, packets)) => Ok(packets),
        Err(error) => Err(error),
    }
}

/// The two slots that carry a bit.
pub open spec fn bit_slots(bit: bool) -> Seq<TimeSlot> {
    seq![
        short_pulse(),
        TimeSlot {
            duration: if bit {
                DurationClass::Long
            } else {
                DurationClass::Short
            },
            component: SignalComponent::Pause,
        },
    ]
}

/// The slots that carry a run of bits, the first bit in front.
pub open spec fn run_slots(run: Seq<bool>) -> Seq<TimeSlot>
    decreases run.len(),
{
    if run.len() == 0 {
        Seq::empty()
    } else {
        bit_slots(run[0]) + run_slots(run.drop_first())
    }
}

/// The slots of a run of bits are read back as that run, followed by the
/// bits with which the slots behind them begin.
pub proof fn lemma_bit_run_of_slots(run: Seq<bool>, tail: Seq<TimeSlot>)
    ensures
        run_slots(run).len() == 2 * run.len(),
        bit_run(run_slots(run) + tail) == run + bit_run(tail),
    decreases run.len(),
{
    if run.len() == 0 {
    } else {
        let rest = run.drop_first();
        let slots = run_slots(run) + tail;
        lemma_bit_run_of_slots(rest, tail);
        assert(slots.skip(2) =~= run_slots(rest) + tail);
    }
}

/// Order of the bits: a packet that is sent as an opening marker, a run of
/// one bit or more and a closing marker stores the run reversed, whatever
/// the run is, and leaves the slots behind the closing marker.
pub proof fn lemma_packet_stores_reversed(
    start: Seq<TimeSlot>,
    run: Seq<bool>,
    end: Seq<TimeSlot>,
)
    requires
        start.len() == 2,
        starts_packet(start),
        run.len() > 0,
        packet_end_len(end) is Some,
    ensures
        packet_of(start + run_slots(run) + end) == Ok::<_, ParseError>(
            (run.reverse(), end.skip(packet_end_len(end)->0 as int)),
        ),
        packet_of(start + run_slots(run) + end)->Ok_0.0[0] == run[run.len() - 1],
        packet_of(start + run_slots(run) + end)->Ok_0.0[run.len() - 1] == run[0],
{
    let slots = start + run_slots(run) + end;
    let body = slots.skip(2);
    lemma_bit_run_of_slots(run, end);
    assert(body =~= run_slots(run) + end);
    assert(body.skip(2 * run.len() as int) =~= end);
}

/// What a dump needs: without slots the rule for the start of the dump
/// fails, and where the start of the dump is not followed by a packet the
/// rule for the packets fails.
pub proof fn lemma_dump_needs_start_and_packet(slots: Seq<TimeSlot>)
    ensures
        slots.len() == 0 ==> dump_of(slots) == Err::<Seq<Seq<bool>>, _>(
            ParseError::DumpStart { remaining: 0 },
        ),
        starts_dump(slots) && packet_of(slots.skip(2)) is Err ==> dump_of(slots) == Err::<
            Seq<Seq<bool>>,
            _,
        >(ParseError::NoPacket { remaining: (slots.len() - 2) as usize }),
        dump_of(slots) is Ok ==> starts_dump(slots) && packet_of(slots.skip(2)) is Ok,
{
}

} // verus!
