use flipper_ir_dumps::signal::parsed::parsing::{
    ir_dump_start, ir_dump_to_packets, packet_bit, packet_end, packet_start, single_packet,
    stream_to_packets, stream_to_signals, DurationClass, ParseError, SignalComponent, TimeSlot,
};
use flipper_ir_dumps::signal::Packet;

fn pulse(duration: DurationClass) -> TimeSlot {
    TimeSlot { duration, component: SignalComponent::Pulse }
}

fn pause(duration: DurationClass) -> TimeSlot {
    TimeSlot { duration, component: SignalComponent::Pause }
}

const SHORT: DurationClass = DurationClass::Short;
const LONG: DurationClass = DurationClass::Long;

fn unusual(duration: u32) -> DurationClass {
    DurationClass::Unusual(duration)
}

#[test]
fn test_ir_dump_start() {
    let stream = vec![pulse(SHORT), pause(SHORT)];
    assert!(ir_dump_start(&stream).is_err());

    let stream = vec![pulse(SHORT), pause(unusual(17700))];
    assert_eq!(ir_dump_start(&stream), Ok((&[][..], ())));

    let stream = vec![pulse(SHORT), pulse(unusual(17700))];
    assert!(ir_dump_start(&stream).is_err());
}

#[test]
fn test_packet_start() {
    let stream = vec![pulse(SHORT), pause(SHORT)];
    assert!(packet_start(&stream).is_err());

    let stream = vec![pulse(SHORT), pause(SHORT), pulse(SHORT), pause(SHORT)];
    assert!(packet_start(&stream).is_err());

    let stream = vec![pulse(unusual(2972)), pause(unusual(8930))];
    assert_eq!(packet_start(&stream), Ok((&[][..], ())));
}

#[test]
fn test_signal_bit() {
    let stream = vec![pulse(SHORT), pause(SHORT)];
    assert_eq!(packet_bit(&stream), Ok((&[][..], false)));

    let stream = vec![pulse(SHORT), pause(LONG)];
    assert_eq!(packet_bit(&stream), Ok((&[][..], true)));

    let stream = vec![pulse(SHORT), pause(SHORT), pulse(SHORT), pause(LONG)];
    assert_eq!(
        packet_bit(&stream),
        Ok((&[pulse(SHORT), pause(LONG)][..], false))
    );
}

#[test]
fn test_single_packet() {
    let stream = vec![
        pulse(unusual(2972)),
        pause(unusual(8930)),
        pulse(SHORT),
        pause(SHORT),
        pulse(SHORT),
        pause(LONG),
        pulse(SHORT),
    ];

    assert_eq!(
        single_packet(&stream),
        Ok((
            &[][..],
            // the bits 0, 1 of the stream are the bits 1, 0 of the packet
            Packet::from_bits(&[true, false])
        ))
    );
}

#[test]
fn test_ir_dump() {
    let stream = vec![
        // dump header
        pulse(SHORT),
        pause(unusual(17700)),
        // packet header
        pulse(unusual(2972)),
        pause(unusual(8930)),
        // 0 bit
        pulse(SHORT),
        pause(SHORT),
        // 1 bit
        pulse(SHORT),
        pause(LONG),
        // packet end (with pause due to next packet)
        pulse(SHORT),
        pause(unusual(2920)),
        // packet header
        pulse(unusual(2972)),
        pause(unusual(8930)),
        // 1 bit
        pulse(SHORT),
        pause(LONG),
        // 0 bit
        pulse(SHORT),
        pause(SHORT),
        // packet end (last packet)
        pulse(SHORT),
        // dump end
    ];

    assert_eq!(
        ir_dump_to_packets(&stream),
        Ok((
            &[][..],
            vec![
                Packet::from_bits(&[true, false]),
                Packet::from_bits(&[false, true])
            ]
        ))
    );
}

#[test]
fn classifier_sorts_durations_into_bands() {
    let slots = stream_to_signals(&[550, 1650, 274, 275, 824, 825, 1374, 1375, 1924, 1925, 0]);
    let classes: Vec<DurationClass> = slots.iter().map(|slot| slot.duration).collect();
    assert_eq!(
        classes,
        vec![
            SHORT,
            LONG,
            unusual(274),
            SHORT,
            SHORT,
            unusual(825),
            unusual(1374),
            LONG,
            LONG,
            unusual(1925),
            unusual(0),
        ]
    );
}

#[test]
fn classifier_keeps_the_unrounded_duration() {
    let slots = stream_to_signals(&[2972, 17700, u32::MAX]);
    assert_eq!(
        slots,
        vec![pulse(unusual(2972)), pause(unusual(17700)), pulse(unusual(u32::MAX))]
    );
}

#[test]
fn classifier_assigns_components_by_parity() {
    let first = stream_to_signals(&[550, 550, 1650, 9999, 1, 2]);
    let second = stream_to_signals(&[1, 2, 3, 4, 5, 6, 7]);
    for (index, slot) in first.iter().enumerate() {
        let expected = if index % 2 == 0 { SignalComponent::Pulse } else { SignalComponent::Pause };
        assert_eq!(slot.component, expected);
        assert_eq!(slot.component, second[index].component);
    }
    assert_eq!(second.len(), 7);
    assert_eq!(stream_to_signals(&[]), vec![]);
}

#[test]
fn classifier_is_deterministic() {
    let timings = [550, 17700, 2972, 8930, 550, 550, 550, 1650, 550];
    assert_eq!(stream_to_signals(&timings), stream_to_signals(&timings));
}

#[test]
fn empty_stream_fails_at_the_dump_start() {
    assert_eq!(ir_dump_to_packets(&[]), Err(ParseError::DumpStart { remaining: 0 }));
    assert_eq!(ir_dump_start(&[]), Err(ParseError::DumpStart { remaining: 0 }));
    assert_eq!(stream_to_packets(&[]), Err(ParseError::DumpStart { remaining: 0 }));
}

#[test]
fn dump_start_without_packet_fails_at_the_packets() {
    let stream = vec![pulse(SHORT), pause(unusual(17700))];
    assert_eq!(ir_dump_to_packets(&stream), Err(ParseError::NoPacket { remaining: 0 }));

    let stream = vec![pulse(SHORT), pause(unusual(17700)), pulse(SHORT), pause(SHORT)];
    assert_eq!(ir_dump_to_packets(&stream), Err(ParseError::NoPacket { remaining: 2 }));

    // a packet without bits is no packet
    let stream = vec![
        pulse(SHORT),
        pause(unusual(17700)),
        pulse(unusual(2972)),
        pause(unusual(8930)),
        pulse(SHORT),
    ];
    assert_eq!(ir_dump_to_packets(&stream), Err(ParseError::NoPacket { remaining: 3 }));
}

#[test]
fn slots_behind_the_last_packet_fail_the_dump() {
    let stream = vec![
        pulse(SHORT),
        pause(unusual(17700)),
        pulse(unusual(2972)),
        pause(unusual(8930)),
        pulse(SHORT),
        pause(LONG),
        pulse(SHORT),
        pause(unusual(2920)),
        pulse(SHORT),
        pause(SHORT),
    ];
    assert_eq!(ir_dump_to_packets(&stream), Err(ParseError::Trailing { remaining: 2 }));
    assert_eq!(ParseError::Trailing { remaining: 2 }.remaining(), 2);
}

#[test]
fn dump_start_needs_a_pause_above_the_threshold() {
    // 26 short durations are not enough, 27 are
    let stream = vec![pulse(SHORT), pause(unusual(27 * 550 - 1))];
    assert_eq!(ir_dump_start(&stream), Err(ParseError::DumpStart { remaining: 2 }));
    let stream = vec![pulse(SHORT), pause(unusual(27 * 550)), pulse(SHORT)];
    assert_eq!(ir_dump_start(&stream), Ok((&[pulse(SHORT)][..], ())));
    let stream = vec![pulse(LONG), pause(unusual(17700))];
    assert_eq!(ir_dump_start(&stream), Err(ParseError::DumpStart { remaining: 2 }));
    let stream = vec![pulse(SHORT)];
    assert_eq!(ir_dump_start(&stream), Err(ParseError::DumpStart { remaining: 1 }));
}

#[test]
fn packet_start_bands() {
    let ok = |p: u32, q: u32| packet_start(&[pulse(unusual(p)), pause(unusual(q))]).is_ok();
    assert!(ok(4 * 550, 15 * 550));
    assert!(ok(7 * 550 - 1, 20 * 550 - 1));
    assert!(!ok(4 * 550 - 1, 15 * 550));
    assert!(!ok(7 * 550, 15 * 550));
    assert!(!ok(4 * 550, 15 * 550 - 1));
    assert!(!ok(4 * 550, 20 * 550));
    assert_eq!(packet_start(&[]), Err(ParseError::PacketStart { remaining: 0 }));
    assert_eq!(
        packet_start(&[pause(unusual(2972)), pause(unusual(8930))]),
        Err(ParseError::PacketStart { remaining: 2 })
    );
}

#[test]
fn packet_bit_rejects_what_is_no_bit() {
    assert_eq!(packet_bit(&[]), Err(ParseError::Bit { remaining: 0 }));
    assert_eq!(packet_bit(&[pulse(SHORT)]), Err(ParseError::Bit { remaining: 1 }));
    assert_eq!(
        packet_bit(&[pulse(SHORT), pause(unusual(2920))]),
        Err(ParseError::Bit { remaining: 2 })
    );
    assert_eq!(
        packet_bit(&[pulse(LONG), pause(SHORT)]),
        Err(ParseError::Bit { remaining: 2 })
    );
    assert_eq!(
        packet_bit(&[pulse(SHORT), pulse(SHORT)]),
        Err(ParseError::Bit { remaining: 2 })
    );
}

#[test]
fn packet_end_forms() {
    assert_eq!(packet_end(&[pulse(SHORT)]), Ok((&[][..], ())));
    assert_eq!(
        packet_end(&[pulse(SHORT), pause(unusual(2920)), pulse(SHORT)]),
        Ok((&[pulse(SHORT)][..], ()))
    );
    assert_eq!(packet_end(&[]), Err(ParseError::PacketEnd { remaining: 0 }));
    assert_eq!(
        packet_end(&[pulse(SHORT), pause(unusual(7 * 550))]),
        Err(ParseError::PacketEnd { remaining: 2 })
    );
    assert_eq!(
        packet_end(&[pulse(SHORT), pause(unusual(4 * 550 - 1))]),
        Err(ParseError::PacketEnd { remaining: 2 })
    );
    assert_eq!(
        packet_end(&[pulse(SHORT), pulse(SHORT)]),
        Err(ParseError::PacketEnd { remaining: 2 })
    );
    assert_eq!(packet_end(&[pause(SHORT)]), Err(ParseError::PacketEnd { remaining: 1 }));
}

#[test]
fn single_packet_errors() {
    assert_eq!(single_packet(&[]), Err(ParseError::PacketStart { remaining: 0 }));
    assert_eq!(
        single_packet(&[pulse(unusual(2972)), pause(unusual(8930)), pulse(SHORT)]),
        Err(ParseError::Bit { remaining: 1 })
    );
    assert_eq!(
        single_packet(&[
            pulse(unusual(2972)),
            pause(unusual(8930)),
            pulse(SHORT),
            pause(LONG),
            pulse(LONG),
        ]),
        Err(ParseError::PacketEnd { remaining: 1 })
    );
    assert_eq!(
        single_packet(&[pulse(unusual(2972)), pause(unusual(8930)), pulse(SHORT), pause(LONG)]),
        Err(ParseError::PacketEnd { remaining: 0 })
    );
}

#[test]
fn packet_stores_the_bits_reversed() {
    let received = [true, true, false, true, false, false, false];
    let mut stream = vec![pulse(unusual(2972)), pause(unusual(8930))];
    for bit in received {
        stream.push(pulse(SHORT));
        stream.push(pause(if bit { LONG } else { SHORT }));
    }
    stream.push(pulse(SHORT));
    let (rest, packet) = single_packet(&stream).unwrap();
    assert!(rest.is_empty());
    let mut expected = received.to_vec();
    expected.reverse();
    assert_eq!(packet.bits(), expected);
    assert_eq!(packet.bits()[0], received[received.len() - 1]);
    assert_eq!(packet.to_string(), "0001011");
}

#[test]
fn one_record_with_two_bits() {
    let packets = stream_to_packets(&[550, 17700, 2972, 8930, 550, 550, 550, 1650, 550]).unwrap();
    assert_eq!(packets.len(), 1);
    assert_eq!(packets[0].bits(), vec![true, false]);
}

#[test]
fn two_packets_with_a_gap_between_them() {
    let packets = stream_to_packets(&[
        550, 17700, 2972, 8930, 550, 550, 550, 1650, 550, 2920, 2972, 8930, 550, 1650, 550, 550,
        550,
    ])
    .unwrap();
    assert_eq!(packets.len(), 2);
    assert_eq!(packets[0].bits(), vec![true, false]);
    assert_eq!(packets[1].bits(), vec![false, true]);
    assert_eq!(packets[0].to_string(), "10");
    assert_eq!(packets[1].to_string(), "01");
}

#[test]
fn odd_trace_without_closing_pulse_fails() {
    assert_eq!(
        stream_to_packets(&[550, 17700, 2972, 8930, 550, 550, 550, 1650]),
        Err(ParseError::NoPacket { remaining: 6 })
    );
}
