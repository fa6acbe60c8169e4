//! Decoded signals as rows of a table.

use crate::signal::parsed::{bit_char, ParsedSignal};
use vstd::prelude::*;

verus! {

/// The text of a packet: one `'0'` or `'1'` for each stored bit, index 0
/// first.
pub open spec fn packet_text(bits: Seq<bool>) -> Seq<char> {
    bits.map_values(|bit: bool| bit_char(bit))
}

/// The row of a signal: its name, then the text of each of its packets.
pub open spec fn row_of(name: Seq<char>, packets: Seq<Seq<bool>>) -> Seq<Seq<char>> {
    seq![name] + packets.map_values(|bits: Seq<bool>| packet_text(bits))
}

/// The text of each cell of a row.
pub open spec fn cells(row: Seq<String>) -> Seq<Seq<char>> {
    row.map_values(|cell: String| cell@)
}

/// The row of a decoded signal for a table with one row for each signal:
/// the name in the first column, then one column for each packet. Rows
/// differ in length where signals differ in the number of their packets.
pub fn csv_record(signal: &ParsedSignal) -> (record: Vec<String>)
    ensures
        cells(record@) == row_of(signal@.name, signal@.packets),
{
    let packets = signal.packets();
    let mut record: Vec<String> = Vec::new();
    record.push(signal.name().to_owned());
    let mut i: usize = 0;
    while i < packets.len()
        invariant
            i <= packets@.len(),
            packets@.len() == signal@.packets.len(),
            forall|j: int|
                0 <= j < packets@.len() ==> (#[trigger] packets@[j])@ == signal@.packets[j],
            cells(record@) == row_of(signal@.name, signal@.packets.take(i as int)),
        decreases packets@.len() - i,
    {
        let text = packets[i].to_string();
        record.push(text);
        proof {
            let taken = signal@.packets.take(i as int);
            let longer = signal@.packets.take(i + 1);
            assert(row_of(signal@.name, longer) =~= row_of(signal@.name, taken).push(
                packet_text(signal@.packets[i as int]),
            ));
        }
        i += 1;
    }
    record
}

} // verus!
