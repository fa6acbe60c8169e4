//! Positions in text: where the bytes of a string may be cut.
//!
//! Every token of the grammar is ASCII, so the position before or behind a
//! token lies between two characters of the text.

use vstd::prelude::*;
use vstd::string::StringSliceAdditionalSpecFns;
use vstd::utf8::{
    decode_utf8, is_char_boundary, length_of_first_scalar, pop_first_scalar, valid_utf8,
};

verus! {

/// Whether a byte is an ASCII character.
pub open spec fn is_ascii_byte(byte: u8) -> bool {
    byte < 128
}

/// In valid UTF-8 the position of an ASCII byte, and the end of the bytes,
/// lie between two characters.
pub proof fn lemma_boundary_at_ascii(bytes: Seq<u8>, pos: int)
    requires
        valid_utf8(bytes),
        0 <= pos <= bytes.len(),
        pos == bytes.len() || is_ascii_byte(bytes[pos]),
    ensures
        is_char_boundary(bytes, pos),
{
    if pos == bytes.len() {
        vstd::utf8::is_char_boundary_start_end_of_seq(bytes);
    } else {
        vstd::utf8::is_char_boundary_iff_not_is_continuation_byte(bytes, pos);
    }
}

/// In valid UTF-8 the position behind an ASCII byte lies between two
/// characters.
pub proof fn lemma_boundary_after_ascii(bytes: Seq<u8>, pos: int)
    requires
        valid_utf8(bytes),
        0 < pos <= bytes.len(),
        is_ascii_byte(bytes[pos - 1]),
    ensures
        is_char_boundary(bytes, pos),
    decreases bytes.len(),
{
    let first = length_of_first_scalar(bytes);
    let tail = pop_first_scalar(bytes);
    if pos == 1 {
        assert(is_char_boundary(tail, 0));
    } else if pos > first {
        lemma_boundary_after_ascii(tail, pos - first);
    }
    // Between these the byte before `pos` would continue the first character,
    // and so would not be ASCII.
}

/// In valid UTF-8, a position between two characters stays one in what
/// is left when the bytes before another such position are taken away.
pub proof fn lemma_boundary_in_suffix(bytes: Seq<u8>, from: int, to: int)
    requires
        valid_utf8(bytes),
        0 <= from <= to <= bytes.len(),
        is_char_boundary(bytes, from),
        is_char_boundary(bytes, to),
    ensures
        valid_utf8(bytes.skip(from)),
        is_char_boundary(bytes.skip(from), to - from),
{
    vstd::utf8::valid_utf8_split(bytes, from);
    let tail = bytes.skip(from);
    if to == bytes.len() {
        vstd::utf8::is_char_boundary_start_end_of_seq(tail);
    } else {
        vstd::utf8::is_char_boundary_iff_not_is_continuation_byte(bytes, to);
        vstd::utf8::is_char_boundary_iff_not_is_continuation_byte(tail, to - from);
    }
}

/// The input from the byte at `from` on.
pub(crate) fn tail_of<'a>(input: &'a str, from: usize) -> (tail: &'a str)
    requires
        from <= input.spec_bytes().len(),
        is_char_boundary(input.spec_bytes(), from as int),
    ensures
        tail.spec_bytes() == input.spec_bytes().skip(from as int),
{
    let (_, tail) = input.split_at(from);
    tail
}

/// The input from the byte at `from` up to the byte at `to`.
pub(crate) fn piece_of<'a>(input: &'a str, from: usize, to: usize) -> (piece: &'a str)
    requires
        from <= to <= input.spec_bytes().len(),
        is_char_boundary(input.spec_bytes(), from as int),
        is_char_boundary(input.spec_bytes(), to as int),
    ensures
        piece@ == decode_utf8(input.spec_bytes().subrange(from as int, to as int)),
{
    let tail = tail_of(input, from);
    proof {
        vstd::utf8::encode_utf8_valid_utf8(input@);
        lemma_boundary_in_suffix(input.spec_bytes(), from as int, to as int);
    }
    let (piece, _) = tail.split_at(to - from);
    proof {
        assert(piece.spec_bytes() =~= input.spec_bytes().subrange(from as int, to as int));
        vstd::utf8::encode_utf8_decode_utf8(piece@);
    }
    piece
}

} // verus!
