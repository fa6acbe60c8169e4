//! The grammar of a dump document, over the bytes of its text.
//!
//! A document is a file type line, a version line, and any number of
//! records of six lines each. Every function here takes the bytes and a
//! position, and gives the position behind what it matches there together
//! with what it read, or the first departure from the grammar.

use super::text::is_ascii_byte;
use crate::signal::raw::RawSignalView;
use crate::signal::SignalType;
use vstd::prelude::*;
use vstd::string::StringSliceAdditionalSpecFns;
use vstd::utf8::decode_utf8;

verus! {

/// The words of the grammar that are matched letter for letter.
#[derive(Debug, PartialEq, Eq, Structural, Clone, Copy)]
pub enum Literal {
    Filetype,
    Version,
    Comment,
    Name,
    Type,
    Raw,
    Frequency,
    DutyCycle,
    Data,
}

impl Literal {
    /// The text of the literal.
    pub open spec fn spec_text(self) -> &'static str {
        match self {
            Literal::Filetype => "Filetype: IR signals file",
            Literal::Version => "Version: ",
            Literal::Comment => "#",
            Literal::Name => "name: ",
            Literal::Type => "type: ",
            Literal::Raw => "raw",
            Literal::Frequency => "frequency: ",
            Literal::DutyCycle => "duty_cycle: ",
            Literal::Data => "data: ",
        }
    }

    /// The text of the literal.
    #[verifier::when_used_as_spec(spec_text)]
    pub fn text(self) -> (text: &'static str)
        ensures
            text == self.spec_text(),
    {
        match self {
            Literal::Filetype => "Filetype: IR signals file",
            Literal::Version => "Version: ",
            Literal::Comment => "#",
            Literal::Name => "name: ",
            Literal::Type => "type: ",
            Literal::Raw => "raw",
            Literal::Frequency => "frequency: ",
            Literal::DutyCycle => "duty_cycle: ",
            Literal::Data => "data: ",
        }
    }

    /// The bytes of the literal.
    pub open spec fn bytes(self) -> Seq<u8> {
        self.spec_text().spec_bytes()
    }
}

/// Every literal is one ASCII character or more.
pub proof fn lemma_literal_ascii(literal: Literal)
    ensures
        literal.bytes().len() > 0,
        forall|i: int| 0 <= i < literal.bytes().len() ==> is_ascii_byte(literal.bytes()[i]),
{
    broadcast use vstd::string::is_ascii_spec_bytes;
    reveal_strlit("Filetype: IR signals file");
    reveal_strlit("Version: ");
    reveal_strlit("#");
    reveal_strlit("name: ");
    reveal_strlit("type: ");
    reveal_strlit("raw");
    reveal_strlit("frequency: ");
    reveal_strlit("duty_cycle: ");
    reveal_strlit("data: ");
    let text = literal.spec_text();
    assert(vstd::string::is_ascii(text));
}

/// What the reader looked for where it gave up.
#[derive(Debug, PartialEq, Eq, Structural, Clone, Copy)]
pub enum Expected {
    /// One of the literals of the grammar.
    Literal(Literal),
    /// The end of a line: a line feed, or a carriage return and a line feed.
    LineEnd,
    /// One decimal digit or more.
    Digits,
    /// A number that fits in 32 bits.
    Number,
    /// A decimal number with an optional sign, fraction and exponent.
    Float,
}

/// Why a text is not a dump document: the position, in bytes from the start
/// of the text, at which the grammar could not be followed, and what was
/// looked for there.
#[derive(Debug, PartialEq, Eq, Structural, Clone, Copy)]
pub struct DumpFormatError {
    pub position: usize,
    pub expected: Expected,
}

/// The error of a position and of what was looked for there.
pub open spec fn error_at(position: int, expected: Expected) -> DumpFormatError {
    DumpFormatError { position: position as usize, expected }
}

/// The byte of a line feed.
pub const LINE_FEED: u8 = 10;

/// The byte of a carriage return.
pub const CARRIAGE_RETURN: u8 = 13;

/// The byte of the digit zero.
pub const DIGIT_ZERO: u8 = 48;

/// The byte of the digit nine.
pub const DIGIT_NINE: u8 = 57;

/// The byte of a plus sign.
pub const PLUS: u8 = 43;

/// The byte of a minus sign.
pub const MINUS: u8 = 45;

/// The byte of a full stop.
pub const FULL_STOP: u8 = 46;

/// The byte of a space.
pub const SPACE: u8 = 32;

/// The byte of the small letter that opens an exponent.
pub const SMALL_E: u8 = 101;

/// The byte of the capital letter that opens an exponent.
pub const CAPITAL_E: u8 = 69;

/// Whether a byte is a decimal digit.
pub open spec fn is_digit(byte: u8) -> bool {
    DIGIT_ZERO <= byte <= DIGIT_NINE
}

/// Whether a byte is a plus or a minus sign.
pub open spec fn is_sign(byte: u8) -> bool {
    byte == PLUS || byte == MINUS
}

/// Whether a byte is the letter that opens an exponent, small or capital.
pub open spec fn is_exponent_mark(byte: u8) -> bool {
    byte == SMALL_E || byte == CAPITAL_E
}

/// Whether the bytes hold `literal` at `pos`.
pub open spec fn literal_at(bytes: Seq<u8>, pos: int, literal: Seq<u8>) -> bool {
    &&& 0 <= pos
    &&& pos + literal.len() <= bytes.len()
    &&& bytes.subrange(pos, pos + literal.len()) == literal
}

/// The position behind the literal at `pos`, or the error of its absence.
pub open spec fn spec_tag(bytes: Seq<u8>, pos: int, literal: Literal) -> Result<
    int,
    DumpFormatError,
> {
    if literal_at(bytes, pos, literal.bytes()) {
        Ok(pos + literal.bytes().len())
    } else {
        Err(error_at(pos, Expected::Literal(literal)))
    }
}

/// The position behind the line end at `pos`, or the error of its absence.
pub open spec fn spec_line_ending(bytes: Seq<u8>, pos: int) -> Result<int, DumpFormatError> {
    if 0 <= pos < bytes.len() && bytes[pos] == LINE_FEED {
        Ok(pos + 1)
    } else if 0 <= pos && pos + 1 < bytes.len() && bytes[pos] == CARRIAGE_RETURN && bytes[pos + 1]
        == LINE_FEED {
        Ok(pos + 2)
    } else {
        Err(error_at(pos, Expected::LineEnd))
    }
}

/// The position behind the digits that begin at `pos`: `pos` itself where
/// no digit stands there.
pub open spec fn digits_end(bytes: Seq<u8>, pos: int) -> int
    decreases bytes.len() - pos,
{
    if 0 <= pos < bytes.len() && is_digit(bytes[pos]) {
        digits_end(bytes, pos + 1)
    } else {
        pos
    }
}

/// The position of the first line feed or carriage return from `pos` on:
/// the end of the bytes where there is none.
pub open spec fn text_end(bytes: Seq<u8>, pos: int) -> int
    decreases bytes.len() - pos,
{
    if 0 <= pos < bytes.len() && bytes[pos] != LINE_FEED && bytes[pos] != CARRIAGE_RETURN {
        text_end(bytes, pos + 1)
    } else {
        pos
    }
}

/// The number that a sequence of decimal digits denotes.
pub open spec fn decimal(digits: Seq<u8>) -> nat
    decreases digits.len(),
{
    if digits.len() == 0 {
        0
    } else {
        decimal(digits.drop_last()) * 10 + (digits.last() - DIGIT_ZERO) as nat
    }
}

/// The number written in digits at `pos` and the position behind it, or the
/// error: of no digit, or of a number too large for 32 bits.
pub open spec fn spec_number(bytes: Seq<u8>, pos: int) -> Result<(int, u32), DumpFormatError> {
    let end = digits_end(bytes, pos);
    let value = decimal(bytes.subrange(pos, end));
    if end <= pos {
        Err(error_at(pos, Expected::Digits))
    } else if value > u32::MAX {
        Err(error_at(pos, Expected::Number))
    } else {
        Ok((end, value as u32))
    }
}

/// The position behind the sign at `pos`, if there is one.
pub open spec fn after_sign(bytes: Seq<u8>, pos: int) -> int {
    if 0 <= pos < bytes.len() && is_sign(bytes[pos]) {
        pos + 1
    } else {
        pos
    }
}

/// The position behind the mantissa at `pos`: digits with an optional full
/// stop and more digits behind them, or a full stop and digits.
pub open spec fn mantissa_end(bytes: Seq<u8>, pos: int) -> Option<int> {
    let whole = digits_end(bytes, pos);
    if whole > pos {
        if whole < bytes.len() && bytes[whole] == FULL_STOP {
            Some(digits_end(bytes, whole + 1))
        } else {
            Some(whole)
        }
    } else if 0 <= pos < bytes.len() && bytes[pos] == FULL_STOP && digits_end(bytes, pos + 1) > pos
        + 1 {
        Some(digits_end(bytes, pos + 1))
    } else {
        None
    }
}

/// The position behind the exponent at `pos`; `pos` itself where no exponent
/// mark stands there. A mark without digits behind it is no exponent and
/// makes the whole number fail.
pub open spec fn exponent_end(bytes: Seq<u8>, pos: int) -> Option<int> {
    if 0 <= pos < bytes.len() && is_exponent_mark(bytes[pos]) {
        let digits = after_sign(bytes, pos + 1);
        if digits_end(bytes, digits) > digits {
            Some(digits_end(bytes, digits))
        } else {
            None
        }
    } else {
        Some(pos)
    }
}

/// The position behind the decimal number at `pos`, or the error of its
/// absence.
pub open spec fn spec_float(bytes: Seq<u8>, pos: int) -> Result<int, DumpFormatError> {
    match mantissa_end(bytes, after_sign(bytes, pos)) {
        Some(mantissa) => match exponent_end(bytes, mantissa) {
            Some(end) => Ok(end),
            None => Err(error_at(pos, Expected::Float)),
        },
        None => Err(error_at(pos, Expected::Float)),
    }
}

/// The numbers of a list that begins with a digit at `pos`, each but the
/// first set off by one space, and the position behind the last.
pub open spec fn spec_numbers(bytes: Seq<u8>, pos: int) -> Result<(int, Seq<u32>), DumpFormatError>
    decreases bytes.len() - pos,
{
    match spec_number(bytes, pos) {
        Err(error) => Err(error),
        Ok((end, value)) => if pos < end && end + 1 < bytes.len() && bytes[end] == SPACE
            && is_digit(bytes[end + 1]) {
            match spec_numbers(bytes, end + 1) {
                Err(error) => Err(error),
                Ok((last, more)) => Ok((last, seq![value] + more)),
            }
        } else {
            Ok((end, seq![value]))
        },
    }
}

/// The version line without its end: the literal and the number.
pub open spec fn spec_version(bytes: Seq<u8>, pos: int) -> Result<(int, u32), DumpFormatError> {
    match spec_tag(bytes, pos, Literal::Version) {
        Err(error) => Err(error),
        Ok(digits) => spec_number(bytes, digits),
    }
}

/// The name line without its end: the literal and the text up to the end
/// of the line.
pub open spec fn spec_name(bytes: Seq<u8>, pos: int) -> Result<(int, Seq<char>), DumpFormatError> {
    match spec_tag(bytes, pos, Literal::Name) {
        Err(error) => Err(error),
        Ok(text) => Ok(
            (text_end(bytes, text), decode_utf8(bytes.subrange(text, text_end(bytes, text)))),
        ),
    }
}

/// The type line without its end: the literal and the kind, of which there
/// is one.
pub open spec fn spec_signal_type(bytes: Seq<u8>, pos: int) -> Result<
    (int, SignalType),
    DumpFormatError,
> {
    match spec_tag(bytes, pos, Literal::Type) {
        Err(error) => Err(error),
        Ok(kind) => match spec_tag(bytes, kind, Literal::Raw) {
            Err(error) => Err(error),
            Ok(end) => Ok((end, SignalType::Raw)),
        },
    }
}

/// The frequency line without its end: the literal and the number.
pub open spec fn spec_frequency(bytes: Seq<u8>, pos: int) -> Result<(int, u32), DumpFormatError> {
    match spec_tag(bytes, pos, Literal::Frequency) {
        Err(error) => Err(error),
        Ok(digits) => spec_number(bytes, digits),
    }
}

/// The duty cycle line without its end: the literal and the decimal number,
/// which is kept as it is written.
pub open spec fn spec_duty_cycle(bytes: Seq<u8>, pos: int) -> Result<
    (int, Seq<char>),
    DumpFormatError,
> {
    match spec_tag(bytes, pos, Literal::DutyCycle) {
        Err(error) => Err(error),
        Ok(number) => match spec_float(bytes, number) {
            Err(error) => Err(error),
            Ok(end) => Ok((end, decode_utf8(bytes.subrange(number, end)))),
        },
    }
}

/// The data line without its end: the literal and the list of numbers,
/// which is empty where no digit follows the literal.
pub open spec fn spec_data(bytes: Seq<u8>, pos: int) -> Result<(int, Seq<u32>), DumpFormatError> {
    match spec_tag(bytes, pos, Literal::Data) {
        Err(error) => Err(error),
        Ok(list) => if list < bytes.len() && is_digit(bytes[list]) {
            spec_numbers(bytes, list)
        } else {
            Ok((list, Seq::empty()))
        },
    }
}

/// A step of the grammar and the line end behind it.
pub open spec fn then_line_ending<T>(bytes: Seq<u8>, step: Result<(int, T), DumpFormatError>)
    -> Result<(int, T), DumpFormatError> {
    match step {
        Err(error) => Err(error),
        Ok((end, value)) => match spec_line_ending(bytes, end) {
            Err(error) => Err(error),
            Ok(next) => Ok((next, value)),
        },
    }
}

/// The comment line without its end: the literal and any text up to the
/// end of the line.
pub open spec fn spec_comment(bytes: Seq<u8>, pos: int) -> Result<(int, ()), DumpFormatError> {
    match spec_tag(bytes, pos, Literal::Comment) {
        Err(error) => Err(error),
        Ok(text) => Ok((text_end(bytes, text), ())),
    }
}

/// One record: the comment, name, type, frequency, duty cycle and data
/// lines in this order, each with its line end; or the first error.
#[verifier::opaque]
pub open spec fn spec_saved_signal(bytes: Seq<u8>, pos: int) -> Result<
    (int, RawSignalView),
    DumpFormatError,
> {
    match then_line_ending(bytes, spec_comment(bytes, pos)) {
        Err(error) => Err(error),
        Ok((at_name, _)) => match then_line_ending(bytes, spec_name(bytes, at_name)) {
            Err(error) => Err(error),
            Ok((at_type, name)) => match then_line_ending(bytes, spec_signal_type(bytes, at_type)) {
                Err(error) => Err(error),
                Ok((at_frequency, kind)) => match then_line_ending(
                    bytes,
                    spec_frequency(bytes, at_frequency),
                ) {
                    Err(error) => Err(error),
                    Ok((at_duty_cycle, frequency)) => match then_line_ending(
                        bytes,
                        spec_duty_cycle(bytes, at_duty_cycle),
                    ) {
                        Err(error) => Err(error),
                        Ok((at_data, duty_cycle)) => match then_line_ending(
                            bytes,
                            spec_data(bytes, at_data),
                        ) {
                            Err(error) => Err(error),
                            Ok((next, data)) => Ok(
                                (next, RawSignalView { name, kind, frequency, duty_cycle, data }),
                            ),
                        },
                    },
                },
            },
        },
    }
}

/// The records from `pos` up to the end of the bytes; or the first error.
/// A record is never empty ([`lemma_saved_signal_advances`]), so each
/// record is looked for behind the one before it.
pub open spec fn spec_signals(bytes: Seq<u8>, pos: int) -> Result<
    Seq<RawSignalView>,
    DumpFormatError,
>
    decreases bytes.len() - pos,
{
    if pos >= bytes.len() {
        Ok(Seq::empty())
    } else {
        match spec_saved_signal(bytes, pos) {
            Err(error) => Err(error),
            Ok((next, signal)) => if pos < next <= bytes.len() {
                match spec_signals(bytes, next) {
                    Err(error) => Err(error),
                    Ok(more) => Ok(seq![signal] + more),
                }
            } else {
                Ok(seq![signal])
            },
        }
    }
}

/// What a dump file holds.
pub struct DumpFileView {
    pub version: u32,
    pub signals: Seq<RawSignalView>,
}

/// The whole document: the file type line, the version line, and records
/// up to the end of the bytes; or the first error.
pub open spec fn spec_dump_file(bytes: Seq<u8>) -> Result<DumpFileView, DumpFormatError> {
    match spec_tag(bytes, 0, Literal::Filetype) {
        Err(error) => Err(error),
        Ok(end) => match spec_line_ending(bytes, end) {
            Err(error) => Err(error),
            Ok(at_version) => match then_line_ending(bytes, spec_version(bytes, at_version)) {
                Err(error) => Err(error),
                Ok((at_signals, version)) => match spec_signals(bytes, at_signals) {
                    Err(error) => Err(error),
                    Ok(signals) => Ok(DumpFileView { version, signals }),
                },
            },
        },
    }
}

/// The digits that begin at a position end within the bytes, and all bytes
/// up to there are digits.
pub proof fn lemma_digits_end(bytes: Seq<u8>, pos: int)
    requires
        0 <= pos <= bytes.len(),
    ensures
        pos <= digits_end(bytes, pos) <= bytes.len(),
        forall|i: int| pos <= i < digits_end(bytes, pos) ==> is_digit(#[trigger] bytes[i]),
        digits_end(bytes, pos) < bytes.len() ==> !is_digit(bytes[digits_end(bytes, pos)]),
    decreases bytes.len() - pos,
{
    if pos < bytes.len() && is_digit(bytes[pos]) {
        lemma_digits_end(bytes, pos + 1);
    }
}

/// The text that begins at a position ends within the bytes, at a line feed
/// or a carriage return if it ends before the bytes do.
pub proof fn lemma_text_end(bytes: Seq<u8>, pos: int)
    requires
        0 <= pos <= bytes.len(),
    ensures
        pos <= text_end(bytes, pos) <= bytes.len(),
        text_end(bytes, pos) < bytes.len() ==> bytes[text_end(bytes, pos)] == LINE_FEED
            || bytes[text_end(bytes, pos)] == CARRIAGE_RETURN,
    decreases bytes.len() - pos,
{
    if pos < bytes.len() && bytes[pos] != LINE_FEED && bytes[pos] != CARRIAGE_RETURN {
        lemma_text_end(bytes, pos + 1);
    }
}

/// A number, where there is one, ends behind where it begins and within the
/// bytes.
pub proof fn lemma_number_advances(bytes: Seq<u8>, pos: int)
    requires
        0 <= pos <= bytes.len(),
    ensures
        spec_number(bytes, pos) matches Ok((end, _)) ==> pos < end <= bytes.len(),
{
    lemma_digits_end(bytes, pos);
}

/// A decimal number, where there is one, ends behind where it begins and
/// within the bytes.
pub proof fn lemma_float_advances(bytes: Seq<u8>, pos: int)
    requires
        0 <= pos <= bytes.len(),
    ensures
        spec_float(bytes, pos) matches Ok(end) ==> pos < end <= bytes.len(),
{
    let start = after_sign(bytes, pos);
    let whole = digits_end(bytes, start);
    lemma_digits_end(bytes, start);
    if whole < bytes.len() {
        lemma_digits_end(bytes, whole + 1);
    }
    if start < bytes.len() {
        lemma_digits_end(bytes, start + 1);
    }
    match mantissa_end(bytes, start) {
        Some(mantissa) => {
            if mantissa < bytes.len() {
                let digits = after_sign(bytes, mantissa + 1);
                lemma_digits_end(bytes, digits);
            }
        },
        None => {},
    }
}

/// A list of numbers, where there is one, ends behind where it begins and
/// within the bytes.
pub proof fn lemma_numbers_advance(bytes: Seq<u8>, pos: int)
    requires
        0 <= pos <= bytes.len(),
    ensures
        spec_numbers(bytes, pos) matches Ok((end, _)) ==> pos < end <= bytes.len(),
    decreases bytes.len() - pos,
{
    lemma_number_advances(bytes, pos);
    match spec_number(bytes, pos) {
        Ok((end, _)) => {
            if end + 1 < bytes.len() && bytes[end] == SPACE && is_digit(bytes[end + 1]) {
                lemma_numbers_advance(bytes, end + 1);
            }
        },
        Err(_) => {},
    }
}

/// A record is never empty: where there is one, it ends behind where it
/// begins and within the bytes. So the records of a document follow one
/// another until the bytes end.
pub proof fn lemma_saved_signal_advances(bytes: Seq<u8>, pos: int)
    requires
        0 <= pos <= bytes.len(),
    ensures
        spec_saved_signal(bytes, pos) matches Ok((next, _)) ==> pos < next <= bytes.len(),
{
    reveal(spec_saved_signal);
    lemma_literal_ascii(Literal::Comment);
    if let Ok((at_name, _)) = then_line_ending(bytes, spec_comment(bytes, pos)) {
        let text = spec_tag(bytes, pos, Literal::Comment)->Ok_0;
        lemma_text_end(bytes, text);
        if let Ok((at_type, _)) = then_line_ending(bytes, spec_name(bytes, at_name)) {
            let text = spec_tag(bytes, at_name, Literal::Name)->Ok_0;
            lemma_text_end(bytes, text);
            if let Ok((at_frequency, _)) = then_line_ending(
                bytes,
                spec_signal_type(bytes, at_type),
            ) {
                if let Ok((at_duty_cycle, _)) = then_line_ending(
                    bytes,
                    spec_frequency(bytes, at_frequency),
                ) {
                    let digits = spec_tag(bytes, at_frequency, Literal::Frequency)->Ok_0;
                    lemma_number_advances(bytes, digits);
                    if let Ok((at_data, _)) = then_line_ending(
                        bytes,
                        spec_duty_cycle(bytes, at_duty_cycle),
                    ) {
                        let number = spec_tag(bytes, at_duty_cycle, Literal::DutyCycle)->Ok_0;
                        lemma_float_advances(bytes, number);
                        if let Ok((next, _)) = then_line_ending(bytes, spec_data(bytes, at_data)) {
                            let list = spec_tag(bytes, at_data, Literal::Data)->Ok_0;
                            lemma_numbers_advance(bytes, list);
                        }
                    }
                }
            }
        }
    }
}

} // verus!
