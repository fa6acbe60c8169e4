//! Readers that follow the grammar from a position in the text.

use super::grammar::{
    after_sign, decimal, digits_end, error_at, is_digit, lemma_digits_end, lemma_literal_ascii,
    spec_data, spec_duty_cycle, spec_float, spec_frequency, spec_line_ending, spec_name,
    spec_number, spec_numbers, spec_saved_signal, spec_signal_type, spec_signals, spec_tag,
    spec_version, text_end, DumpFormatError, Expected, Literal, CAPITAL_E, CARRIAGE_RETURN,
    DIGIT_NINE, DIGIT_ZERO, FULL_STOP, LINE_FEED, MINUS, PLUS, SMALL_E, SPACE,
};
use super::text::{is_ascii_byte, lemma_boundary_after_ascii, lemma_boundary_at_ascii, piece_of};
use crate::signal::raw::{RawSignal, RawSignalView};
use crate::signal::SignalType;
use vstd::prelude::*;
use vstd::string::StringSliceAdditionalSpecFns;
use vstd::utf8::is_char_boundary;

verus! {

/// Whether a reader that went from one position to another did what the
/// grammar says: on success it stands behind what the grammar matched, not
/// before where it began and between two characters; on failure it
/// reports the grammar's error.
pub open spec fn steps_as(
    input: &str,
    pos: usize,
    result: Result<usize, DumpFormatError>,
    grammar: Result<int, DumpFormatError>,
) -> bool {
    match result {
        Ok(next) => grammar == Ok::<_, DumpFormatError>(next as int) && pos <= next
            <= input.spec_bytes().len() && is_char_boundary(input.spec_bytes(), next as int),
        Err(error) => grammar == Err::<int, _>(error),
    }
}

/// Whether a reader that hands back a position and a value did what the
/// grammar says: on success the value is the one the grammar gives and the
/// position stands behind it, between two characters; on failure it reports
/// the grammar's error.
pub open spec fn reads_as<T: View>(
    input: &str,
    pos: usize,
    result: Result<(usize, T), DumpFormatError>,
    grammar: Result<(int, T::V), DumpFormatError>,
) -> bool {
    match result {
        Ok((next, value)) => grammar == Ok::<_, DumpFormatError>((next as int, value@)) && pos
            <= next <= input.spec_bytes().len() && is_char_boundary(
            input.spec_bytes(),
            next as int,
        ),
        Err(error) => grammar == Err::<(int, T::V), _>(error),
    }
}

/// Whether a byte is a decimal digit.
pub(crate) fn digit_byte(byte: u8) -> (digit: bool)
    ensures
        digit == is_digit(byte),
{
    DIGIT_ZERO <= byte && byte <= DIGIT_NINE
}

/// The position behind the digits that begin at `pos`.
fn scan_digits(bytes: &[u8], pos: usize) -> (end: usize)
    requires
        pos <= bytes@.len(),
    ensures
        end == digits_end(bytes@, pos as int),
        pos <= end <= bytes@.len(),
{
    let mut end: usize = pos;
    while end < bytes.len() && digit_byte(bytes[end])
        invariant
            pos <= end <= bytes@.len(),
            digits_end(bytes@, pos as int) == digits_end(bytes@, end as int),
        decreases bytes@.len() - end,
    {
        end += 1;
    }
    end
}

/// The position of the first line feed or carriage return from `pos` on.
fn scan_text(bytes: &[u8], pos: usize) -> (end: usize)
    requires
        pos <= bytes@.len(),
    ensures
        end == text_end(bytes@, pos as int),
        pos <= end <= bytes@.len(),
        end == bytes@.len() || is_ascii_byte(bytes@[end as int]),
{
    let mut end: usize = pos;
    while end < bytes.len() && bytes[end] != LINE_FEED && bytes[end] != CARRIAGE_RETURN
        invariant
            pos <= end <= bytes@.len(),
            text_end(bytes@, pos as int) == text_end(bytes@, end as int),
        decreases bytes@.len() - end,
    {
        end += 1;
    }
    end
}

/// The number that the digits from `from` up to `to` denote, if it fits in
/// 32 bits.
fn decimal_of(bytes: &[u8], from: usize, to: usize) -> (value: Option<u32>)
    requires
        from <= to <= bytes@.len(),
        forall|i: int| from <= i < to ==> is_digit(#[trigger] bytes@[i]),
    ensures
        match value {
            Some(value) => decimal(bytes@.subrange(from as int, to as int)) == value,
            None => decimal(bytes@.subrange(from as int, to as int)) > u32::MAX,
        },
{
    let mut sum: u64 = 0;
    let mut fits = true;
    let mut i: usize = from;
    while i < to
        invariant
            from <= i <= to <= bytes@.len(),
            forall|j: int| from <= j < to ==> is_digit(#[trigger] bytes@[j]),
            fits ==> sum == decimal(bytes@.subrange(from as int, i as int)) && sum <= u32::MAX,
            !fits ==> decimal(bytes@.subrange(from as int, i as int)) > u32::MAX,
        decreases to - i,
    {
        proof {
            let longer = bytes@.subrange(from as int, i + 1);
            assert(longer.drop_last() =~= bytes@.subrange(from as int, i as int));
        }
        if fits {
            sum = sum * 10 + (bytes[i] - DIGIT_ZERO) as u64;
            if sum > u32::MAX as u64 {
                fits = false;
            }
        }
        i += 1;
    }
    if fits {
        Some(sum as u32)
    } else {
        None
    }
}

/// Matches a literal at `pos` and hands back the position behind it.
pub fn tag_at(input: &str, pos: usize, literal: Literal) -> (result: Result<
    usize,
    DumpFormatError,
>)
    requires
        pos <= input.spec_bytes().len(),
    ensures
        steps_as(input, pos, result, spec_tag(input.spec_bytes(), pos as int, literal)),
{
    let bytes = input.as_bytes();
    let word = literal.text().as_bytes();
    let failed = Err(DumpFormatError { position: pos, expected: Expected::Literal(literal) });
    if word.len() > bytes.len() - pos {
        return failed;
    }
    let mut i: usize = 0;
    while i < word.len()
        invariant
            i <= word@.len(),
            pos + word@.len() <= bytes@.len() <= usize::MAX,
            bytes@ == input.spec_bytes(),
            word@ == literal.bytes(),
            failed == Err::<usize, _>(error_at(pos as int, Expected::Literal(literal))),
            forall|j: int| 0 <= j < i ==> bytes@[pos + j] == word@[j],
        decreases word@.len() - i,
    {
        if bytes[pos + i] != word[i] {
            return failed;
        }
        i += 1;
    }
    proof {
        assert(bytes@.subrange(pos as int, pos + word@.len()) =~= word@);
        lemma_literal_ascii(literal);
        vstd::utf8::encode_utf8_valid_utf8(input@);
        assert(bytes@[pos + (word@.len() - 1)] == word@[word@.len() - 1]);
        lemma_boundary_after_ascii(input.spec_bytes(), pos + word@.len());
    }
    Ok(pos + word.len())
}

/// Matches the end of a line at `pos` and hands back the position behind
/// it.
pub fn line_ending_at(input: &str, pos: usize) -> (result: Result<usize, DumpFormatError>)
    requires
        pos <= input.spec_bytes().len(),
    ensures
        steps_as(input, pos, result, spec_line_ending(input.spec_bytes(), pos as int)),
{
    let bytes = input.as_bytes();
    proof {
        vstd::utf8::encode_utf8_valid_utf8(input@);
    }
    if pos < bytes.len() && bytes[pos] == LINE_FEED {
        proof {
            lemma_boundary_after_ascii(input.spec_bytes(), pos + 1);
        }
        Ok(pos + 1)
    } else if pos < bytes.len() && bytes.len() - pos > 1 && bytes[pos] == CARRIAGE_RETURN
        && bytes[pos + 1] == LINE_FEED {
        proof {
            lemma_boundary_after_ascii(input.spec_bytes(), pos + 2);
        }
        Ok(pos + 2)
    } else {
        Err(DumpFormatError { position: pos, expected: Expected::LineEnd })
    }
}

/// Reads the number written in digits at `pos`.
pub fn parse_u32_at(input: &str, pos: usize) -> (result: Result<(usize, u32), DumpFormatError>)
    requires
        pos <= input.spec_bytes().len(),
    ensures
        reads_as(input, pos, result, spec_number(input.spec_bytes(), pos as int)),
{
    let bytes = input.as_bytes();
    let end = scan_digits(bytes, pos);
    proof {
        lemma_digits_end(bytes@, pos as int);
    }
    if end == pos {
        return Err(DumpFormatError { position: pos, expected: Expected::Digits });
    }
    match decimal_of(bytes, pos, end) {
        Some(value) => {
            proof {
                vstd::utf8::encode_utf8_valid_utf8(input@);
                lemma_boundary_after_ascii(input.spec_bytes(), end as int);
            }
            Ok((end, value))
        },
        None => Err(DumpFormatError { position: pos, expected: Expected::Number }),
    }
}

/// The position behind the sign at `pos`, if there is one.
fn skip_sign(bytes: &[u8], pos: usize) -> (next: usize)
    requires
        pos <= bytes@.len(),
    ensures
        next == after_sign(bytes@, pos as int),
        pos <= next <= bytes@.len(),
{
    if pos < bytes.len() && (bytes[pos] == PLUS || bytes[pos] == MINUS) {
        pos + 1
    } else {
        pos
    }
}

/// Matches a decimal number at `pos` and hands back the position behind it.
pub fn float_at(input: &str, pos: usize) -> (result: Result<usize, DumpFormatError>)
    requires
        pos <= input.spec_bytes().len(),
    ensures
        steps_as(input, pos, result, spec_float(input.spec_bytes(), pos as int)),
        result matches Ok(next) ==> pos < next,
{
    let bytes = input.as_bytes();
    let failed = Err(DumpFormatError { position: pos, expected: Expected::Float });
    let start = skip_sign(bytes, pos);
    let whole = scan_digits(bytes, start);
    proof {
        lemma_digits_end(bytes@, start as int);
    }
    let mantissa = if whole > start {
        if whole < bytes.len() && bytes[whole] == FULL_STOP {
            proof {
                lemma_digits_end(bytes@, whole + 1);
            }
            scan_digits(bytes, whole + 1)
        } else {
            whole
        }
    } else if start < bytes.len() && bytes[start] == FULL_STOP {
        let fraction = scan_digits(bytes, start + 1);
        proof {
            lemma_digits_end(bytes@, start + 1);
        }
        if fraction == start + 1 {
            return failed;
        }
        fraction
    } else {
        return failed;
    };
    if mantissa < bytes.len() && (bytes[mantissa] == SMALL_E || bytes[mantissa] == CAPITAL_E) {
        let digits = skip_sign(bytes, mantissa + 1);
        let end = scan_digits(bytes, digits);
        proof {
            lemma_digits_end(bytes@, digits as int);
        }
        if end == digits {
            return failed;
        }
        proof {
            vstd::utf8::encode_utf8_valid_utf8(input@);
            lemma_boundary_after_ascii(input.spec_bytes(), end as int);
        }
        Ok(end)
    } else {
        proof {
            vstd::utf8::encode_utf8_valid_utf8(input@);
            lemma_boundary_after_ascii(input.spec_bytes(), mantissa as int);
        }
        Ok(mantissa)
    }
}

/// Reads a list of numbers that begins with a digit at `pos`, each number
/// but the first set off by one space.
pub fn numbers_at(input: &str, pos: usize) -> (result: Result<(usize, Vec<u32>), DumpFormatError>)
    requires
        pos <= input.spec_bytes().len(),
    ensures
        reads_as(input, pos, result, spec_numbers(input.spec_bytes(), pos as int)),
{
    let bytes = input.as_bytes();
    let mut numbers: Vec<u32> = Vec::new();
    let mut at: usize = pos;
    loop
        invariant
            pos <= at <= bytes@.len(),
            bytes@ == input.spec_bytes(),
            match spec_numbers(bytes@, at as int) {
                Ok((last, more)) => spec_numbers(bytes@, pos as int) == Ok::<_, DumpFormatError>(
                    (last, numbers@ + more),
                ),
                Err(error) => spec_numbers(bytes@, pos as int) == Err::<(int, Seq<u32>), _>(
                    error,
                ),
            },
        decreases bytes@.len() - at,
    {
        let (end, value) = match parse_u32_at(input, at) {
            Ok(found) => found,
            Err(error) => {
                return Err(error);
            },
        };
        proof {
            lemma_digits_end(bytes@, at as int);
        }
        let ghost before = numbers@;
        numbers.push(value);
        if end < bytes.len() && bytes.len() - end > 1 && bytes[end] == SPACE && digit_byte(
            bytes[end + 1],
        ) {
            proof {
                match spec_numbers(bytes@, end + 1) {
                    Ok((last, more)) => {
                        assert(before + (seq![value] + more) =~= numbers@ + more);
                    },
                    Err(_) => {},
                }
            }
            at = end + 1;
        } else {
            assert(before + seq![value] =~= numbers@);
            return Ok((end, numbers));
        }
    }
}

/// Reads the version line without its end, at `pos`.
pub fn version_at(input: &str, pos: usize) -> (result: Result<(usize, u32), DumpFormatError>)
    requires
        pos <= input.spec_bytes().len(),
    ensures
        reads_as(input, pos, result, spec_version(input.spec_bytes(), pos as int)),
{
    match tag_at(input, pos, Literal::Version) {
        Ok(digits) => parse_u32_at(input, digits),
        Err(error) => Err(error),
    }
}

/// Reads the name line without its end, at `pos`.
pub fn name_at(input: &str, pos: usize) -> (result: Result<(usize, String), DumpFormatError>)
    requires
        pos <= input.spec_bytes().len(),
    ensures
        reads_as(input, pos, result, spec_name(input.spec_bytes(), pos as int)),
{
    let text = match tag_at(input, pos, Literal::Name) {
        Ok(text) => text,
        Err(error) => {
            return Err(error);
        },
    };
    let end = scan_text(input.as_bytes(), text);
    proof {
        vstd::utf8::encode_utf8_valid_utf8(input@);
        lemma_boundary_at_ascii(input.spec_bytes(), end as int);
    }
    Ok((end, piece_of(input, text, end).to_owned()))
}

/// Reads the type line without its end, at `pos`.
pub fn signal_type_at(input: &str, pos: usize) -> (result: Result<
    (usize, SignalType),
    DumpFormatError,
>)
    requires
        pos <= input.spec_bytes().len(),
    ensures
        reads_as(input, pos, result, spec_signal_type(input.spec_bytes(), pos as int)),
{
    let kind = match tag_at(input, pos, Literal::Type) {
        Ok(kind) => kind,
        Err(error) => {
            return Err(error);
        },
    };
    match tag_at(input, kind, Literal::Raw) {
        Ok(end) => Ok((end, SignalType::Raw)),
        Err(error) => Err(error),
    }
}

/// Reads the frequency line without its end, at `pos`.
pub fn frequency_at(input: &str, pos: usize) -> (result: Result<(usize, u32), DumpFormatError>)
    requires
        pos <= input.spec_bytes().len(),
    ensures
        reads_as(input, pos, result, spec_frequency(input.spec_bytes(), pos as int)),
{
    match tag_at(input, pos, Literal::Frequency) {
        Ok(digits) => parse_u32_at(input, digits),
        Err(error) => Err(error),
    }
}

/// Reads the duty cycle line without its end, at `pos`. The number is
/// handed back as it is written.
pub fn duty_cycle_at(input: &str, pos: usize) -> (result: Result<
    (usize, String),
    DumpFormatError,
>)
    requires
        pos <= input.spec_bytes().len(),
    ensures
        reads_as(input, pos, result, spec_duty_cycle(input.spec_bytes(), pos as int)),
{
    let number = match tag_at(input, pos, Literal::DutyCycle) {
        Ok(number) => number,
        Err(error) => {
            return Err(error);
        },
    };
    match float_at(input, number) {
        Ok(end) => Ok((end, piece_of(input, number, end).to_owned())),
        Err(error) => Err(error),
    }
}

/// Reads the data line without its end, at `pos`.
pub fn data_at(input: &str, pos: usize) -> (result: Result<(usize, Vec<u32>), DumpFormatError>)
    requires
        pos <= input.spec_bytes().len(),
    ensures
        reads_as(input, pos, result, spec_data(input.spec_bytes(), pos as int)),
{
    let list = match tag_at(input, pos, Literal::Data) {
        Ok(list) => list,
        Err(error) => {
            return Err(error);
        },
    };
    let bytes = input.as_bytes();
    if list < bytes.len() && digit_byte(bytes[list]) {
        numbers_at(input, list)
    } else {
        Ok((list, Vec::new()))
    }
}

/// Reads one record at `pos`: the comment, name, type, frequency, duty
/// cycle and data lines, each with its end.
pub fn saved_signal_at(input: &str, pos: usize) -> (result: Result<
    (usize, RawSignal),
    DumpFormatError,
>)
    requires
        pos <= input.spec_bytes().len(),
    ensures
        reads_as(input, pos, result, spec_saved_signal(input.spec_bytes(), pos as int)),
        result matches Ok((next, _)) ==> pos < next,
{
    proof {
        reveal(spec_saved_signal);
        lemma_literal_ascii(Literal::Comment);
    }
    let text = match tag_at(input, pos, Literal::Comment) {
        Ok(text) => text,
        Err(error) => {
            return Err(error);
        },
    };
    let end = scan_text(input.as_bytes(), text);
    let at_name = match line_ending_at(input, end) {
        Ok(next) => next,
        Err(error) => {
            return Err(error);
        },
    };
    let (end, name) = match name_at(input, at_name) {
        Ok(found) => found,
        Err(error) => {
            return Err(error);
        },
    };
    let at_type = match line_ending_at(input, end) {
        Ok(next) => next,
        Err(error) => {
            return Err(error);
        },
    };
    let (end, kind) = match signal_type_at(input, at_type) {
        Ok(found) => found,
        Err(error) => {
            return Err(error);
        },
    };
    let at_frequency = match line_ending_at(input, end) {
        Ok(next) => next,
        Err(error) => {
            return Err(error);
        },
    };
    let (end, frequency) = match frequency_at(input, at_frequency) {
        Ok(found) => found,
        Err(error) => {
            return Err(error);
        },
    };
    let at_duty_cycle = match line_ending_at(input, end) {
        Ok(next) => next,
        Err(error) => {
            return Err(error);
        },
    };
    let (end, duty_cycle) = match duty_cycle_at(input, at_duty_cycle) {
        Ok(found) => found,
        Err(error) => {
            return Err(error);
        },
    };
    let at_data = match line_ending_at(input, end) {
        Ok(next) => next,
        Err(error) => {
            return Err(error);
        },
    };
    let (end, data) = match data_at(input, at_data) {
        Ok(found) => found,
        Err(error) => {
            return Err(error);
        },
    };
    let next = match line_ending_at(input, end) {
        Ok(next) => next,
        Err(error) => {
            return Err(error);
        },
    };
    Ok((next, RawSignal::new(name, kind, frequency, duty_cycle, data)))
}

/// What each signal of a list holds.
pub open spec fn signal_views(signals: Seq<RawSignal>) -> Seq<RawSignalView> {
    signals.map_values(|signal: RawSignal| signal@)
}

/// Reads the records from `pos` up to the end of the input.
pub fn signals_at(input: &str, pos: usize) -> (result: Result<Vec<RawSignal>, DumpFormatError>)
    requires
        pos <= input.spec_bytes().len(),
    ensures
        match result {
            Ok(signals) => spec_signals(input.spec_bytes(), pos as int) == Ok::<
                _,
                DumpFormatError,
            >(signal_views(signals@)),
            Err(error) => spec_signals(input.spec_bytes(), pos as int) == Err::<
                Seq<RawSignalView>,
                _,
            >(error),
        },
{
    let length = input.as_bytes().len();
    let mut signals: Vec<RawSignal> = Vec::new();
    let mut at: usize = pos;
    while at < length
        invariant
            pos <= at <= length == input.spec_bytes().len(),
            match spec_signals(input.spec_bytes(), at as int) {
                Ok(more) => spec_signals(input.spec_bytes(), pos as int) == Ok::<
                    _,
                    DumpFormatError,
                >(signal_views(signals@) + more),
                Err(error) => spec_signals(input.spec_bytes(), pos as int) == Err::<
                    Seq<RawSignalView>,
                    _,
                >(error),
            },
        decreases length - at,
    {
        match saved_signal_at(input, at) {
            Ok((next, signal)) => {
                proof {
                    let before = signal_views(signals@);
                    assert(signal_views(signals@.push(signal)) =~= before.push(signal@));
                    match spec_signals(input.spec_bytes(), next as int) {
                        Ok(more) => {
                            assert(before + (seq![signal@] + more) =~= before.push(signal@)
                                + more);
                        },
                        Err(_) => {},
                    }
                }
                signals.push(signal);
                at = next;
            },
            Err(error) => {
                return Err(error);
            },
        }
    }
    Ok(signals)
}

} // verus!
