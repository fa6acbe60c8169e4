//! The dump document: a text that lists captured signals.
//!
//! [`DumpFile::try_from`] reads a whole document. The readers of single
//! lines take a text that begins with the line and hand back what follows
//! it; [`reader`] holds their counterparts that read at a position, and
//! [`grammar`] says what they read.

use crate::signal::raw::RawSignal;
use crate::signal::SignalType;
use vstd::prelude::*;
use vstd::string::StringSliceAdditionalSpecFns;
use vstd::utf8::is_char_boundary;

pub mod grammar;
pub mod reader;
pub mod text;

pub use grammar::{DumpFormatError, Expected, Literal};

use grammar::{
    spec_data, spec_dump_file, spec_duty_cycle, spec_frequency, spec_name, spec_number,
    spec_saved_signal, spec_signal_type, spec_version, DumpFileView,
};
use reader::{
    data_at, duty_cycle_at, frequency_at, line_ending_at, name_at, parse_u32_at,
    saved_signal_at, signal_type_at, signal_views, signals_at, tag_at, version_at,
};
use text::{lemma_boundary_at_ascii, tail_of};

verus! {

/// Whether a reader that hands back the rest of its input and a value did
/// what the grammar says from the start of the input: on success the value
/// is the one the grammar gives and the rest is the input behind it; on
/// failure it reports the grammar's error.
pub open spec fn reads_front_as<T: View>(
    input: &str,
    result: Result<(&str, T), DumpFormatError>,
    grammar: Result<(int, T::V), DumpFormatError>,
) -> bool {
    match result {
        Ok((rest, value)) => match grammar {
            Ok((next, found)) => found == value@ && 0 <= next <= input.spec_bytes().len()
                && rest.spec_bytes() == input.spec_bytes().skip(next),
            Err(_) => false,
        },
        Err(error) => grammar == Err::<(int, T::V), _>(error),
    }
}

/// Turns what a reader found from the start of the input into the rest of
/// the input and the value.
fn front<'a, T>(input: &'a str, found: Result<(usize, T), DumpFormatError>) -> (result: Result<
    (&'a str, T),
    DumpFormatError,
>)
    requires
        found matches Ok((next, _)) ==> next <= input.spec_bytes().len() && is_char_boundary(
            input.spec_bytes(),
            next as int,
        ),
    ensures
        match found {
            Ok((next, value)) => result matches Ok((rest, same)) && same == value
                && rest.spec_bytes() == input.spec_bytes().skip(next as int),
            Err(error) => result == Err::<(&str, T), _>(error),
        },
{
    match found {
        Ok((next, value)) => Ok((tail_of(input, next), value)),
        Err(error) => Err(error),
    }
}

/// A dump document that was read: its version and its signals in the order
/// of the document.
#[derive(Debug, PartialEq)]
pub struct DumpFile {
    version: u32,
    signals: Vec<RawSignal>,
}

impl View for DumpFile {
    type V = DumpFileView;

    closed spec fn view(&self) -> DumpFileView {
        DumpFileView { version: self.version, signals: signal_views(self.signals@) }
    }
}

impl DumpFile {
    /// A dump file of the given version and signals.
    pub fn new(version: u32, signals: Vec<RawSignal>) -> (dump: DumpFile)
        ensures
            dump@ == (DumpFileView { version, signals: signal_views(signals@) }),
    {
        DumpFile { version, signals }
    }

    /// Reads a whole dump document. Any departure from the grammar fails
    /// the document as a whole.
    pub fn try_from(input: &str) -> (result: Result<DumpFile, DumpFormatError>)
        ensures
            match result {
                Ok(dump) => spec_dump_file(input.spec_bytes()) == Ok::<_, DumpFormatError>(
                    dump@,
                ),
                Err(error) => spec_dump_file(input.spec_bytes()) == Err::<DumpFileView, _>(
                    error,
                ),
            },
    {
        match dump_file(input) {
            Ok((_, dump)) => Ok(dump),
            Err(error) => Err(error),
        }
    }

    /// The version of the document.
    pub fn version(&self) -> (version: u32)
        ensures
            version == self@.version,
    {
        self.version
    }

    /// The signals of the document, in its order.
    pub fn signals(&self) -> (signals: &[RawSignal])
        ensures
            signal_views(signals@) == self@.signals,
    {
        self.signals.as_slice()
    }
}

/// Reads a whole dump document: the file type line, the version line, and
/// records up to the end of the input. Hands back the rest of the input,
/// which is empty, and the dump file.
pub fn dump_file(input: &str) -> (result: Result<(&str, DumpFile), DumpFormatError>)
    ensures
        match result {
            Ok((rest, dump)) => rest.spec_bytes().len() == 0 && spec_dump_file(
                input.spec_bytes(),
            ) == Ok::<_, DumpFormatError>(dump@),
            Err(error) => spec_dump_file(input.spec_bytes()) == Err::<DumpFileView, _>(error),
        },
{
    let end = match tag_at(input, 0, Literal::Filetype) {
        Ok(end) => end,
        Err(error) => {
            return Err(error);
        },
    };
    let at_version = match line_ending_at(input, end) {
        Ok(next) => next,
        Err(error) => {
            return Err(error);
        },
    };
    let (end, version) = match version_at(input, at_version) {
        Ok(found) => found,
        Err(error) => {
            return Err(error);
        },
    };
    let at_signals = match line_ending_at(input, end) {
        Ok(next) => next,
        Err(error) => {
            return Err(error);
        },
    };
    let signals = match signals_at(input, at_signals) {
        Ok(signals) => signals,
        Err(error) => {
            return Err(error);
        },
    };
    proof {
        vstd::utf8::encode_utf8_valid_utf8(input@);
        lemma_boundary_at_ascii(input.spec_bytes(), input.spec_bytes().len() as int);
    }
    Ok((tail_of(input, input.as_bytes().len()), DumpFile { version, signals }))
}

/// Reads the version line without its end from the start of the input.
pub fn version(input: &str) -> (result: Result<(&str, u32), DumpFormatError>)
    ensures
        reads_front_as(input, result, spec_version(input.spec_bytes(), 0)),
{
    front(input, version_at(input, 0))
}

/// Reads one record from the start of the input.
pub fn saved_signal(input: &str) -> (result: Result<(&str, RawSignal), DumpFormatError>)
    ensures
        reads_front_as(input, result, spec_saved_signal(input.spec_bytes(), 0)),
{
    front(input, saved_signal_at(input, 0))
}

/// Reads the name line without its end from the start of the input.
pub fn name(input: &str) -> (result: Result<(&str, String), DumpFormatError>)
    ensures
        reads_front_as(input, result, spec_name(input.spec_bytes(), 0)),
{
    front(input, name_at(input, 0))
}

/// Reads the frequency line without its end from the start of the input.
pub fn frequency(input: &str) -> (result: Result<(&str, u32), DumpFormatError>)
    ensures
        reads_front_as(input, result, spec_frequency(input.spec_bytes(), 0)),
{
    front(input, frequency_at(input, 0))
}

/// Reads the duty cycle line without its end from the start of the input.
/// The number is handed back as it is written.
pub fn duty_cycle(input: &str) -> (result: Result<(&str, String), DumpFormatError>)
    ensures
        reads_front_as(input, result, spec_duty_cycle(input.spec_bytes(), 0)),
{
    front(input, duty_cycle_at(input, 0))
}

/// Reads the data line without its end from the start of the input.
pub fn data(input: &str) -> (result: Result<(&str, Vec<u32>), DumpFormatError>)
    ensures
        reads_front_as(input, result, spec_data(input.spec_bytes(), 0)),
{
    front(input, data_at(input, 0))
}

/// Reads a number written in digits from the start of the input.
pub fn parse_u32_str(input: &str) -> (result: Result<(&str, u32), DumpFormatError>)
    ensures
        reads_front_as(input, result, spec_number(input.spec_bytes(), 0)),
{
    front(input, parse_u32_at(input, 0))
}

/// Reads the type line without its end from the start of the input.
pub fn signal_type(input: &str) -> (result: Result<(&str, SignalType), DumpFormatError>)
    ensures
        reads_front_as(input, result, spec_signal_type(input.spec_bytes(), 0)),
{
    front(input, signal_type_at(input, 0))
}

} // verus!
