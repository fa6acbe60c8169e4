use flipper_ir_dumps::dump::{
    data, dump_file, duty_cycle, frequency, name, parse_u32_str, saved_signal, signal_type,
    version, DumpFile, DumpFormatError, Expected, Literal,
};
use flipper_ir_dumps::signal::{RawSignal, SignalType};
use nom::character::complete::{digit1, line_ending, not_line_ending};
use nom::number::complete::{float, recognize_float};
use nom::sequence::terminated;

const RECORD: &str = "#\nname: test\ntype: raw\nfrequency: 1000\nduty_cycle: 0.5\ndata: 1 2 3 4 5\n";

const DOCUMENT: &str = "Filetype: IR signals file\nVersion: 1\n#\nname: test\ntype: raw\nfrequency: 1000\nduty_cycle: 0.5\ndata: 1 2 3 4 5\n";

fn error(position: usize, expected: Expected) -> DumpFormatError {
    DumpFormatError { position, expected }
}

fn test_signal() -> RawSignal {
    RawSignal::new(
        "test".to_string(),
        SignalType::Raw,
        1000,
        "0.5".to_string(),
        vec![1, 2, 3, 4, 5],
    )
}

#[test]
fn dump_test_version() {
    let input = "Version: 1\n";
    let expected = 1;
    let (_, actual) = version(input).unwrap();
    assert_eq!(expected, actual);
}

#[test]
fn dump_test_name() {
    let input = "name: test\n";
    let expected = "test";
    let (_, actual) = name(input).unwrap();
    assert_eq!(expected, actual);
}

#[test]
fn dump_test_frequency() {
    let input = "frequency: 1000\n";
    let expected = 1000;
    let (_, actual) = frequency(input).unwrap();
    assert_eq!(expected, actual);
}

#[test]
fn dump_test_duty_cycle() {
    let input = "duty_cycle: 0.5\n";
    let expected = 0.5;
    let (_, actual) = duty_cycle(input).unwrap();
    let actual: f32 = actual.parse().unwrap();
    assert_eq!(expected, actual);
}

#[test]
fn dump_test_data() {
    let input = "data: 1 2 3 4 5\n";
    let expected = vec![1, 2, 3, 4, 5];
    let (_, actual) = data(input).unwrap();
    assert_eq!(expected, actual);
}

#[test]
fn dump_test_signal_type() {
    let input = "type: raw\n";
    let expected = SignalType::Raw;
    let (_, actual) = signal_type(input).unwrap();
    assert_eq!(expected, actual);
}

#[test]
fn dump_test_saved_signal() {
    let input = RECORD;
    let expected = test_signal();
    let (_, actual) = saved_signal(input).unwrap();
    assert_eq!(expected, actual);
    let duty_cycle: f32 = actual.duty_cycle().parse().unwrap();
    assert_eq!(duty_cycle, 0.5);
}

#[test]
fn dump_test_dump_file() {
    let input = DOCUMENT;
    let expected = DumpFile::new(1, vec![test_signal()]);
    let (_, actual) = dump_file(input).unwrap();
    assert_eq!(expected, actual);
}

#[test]
fn empty_dump_has_a_version_and_no_signal() {
    let dump = DumpFile::try_from("Filetype: IR signals file\nVersion: 1\n").unwrap();
    assert_eq!(dump.version(), 1);
    assert!(dump.signals().is_empty());
    assert_eq!(dump, DumpFile::new(1, vec![]));
}

#[test]
fn missing_file_type_fails_at_the_start() {
    let input = "Version: 1\n#\nname: test\ntype: raw\nfrequency: 1000\nduty_cycle: 0.5\ndata: 1\n";
    assert_eq!(
        DumpFile::try_from(input),
        Err(error(0, Expected::Literal(Literal::Filetype)))
    );
    assert_eq!(
        DumpFile::try_from(""),
        Err(error(0, Expected::Literal(Literal::Filetype)))
    );
    assert_eq!(
        DumpFile::try_from("Filetype: IR signals fil"),
        Err(error(0, Expected::Literal(Literal::Filetype)))
    );
}

#[test]
fn readers_hand_back_the_rest() {
    assert_eq!(version("Version: 12\nrest"), Ok(("\nrest", 12)));
    assert_eq!(name("name: a b\r\nrest"), Ok(("\r\nrest", "a b".to_string())));
    assert_eq!(name("name: "), Ok(("", String::new())));
    assert_eq!(name("name: caf\u{e9} \u{1f600}\n"), Ok(("\n", "caf\u{e9} \u{1f600}".to_string())));
    assert_eq!(frequency("frequency: 38000\u{e9}"), Ok(("\u{e9}", 38000)));
    assert_eq!(signal_type("type: rawest"), Ok(("est", SignalType::Raw)));
    assert_eq!(data("data: 7 8 \n"), Ok((" \n", vec![7, 8])));
    assert_eq!(data("data: 7  8\n"), Ok(("  8\n", vec![7])));
    assert_eq!(data("data: \n"), Ok(("\n", vec![])));
    assert_eq!(data("data: x"), Ok(("x", vec![])));
    assert_eq!(parse_u32_str("0042abc"), Ok(("abc", 42)));
    assert_eq!(saved_signal(&format!("{RECORD}#")), Ok(("#", test_signal())));
    let (rest, _) = dump_file(DOCUMENT).unwrap();
    assert_eq!(rest, "");
}

#[test]
fn numbers_fit_in_32_bits() {
    assert_eq!(parse_u32_str("4294967295"), Ok(("", u32::MAX)));
    assert_eq!(parse_u32_str("4294967296"), Err(error(0, Expected::Number)));
    assert_eq!(parse_u32_str("00000000000000000000004294967295 "), Ok((" ", u32::MAX)));
    assert_eq!(
        parse_u32_str("99999999999999999999999999999999999999"),
        Err(error(0, Expected::Number))
    );
    assert_eq!(parse_u32_str(""), Err(error(0, Expected::Digits)));
    assert_eq!(parse_u32_str("+1"), Err(error(0, Expected::Digits)));
    assert_eq!(version("Version: 4294967296\n"), Err(error(9, Expected::Number)));
    assert_eq!(version("Version: x"), Err(error(9, Expected::Digits)));
    assert_eq!(version("version: 1"), Err(error(0, Expected::Literal(Literal::Version))));
    assert_eq!(frequency("frequency: -1"), Err(error(11, Expected::Digits)));
    assert_eq!(data("data: 1 4294967296\n"), Err(error(8, Expected::Number)));
}

#[test]
fn duty_cycle_is_a_decimal_number() {
    let lexeme = |text: &str| duty_cycle(&format!("duty_cycle: {text}")).map(|(rest, number)| (rest.to_string(), number));
    let whole = |text: &str| Ok((String::new(), text.to_string()));
    assert_eq!(lexeme("0.330000"), whole("0.330000"));
    assert_eq!(lexeme("1"), whole("1"));
    assert_eq!(lexeme("-1.5e-3"), whole("-1.5e-3"));
    assert_eq!(lexeme("+.5E+10"), whole("+.5E+10"));
    assert_eq!(lexeme("5."), whole("5."));
    assert_eq!(lexeme("5.e2"), whole("5.e2"));
    assert_eq!(lexeme("0.5\n"), Ok(("\n".to_string(), "0.5".to_string())));
    assert_eq!(lexeme("1.2.3"), Ok((".3".to_string(), "1.2".to_string())));
    assert_eq!(lexeme("."), Err(error(12, Expected::Float)));
    assert_eq!(lexeme("-"), Err(error(12, Expected::Float)));
    assert_eq!(lexeme(""), Err(error(12, Expected::Float)));
    assert_eq!(lexeme("e5"), Err(error(12, Expected::Float)));
    assert_eq!(lexeme("1e"), Err(error(12, Expected::Float)));
    assert_eq!(lexeme("1e+"), Err(error(12, Expected::Float)));
    assert_eq!(lexeme("abc"), Err(error(12, Expected::Float)));
    for text in ["0.330000", "1", "-1.5e-3", "+.5E+10", "5.", "5.e2"] {
        assert!(text.parse::<f32>().is_ok());
    }
}

#[test]
fn document_is_all_or_nothing() {
    let fails = |input: &str, position: usize, expected: Expected| {
        assert_eq!(DumpFile::try_from(input), Err(error(position, expected)));
    };
    let header = "Filetype: IR signals file\nVersion: 1\n";
    fails("Filetype: IR signals file", 25, Expected::LineEnd);
    fails("Filetype: IR signals file\n", 26, Expected::Literal(Literal::Version));
    fails("Filetype: IR signals file\nVersion: 1", 36, Expected::LineEnd);
    fails(&format!("{header}\n"), 37, Expected::Literal(Literal::Comment));
    fails(&format!("{header}garbage"), 37, Expected::Literal(Literal::Comment));
    fails(&format!("{DOCUMENT} "), DOCUMENT.len(), Expected::Literal(Literal::Comment));
    fails(&format!("{DOCUMENT}# half a record\n"), DOCUMENT.len() + 16, Expected::Literal(Literal::Name));
    fails(&format!("{header}#\nname: a\ntype: parsed\n"), 53, Expected::Literal(Literal::Raw));
    fails(&format!("{header}#\nname: a\rb\n"), 46, Expected::LineEnd);
    fails(
        &format!("{header}#\nname: a\ntype: raw\nfrequency: 1\nduty_cycle: 0.5\ndata: 1 2"),
        37 + 58,
        Expected::LineEnd,
    );
    fails(
        &format!("{header}#\nname: a\ntype: raw\nfrequency: 1\nduty_cycle: 0.5\ndata: 1 2 \n"),
        37 + 58,
        Expected::LineEnd,
    );
    fails(
        &format!("{header}#\nname: a\ntype: raw\nfrequency: 1\nduty_cycle: nan\ndata: 1\n"),
        37 + 45,
        Expected::Float,
    );
}

#[test]
fn document_keeps_the_order_of_its_signals() {
    let input = "Filetype: IR signals file\r\nVersion: 7\r\n# first\r\nname: b\r\ntype: raw\r\nfrequency: 38000\r\nduty_cycle: 0.33\r\ndata: 550 17700\r\n#\nname: a\ntype: raw\nfrequency: 1\nduty_cycle: 1e0\ndata: \n# \nname: b\ntype: raw\nfrequency: 38000\nduty_cycle: 0.33\ndata: 550 17700\n";
    let dump = DumpFile::try_from(input).unwrap();
    assert_eq!(dump.version(), 7);
    let names: Vec<&str> = dump.signals().iter().map(|signal| signal.name()).collect();
    assert_eq!(names, vec!["b", "a", "b"]);
    assert_eq!(dump.signals()[0], dump.signals()[2]);
    assert_eq!(dump.signals()[0].data(), &[550, 17700]);
    assert_eq!(dump.signals()[0].kind(), SignalType::Raw);
    assert_eq!(dump.signals()[0].frequency(), 38000);
    assert_eq!(dump.signals()[0].duty_cycle(), "0.33");
    assert!(dump.signals()[1].data().is_empty());
    assert_eq!(dump.signals()[1].duty_cycle(), "1e0");
}

#[test]
fn each_line_needs_its_literal() {
    assert_eq!(name("Name: a"), Err(error(0, Expected::Literal(Literal::Name))));
    assert_eq!(signal_type("kind: raw"), Err(error(0, Expected::Literal(Literal::Type))));
    assert_eq!(signal_type("type: "), Err(error(6, Expected::Literal(Literal::Raw))));
    assert_eq!(signal_type("type: Raw"), Err(error(6, Expected::Literal(Literal::Raw))));
    assert_eq!(frequency("frequency:1"), Err(error(0, Expected::Literal(Literal::Frequency))));
    assert_eq!(duty_cycle("duty-cycle: 1"), Err(error(0, Expected::Literal(Literal::DutyCycle))));
    assert_eq!(data("data:"), Err(error(0, Expected::Literal(Literal::Data))));
    assert_eq!(saved_signal("name: a\n"), Err(error(0, Expected::Literal(Literal::Comment))));
    assert_eq!(saved_signal("# a\nname: a"), Err(error(11, Expected::LineEnd)));
    assert_eq!(
        saved_signal("#\nname: a\ntype: raw\nfrequency: 1\nduty_cycle: 1\n"),
        Err(error(47, Expected::Literal(Literal::Data)))
    );
    assert_eq!(Literal::Filetype.text(), "Filetype: IR signals file");
    assert_eq!(Literal::DutyCycle.text(), "duty_cycle: ");
}

#[test]
fn decimal_numbers_agree_with_nom() {
    let texts = [
        "0.5", "0.330000", "1", "-1", "+1", "1.", ".5", "-.5", "1.5e3", "1.5E-3", "1e+3x", "1e",
        "1e+", "1.e5", ".e5", ".", "", "-", "+", "e5", "abc", "1.2.3", "12ab", "1 2", "--1",
        "1e5e5", "0x10", "1_000", "\u{e9}1", "1\u{e9}", "00.00", "9999999999999999999999e99",
    ];
    for text in texts {
        let input = format!("duty_cycle: {text}");
        let ours = duty_cycle(&input).ok();
        let theirs = recognize_float::<&str, nom::error::Error<&str>>(text).ok();
        match (ours, theirs) {
            (Some((rest, number)), Some((their_rest, their_number))) => {
                assert_eq!(rest, their_rest);
                assert_eq!(number, their_number);
                let (_, value) = float::<&str, nom::error::Error<&str>>(text).unwrap();
                assert_eq!(number.parse::<f32>().unwrap().to_bits(), value.to_bits());
            }
            (None, None) => {}
            (ours, theirs) => panic!("{text:?}: {ours:?} against {theirs:?}"),
        }
    }
}

#[test]
fn lines_and_digits_agree_with_nom() {
    let texts = [
        "test\n", "test\r\n", "test\rx\n", "test\r", "test", "\n", "\r\n", "", "a b c\nrest",
        "caf\u{e9}\r\nrest", "\n\n", "x\n\r",
    ];
    for text in texts {
        let input = format!("name: {text}");
        let ours = name(&input).and_then(|(rest, found)| {
            let position = input.len() - rest.len();
            match rest.strip_prefix("\r\n").or(rest.strip_prefix('\n')) {
                Some(rest) => Ok((rest.to_string(), found)),
                None => Err(error(position, Expected::LineEnd)),
            }
        });
        let theirs =
            terminated(not_line_ending::<&str, nom::error::Error<&str>>, line_ending)(text);
        match (ours, theirs) {
            (Ok((rest, found)), Ok((their_rest, their_found))) => {
                assert_eq!(rest, their_rest);
                assert_eq!(found, their_found);
            }
            (Err(_), Err(_)) => {}
            (ours, theirs) => panic!("{text:?}: {ours:?} against {theirs:?}"),
        }
    }
    for text in ["12", "12a", "a", "", "0012 ", "\u{663}"] {
        let ours = parse_u32_str(text).ok().map(|(rest, _)| rest);
        let theirs = digit1::<&str, nom::error::Error<&str>>(text).ok().map(|(rest, _)| rest);
        assert_eq!(ours, theirs);
    }
}
