use certinspect::cert::Origin;
use certinspect::error::InspectError;
use certinspect::resolve::{
    contains_byte, fetched, input_type, raw_certificate, stdin_input, FetchOutcome, InputType,
    Resolution,
};
use certinspect::text::{write_decimal, write_dotted, write_hex, write_two_decimals, write_value};

fn written(f: impl Fn(&mut Vec<u8>)) -> String {
    let mut out = b">".to_vec();
    f(&mut out);
    String::from_utf8(out).expect("the text is ASCII")
}

#[test]
fn an_existing_file_wins_over_a_host_name() {
    assert!(matches!(
        input_type("example.com", true),
        Resolution::Resolved(InputType::File(f)) if f == "example.com"
    ));
    assert!(matches!(
        input_type("certs/leaf.der", true),
        Resolution::Resolved(InputType::File(f)) if f == "certs/leaf.der"
    ));
    assert!(matches!(input_type("-", true), Resolution::Resolved(InputType::File(f)) if f == "-"));
}

#[test]
fn a_host_name_has_a_full_stop_and_no_slash() {
    assert!(matches!(
        input_type("example.com", false),
        Resolution::Resolved(InputType::Domain(d)) if d == "example.com"
    ));
    assert!(matches!(input_type(".", false), Resolution::Resolved(InputType::Domain(_))));
    assert!(matches!(input_type("certs/leaf.der", false), Resolution::NeedsStdin));
    assert!(matches!(input_type("./example.com", false), Resolution::NeedsStdin));
    assert!(matches!(input_type("localhost", false), Resolution::NeedsStdin));
    assert!(matches!(input_type("-", false), Resolution::NeedsStdin));
    assert!(matches!(input_type("", false), Resolution::NeedsStdin));
    assert!(matches!(
        input_type("b\u{fc}cher.example", false),
        Resolution::Resolved(InputType::Domain(d)) if d == "b\u{fc}cher.example"
    ));
}

#[test]
fn piped_bytes_resolve_where_there_are_any() {
    assert!(matches!(stdin_input(Vec::new()), Err(InspectError::UnresolvableInput)));
    assert!(matches!(stdin_input(vec![0x30]), Ok(InputType::Stdin(b)) if b == vec![0x30]));
    assert!(contains_byte(b"a.b", b'.'));
    assert!(!contains_byte(b"ab", b'.'));
    assert!(!contains_byte(b"", b'.'));
}

#[test]
fn a_fetch_fails_by_its_stage() {
    assert!(matches!(fetched(FetchOutcome::Unreachable), Err(InspectError::ConnectionError)));
    assert!(matches!(fetched(FetchOutcome::TimedOut), Err(InspectError::Timeout)));
    assert!(matches!(fetched(FetchOutcome::NoCertificate), Err(InspectError::TlsHandshakeError)));
    let raw = fetched(FetchOutcome::Presented(vec![0x30, 0x00])).expect("bytes were presented");
    assert_eq!(raw.origin, Origin::FromNetwork);
    assert_eq!(raw.bytes, vec![0x30, 0x00]);
}

#[test]
fn raw_bytes_carry_their_origin() {
    let raw = raw_certificate(Origin::FromNetwork, vec![1, 2, 3]);
    assert_eq!(raw.origin, Origin::FromNetwork);
    assert_eq!(raw.bytes, vec![1, 2, 3]);
    assert_eq!(raw_certificate(Origin::FromStdin, Vec::new()).origin, Origin::FromStdin);
}

#[test]
fn numbers_are_written_in_decimal_and_hexadecimal() {
    assert_eq!(written(|o| write_decimal(o, 0)), ">0");
    assert_eq!(written(|o| write_decimal(o, 9)), ">9");
    assert_eq!(written(|o| write_decimal(o, 10)), ">10");
    assert_eq!(written(|o| write_decimal(o, 1234567890)), ">1234567890");
    assert_eq!(
        written(|o| write_decimal(o, u128::MAX)),
        ">340282366920938463463374607431768211455"
    );
    assert_eq!(written(|o| write_two_decimals(o, 0)), ">00");
    assert_eq!(written(|o| write_two_decimals(o, 7)), ">07");
    assert_eq!(written(|o| write_two_decimals(o, 59)), ">59");
    assert_eq!(written(|o| write_two_decimals(o, 2024)), ">24");
    assert_eq!(written(|o| write_hex(o, &[])), ">");
    assert_eq!(written(|o| write_hex(o, &[0x00, 0x0f, 0xa0, 0xff])), ">000fa0ff");
    assert_eq!(written(|o| write_value(o, b"Example Org")), ">Example Org");
    assert_eq!(written(|o| write_value(o, &[0x41, 0x0a])), ">#410a");
    assert_eq!(written(|o| write_value(o, &[0xc3, 0xbc])), ">#c3bc");
    assert_eq!(written(|o| write_value(o, b"")), ">");
}

#[test]
fn object_identifiers_are_written_with_dots() {
    assert_eq!(written(|o| write_dotted(o, &[0x55, 0x1d, 0x11])), ">2.5.29.17");
    assert_eq!(
        written(|o| write_dotted(o, &[0x2a, 0x86, 0x48, 0x86, 0xf7, 0x0d, 0x01, 0x01, 0x0b])),
        ">1.2.840.113549.1.1.11"
    );
    assert_eq!(written(|o| write_dotted(o, &[0x00])), ">0.0");
    assert_eq!(written(|o| write_dotted(o, &[0x27])), ">0.39");
    assert_eq!(written(|o| write_dotted(o, &[0x28])), ">1.0");
    assert_eq!(written(|o| write_dotted(o, &[0x4f])), ">1.39");
    assert_eq!(written(|o| write_dotted(o, &[0x50])), ">2.0");
    assert_eq!(written(|o| write_dotted(o, &[0x88, 0x37])), ">2.999");
    assert_eq!(written(|o| write_dotted(o, &[0x2b, 0x06, 0x01, 0x04, 0x01, 0x82, 0x37])), ">1.3.6.1.4.1.311");
    assert_eq!(written(|o| write_dotted(o, &[])), ">");
    // a component without a last byte gives nothing
    assert_eq!(written(|o| write_dotted(o, &[0x2a, 0x86])), ">1.2");
    // 2^63 fits, 2^64 does not
    assert_eq!(
        written(|o| write_dotted(o, &[0x2a, 0x81, 0x80, 0x80, 0x80, 0x80, 0x80, 0x80, 0x80, 0x80, 0x00])),
        ">1.2.9223372036854775808"
    );
    assert_eq!(
        written(|o| write_dotted(o, &[0x2a, 0x82, 0x80, 0x80, 0x80, 0x80, 0x80, 0x80, 0x80, 0x80, 0x00])),
        ">1.2.18446744073709551615"
    );
}
