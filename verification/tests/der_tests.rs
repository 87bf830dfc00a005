use certinspect::bytes::{append, append_label, bytes_eq, copy_range, duplicate};
use certinspect::der::{
    expect, parse_bit_string, parse_boolean, parse_integer, parse_oid, read_header, Header,
    MalformedEncoding, Reason,
};
use certinspect::time::{parse_time, Timestamp};

fn der_err(offset: usize, reason: Reason) -> Result<Header, MalformedEncoding> {
    Err(MalformedEncoding { offset, reason })
}

fn time_header(tag: u8, text: &str) -> (Vec<u8>, Header) {
    let mut bytes = vec![tag, text.len() as u8];
    bytes.extend_from_slice(text.as_bytes());
    let end = bytes.len();
    (bytes, Header { at: 0, tag, start: 2, end })
}

fn time_of(tag: u8, text: &str) -> Result<Timestamp, MalformedEncoding> {
    let (bytes, h) = time_header(tag, text);
    parse_time(&bytes, h)
}

#[test]
fn reads_short_and_long_lengths() {
    assert_eq!(
        read_header(&[0x04, 0x02, 0xaa, 0xbb], 0, 4, true),
        Ok(Header { at: 0, tag: 0x04, start: 2, end: 4 })
    );
    assert_eq!(
        read_header(&[0x30, 0x00], 0, 2, true),
        Ok(Header { at: 0, tag: 0x30, start: 2, end: 2 })
    );
    let mut long = vec![0x04, 0x81, 0x80];
    long.extend_from_slice(&[0u8; 128]);
    assert_eq!(
        read_header(&long, 0, long.len(), true),
        Ok(Header { at: 0, tag: 0x04, start: 3, end: 131 })
    );
    let mut longer = vec![0xff, 0x04, 0x82, 0x01, 0x04];
    longer.extend_from_slice(&[0u8; 260]);
    assert_eq!(
        read_header(&longer, 1, longer.len(), true),
        Ok(Header { at: 1, tag: 0x04, start: 5, end: 265 })
    );
    let mut three = vec![0x04, 0x83, 0x01, 0x00, 0x01];
    three.extend_from_slice(&vec![0u8; 65537]);
    assert_eq!(
        read_header(&three, 0, three.len(), true),
        Ok(Header { at: 0, tag: 0x04, start: 5, end: 65542 })
    );
}

#[test]
fn rejects_malformed_headers() {
    assert_eq!(read_header(&[], 0, 0, false), der_err(0, Reason::Truncated));
    assert_eq!(read_header(&[0x30, 0x00], 2, 2, false), der_err(2, Reason::Truncated));
    assert_eq!(read_header(&[0x30, 0x00], 0, 3, false), der_err(0, Reason::Truncated));
    assert_eq!(read_header(&[0x30], 0, 1, false), der_err(1, Reason::TruncatedLength));
    assert_eq!(read_header(&[0x30, 0x82, 0x01], 0, 3, false), der_err(1, Reason::TruncatedLength));
    assert_eq!(read_header(&[0x30, 0x80, 0x00, 0x00], 0, 4, false), der_err(1, Reason::IndefiniteLength));
    assert_eq!(read_header(&[0x30, 0x03, 0x00, 0x00], 0, 4, false), der_err(1, Reason::LengthOverrun));
    assert_eq!(
        read_header(&[0x30, 0x84, 0xff, 0xff, 0xff, 0xff], 0, 6, false),
        der_err(1, Reason::LengthOverrun)
    );
    assert_eq!(
        read_header(&[0x30, 0x85, 0, 0, 0, 0, 1, 0], 0, 8, false),
        der_err(1, Reason::LengthTooLarge)
    );
    assert_eq!(read_header(&[0x1f, 0x01, 0x00], 0, 3, false), der_err(0, Reason::HighTagNumber));
    assert_eq!(read_header(&[0xbf, 0x01, 0x00], 0, 3, false), der_err(0, Reason::HighTagNumber));
    // the content may not pass the limit even where the buffer is longer
    assert_eq!(read_header(&[0x30, 0x02, 0x00, 0x00], 0, 3, false), der_err(1, Reason::LengthOverrun));
}

#[test]
fn strict_mode_wants_the_shortest_length() {
    let padded = [0x04, 0x81, 0x01, 0xaa];
    assert_eq!(read_header(&padded, 0, 4, false), Ok(Header { at: 0, tag: 0x04, start: 3, end: 4 }));
    assert_eq!(read_header(&padded, 0, 4, true), der_err(1, Reason::NonMinimalLength));
    let mut zero_led = vec![0x04, 0x82, 0x00, 0x80];
    zero_led.extend_from_slice(&[0u8; 128]);
    assert_eq!(
        read_header(&zero_led, 0, zero_led.len(), false),
        Ok(Header { at: 0, tag: 0x04, start: 4, end: 132 })
    );
    assert_eq!(read_header(&zero_led, 0, zero_led.len(), true), der_err(1, Reason::NonMinimalLength));
}

#[test]
fn expect_checks_the_tag() {
    assert_eq!(
        expect(&[0x02, 0x01, 0x05], 0, 3, 0x02, false),
        Ok(Header { at: 0, tag: 0x02, start: 2, end: 3 })
    );
    assert_eq!(expect(&[0x02, 0x01, 0x05], 0, 3, 0x30, false), der_err(0, Reason::UnexpectedTag));
    assert_eq!(expect(&[0x02, 0x80, 0x05], 0, 3, 0x30, false), der_err(1, Reason::IndefiniteLength));
}

#[test]
fn integers_lose_their_padding() {
    let h = |end: usize| Header { at: 0, tag: 0x02, start: 2, end };
    assert_eq!(parse_integer(&[0x02, 0x01, 0x00], h(3), true), Ok(vec![0x00]));
    assert_eq!(parse_integer(&[0x02, 0x02, 0x00, 0x7f], h(4), false), Ok(vec![0x7f]));
    assert_eq!(parse_integer(&[0x02, 0x02, 0x00, 0x80], h(4), true), Ok(vec![0x00, 0x80]));
    assert_eq!(parse_integer(&[0x02, 0x02, 0xff, 0x80], h(4), false), Ok(vec![0x80]));
    assert_eq!(parse_integer(&[0x02, 0x02, 0xff, 0x7f], h(4), true), Ok(vec![0xff, 0x7f]));
    assert_eq!(parse_integer(&[0x02, 0x03, 0x00, 0x00, 0x00], h(5), false), Ok(vec![0x00]));
    assert_eq!(
        parse_integer(&[0x02, 0x02, 0x00, 0x7f], h(4), true),
        Err(MalformedEncoding { offset: 2, reason: Reason::NonCanonicalInteger })
    );
    assert_eq!(
        parse_integer(&[0x02, 0x00], h(2), false),
        Err(MalformedEncoding { offset: 0, reason: Reason::EmptyInteger })
    );
}

#[test]
fn reads_identifiers_booleans_and_bit_strings() {
    let h = |tag: u8, end: usize| Header { at: 0, tag, start: 2, end };
    assert_eq!(parse_oid(&[0x06, 0x03, 0x55, 0x04, 0x03], h(6, 5)), Ok(vec![0x55, 0x04, 0x03]));
    assert_eq!(
        parse_oid(&[0x06, 0x00], h(6, 2)),
        Err(MalformedEncoding { offset: 0, reason: Reason::EmptyOid })
    );
    assert_eq!(parse_boolean(&[0x01, 0x01, 0xff], h(1, 3), true), Ok(true));
    assert_eq!(parse_boolean(&[0x01, 0x01, 0x00], h(1, 3), true), Ok(false));
    assert_eq!(parse_boolean(&[0x01, 0x01, 0x01], h(1, 3), false), Ok(true));
    assert_eq!(
        parse_boolean(&[0x01, 0x01, 0x01], h(1, 3), true),
        Err(MalformedEncoding { offset: 2, reason: Reason::InvalidBoolean })
    );
    assert_eq!(
        parse_boolean(&[0x01, 0x02, 0x00, 0x00], h(1, 4), false),
        Err(MalformedEncoding { offset: 0, reason: Reason::InvalidBoolean })
    );
    assert_eq!(parse_bit_string(&[0x03, 0x03, 0x03, 0xaa, 0xb8], h(3, 5)), Ok((3, vec![0xaa, 0xb8])));
    assert_eq!(parse_bit_string(&[0x03, 0x01, 0x00], h(3, 3)), Ok((0, vec![])));
    assert_eq!(
        parse_bit_string(&[0x03, 0x01, 0x01], h(3, 3)),
        Err(MalformedEncoding { offset: 2, reason: Reason::InvalidBitString })
    );
    assert_eq!(
        parse_bit_string(&[0x03, 0x02, 0x08, 0x00], h(3, 4)),
        Err(MalformedEncoding { offset: 2, reason: Reason::InvalidBitString })
    );
    assert_eq!(
        parse_bit_string(&[0x03, 0x00], h(3, 2)),
        Err(MalformedEncoding { offset: 0, reason: Reason::InvalidBitString })
    );
}

#[test]
fn reads_both_forms_of_time() {
    assert_eq!(
        time_of(0x17, "991231235959Z"),
        Ok(Timestamp { year: 1999, month: 12, day: 31, hour: 23, minute: 59, second: 59 })
    );
    assert_eq!(
        time_of(0x17, "000101000000Z"),
        Ok(Timestamp { year: 2000, month: 1, day: 1, hour: 0, minute: 0, second: 0 })
    );
    assert_eq!(time_of(0x17, "490101000000Z").map(|t| t.year), Ok(2049));
    assert_eq!(time_of(0x17, "500101000000Z").map(|t| t.year), Ok(1950));
    assert_eq!(
        time_of(0x18, "20500615123456Z"),
        Ok(Timestamp { year: 2050, month: 6, day: 15, hour: 12, minute: 34, second: 56 })
    );
    assert_eq!(time_of(0x18, "99991231235959Z").map(|t| t.year), Ok(9999));
}

#[test]
fn rejects_times_that_are_not_real() {
    let bad = |tag: u8, text: &str| {
        assert_eq!(
            time_of(tag, text),
            Err(MalformedEncoding { offset: 2, reason: Reason::InvalidTime }),
            "{}",
            text
        );
    };
    bad(0x17, "240230000000Z");
    bad(0x17, "230229000000Z");
    bad(0x18, "21000229000000Z");
    bad(0x17, "241301000000Z");
    bad(0x17, "240001000000Z");
    bad(0x17, "240100000000Z");
    bad(0x17, "240431000000Z");
    bad(0x17, "240101240000Z");
    bad(0x17, "240101006000Z");
    bad(0x17, "240101000060Z");
    bad(0x17, "2401010000Z");
    bad(0x17, "240101000000+");
    bad(0x17, "24010100000aZ");
    bad(0x17, "20240101000000Z");
    bad(0x18, "240101000000Z");
    assert!(time_of(0x17, "240229000000Z").is_ok());
    assert!(time_of(0x18, "20000229000000Z").is_ok());
    assert_eq!(
        time_of(0x0c, "240101000000Z"),
        Err(MalformedEncoding { offset: 0, reason: Reason::UnexpectedTag })
    );
}

#[test]
fn instants_are_ordered_as_the_calendar_orders_them() {
    let t = |year: u16, month: u8, day: u8, hour: u8, minute: u8, second: u8| Timestamp {
        year,
        month,
        day,
        hour,
        minute,
        second,
    };
    let a = t(2024, 1, 1, 0, 0, 0);
    assert!(a.not_after(&a));
    assert!(a.not_after(&t(2024, 1, 1, 0, 0, 1)));
    assert!(!t(2024, 1, 1, 0, 0, 1).not_after(&a));
    assert!(t(2023, 12, 31, 23, 59, 59).not_after(&a));
    assert!(!a.not_after(&t(2023, 12, 31, 23, 59, 59)));
    assert!(t(2024, 1, 31, 0, 0, 0).not_after(&t(2024, 2, 1, 0, 0, 0)));
    assert!(t(2024, 2, 1, 23, 0, 0).not_after(&t(2024, 2, 2, 0, 0, 0)));
    assert!(t(2024, 2, 1, 0, 59, 0).not_after(&t(2024, 2, 1, 1, 0, 0)));
}

#[test]
fn byte_helpers_copy_and_compare() {
    assert!(bytes_eq(&[1, 2, 3], &[1, 2, 3]));
    assert!(!bytes_eq(&[1, 2, 3], &[1, 2, 4]));
    assert!(!bytes_eq(&[1, 2, 3], &[1, 2]));
    assert!(bytes_eq(&[], &[]));
    assert_eq!(copy_range(&[1, 2, 3, 4], 1, 3), vec![2, 3]);
    assert_eq!(copy_range(&[1, 2, 3, 4], 2, 2), Vec::<u8>::new());
    assert_eq!(duplicate(&[7, 8]), vec![7, 8]);
    let mut out = vec![1u8];
    append(&mut out, &[2, 3]);
    append_label(&mut out, "ab");
    assert_eq!(out, vec![1, 2, 3, b'a', b'b']);
}
