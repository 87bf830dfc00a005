use certinspect::cert::{
    Attribute, DistinguishedName, Extension, PublicKeyInfo, SubjectAltName, ValidityWindow,
};
use certinspect::der::{MalformedEncoding, Reason};
use certinspect::dump::{
    write_address, write_attribute, write_attribute_type, write_extension_line, write_instant,
    write_key, write_name, write_numbered_sans, write_san, write_san_lines, write_san_set_items,
    write_validity,
};
use certinspect::report::{write_field_label, write_malformed, write_reason};
use certinspect::compare::Field;
use certinspect::time::Timestamp;

fn rendered(f: impl Fn(&mut Vec<u8>)) -> String {
    let mut out = b"|".to_vec();
    f(&mut out);
    String::from_utf8(out).expect("the text is ASCII")
}

fn render_attribute(oid: &[u8], value: &[u8]) -> Attribute {
    Attribute { oid: oid.to_vec(), value: value.to_vec() }
}

#[test]
fn instants_are_written_with_leading_zeros() {
    let t = Timestamp { year: 2024, month: 2, day: 9, hour: 3, minute: 4, second: 5 };
    assert_eq!(rendered(|o| write_instant(o, &t)), "|2024-02-09T03:04:05Z");
    let t = Timestamp { year: 1950, month: 12, day: 31, hour: 23, minute: 59, second: 59 };
    assert_eq!(rendered(|o| write_instant(o, &t)), "|1950-12-31T23:59:59Z");
    let t = Timestamp { year: 800, month: 1, day: 1, hour: 0, minute: 0, second: 0 };
    assert_eq!(rendered(|o| write_instant(o, &t)), "|0800-01-01T00:00:00Z");
    let w = ValidityWindow {
        not_before: Timestamp { year: 2024, month: 1, day: 1, hour: 0, minute: 0, second: 0 },
        not_after: Timestamp { year: 2024, month: 1, day: 1, hour: 0, minute: 0, second: 0 },
    };
    assert_eq!(
        rendered(|o| write_validity(o, &w)),
        "|Not Before: 2024-01-01T00:00:00Z\nNot After: 2024-01-01T00:00:00Z\n"
    );
}

#[test]
fn common_attribute_types_have_short_names() {
    let named = |last: u8| rendered(|o| write_attribute_type(o, &[0x55, 0x04, last]));
    assert_eq!(named(3), "|CN");
    assert_eq!(named(6), "|C");
    assert_eq!(named(7), "|L");
    assert_eq!(named(8), "|ST");
    assert_eq!(named(10), "|O");
    assert_eq!(named(11), "|OU");
    assert_eq!(named(5), "|2.5.4.5");
    assert_eq!(rendered(|o| write_attribute_type(o, &[0x55, 0x04])), "|2.5.4");
    assert_eq!(rendered(|o| write_attribute_type(o, &[0x55, 0x04, 0x03, 0x01])), "|2.5.4.3.1");
    assert_eq!(
        rendered(|o| write_attribute_type(o, &[0x2a, 0x86, 0x48, 0x86, 0xf7, 0x0d, 0x01, 0x09, 0x01])),
        "|1.2.840.113549.1.9.1"
    );
}

#[test]
fn names_list_their_attributes_in_order() {
    let none = DistinguishedName { attributes: Vec::new() };
    assert_eq!(rendered(|o| write_name(o, &none)), "|");
    let one = DistinguishedName { attributes: vec![render_attribute(&[0x55, 0x04, 0x03], b"a")] };
    assert_eq!(rendered(|o| write_name(o, &one)), "|CN=a");
    let three = DistinguishedName {
        attributes: vec![
            render_attribute(&[0x55, 0x04, 0x06], b"DE"),
            render_attribute(&[0x55, 0x04, 0x05], b"12"),
            render_attribute(&[0x55, 0x04, 0x03], &[0x00, 0x62]),
        ],
    };
    assert_eq!(rendered(|o| write_name(o, &three)), "|C=DE, 2.5.4.5=12, CN=#0062");
    assert_eq!(rendered(|o| write_attribute(o, &three.attributes[2])), "|CN=#0062");
}

#[test]
fn alternative_names_are_written_by_their_form() {
    let dns = SubjectAltName::DnsName(b"example.com".to_vec());
    let v4 = SubjectAltName::IpAddress(vec![10, 0, 0, 255]);
    let v6 = SubjectAltName::IpAddress(vec![0x20, 0x01, 0x0d, 0xb8, 0, 0, 0, 0, 0, 0, 0, 0, 0, 0, 0, 1]);
    let mail = SubjectAltName::Email(b"a@b.c".to_vec());
    let uri = SubjectAltName::Uri(b"urn:x".to_vec());
    let other = SubjectAltName::Other(vec![0x2b, 0x06, 0x01], vec![0xa0, 0x03, 0x0c, 0x01, 0x78]);
    let unnamed = SubjectAltName::Other(Vec::new(), vec![0x88, 0x02, 0x2a, 0x03]);
    assert_eq!(rendered(|o| write_san(o, &dns)), "|DNS:example.com");
    assert_eq!(rendered(|o| write_san(o, &v4)), "|IP:10.0.0.255");
    assert_eq!(rendered(|o| write_san(o, &v6)), "|IP:20010db8000000000000000000000001");
    assert_eq!(rendered(|o| write_san(o, &mail)), "|email:a@b.c");
    assert_eq!(rendered(|o| write_san(o, &uri)), "|URI:urn:x");
    assert_eq!(rendered(|o| write_san(o, &other)), "|other:1.3.6.1:a0030c0178");
    assert_eq!(rendered(|o| write_san(o, &unnamed)), "|other::88022a03");
    assert_eq!(rendered(|o| write_address(o, &[])), "|");
    let all = vec![dns, v4, mail];
    assert_eq!(
        rendered(|o| write_san_lines(o, &all)),
        "|    DNS:example.com\n    IP:10.0.0.255\n    email:a@b.c\n"
    );
    assert_eq!(
        rendered(|o| write_numbered_sans(o, &all)),
        "|1: DNS:example.com\n2: IP:10.0.0.255\n3: email:a@b.c\n"
    );
    assert_eq!(rendered(|o| write_san_set_items(o, &all)), "|DNS:example.com, IP:10.0.0.255, email:a@b.c");
    let empty: Vec<SubjectAltName> = Vec::new();
    assert_eq!(rendered(|o| write_san_lines(o, &empty)), "|");
    assert_eq!(rendered(|o| write_numbered_sans(o, &empty)), "|");
    assert_eq!(rendered(|o| write_san_set_items(o, &empty)), "|");
}

#[test]
fn twelve_names_are_numbered_in_decimal() {
    let names: Vec<SubjectAltName> =
        (0..12).map(|i| SubjectAltName::DnsName(vec![b'a' + i as u8])).collect();
    let text = rendered(|o| write_numbered_sans(o, &names));
    assert!(text.starts_with("|1: DNS:a\n2: DNS:b\n"));
    assert!(text.ends_with("9: DNS:i\n10: DNS:j\n11: DNS:k\n12: DNS:l\n"));
}

#[test]
fn extensions_show_their_flags() {
    let line = |critical: bool, parsed: bool| {
        let e = Extension { oid: vec![0x55, 0x1d, 0x13], critical, value: vec![0x30, 0x00], parsed };
        rendered(|o| write_extension_line(o, &e))
    };
    assert_eq!(line(false, false), "|    2.5.29.19: 3000\n");
    assert_eq!(line(true, false), "|    2.5.29.19 critical unparsed: 3000\n");
    assert_eq!(line(true, true), "|    2.5.29.19 critical: 3000\n");
    assert_eq!(line(false, true), "|    2.5.29.19: 3000\n");
}

#[test]
fn keys_show_their_size_in_bits() {
    let key = |unused_bits: u8, key: Vec<u8>| {
        let k = PublicKeyInfo { algorithm: vec![0x2b, 0x65, 0x70], unused_bits, key };
        (rendered(|o| write_key(o, &k)), k.key_bits())
    };
    assert_eq!(key(0, vec![0xab; 32]).1, Some(256));
    assert_eq!(key(0, vec![0xab, 0xcd]), ("|1.3.101.112 (16 bits) abcd".to_string(), Some(16)));
    assert_eq!(key(3, vec![0xab, 0xc8]), ("|1.3.101.112 (13 bits) abc8".to_string(), Some(13)));
    assert_eq!(key(0, vec![]), ("|1.3.101.112 (0 bits) ".to_string(), Some(0)));
    assert_eq!(key(9, vec![0xff]), ("|1.3.101.112 (0 bits) ff".to_string(), None));
}

#[test]
fn every_reason_has_its_words() {
    let words = |r: Reason| rendered(|o| write_reason(o, r));
    assert_eq!(words(Reason::Truncated), "|element expected");
    assert_eq!(words(Reason::TruncatedLength), "|truncated length field");
    assert_eq!(words(Reason::LengthOverrun), "|length overruns the enclosing element");
    assert_eq!(words(Reason::IndefiniteLength), "|indefinite length");
    assert_eq!(words(Reason::LengthTooLarge), "|length field too long");
    assert_eq!(words(Reason::NonMinimalLength), "|length not in its shortest form");
    assert_eq!(words(Reason::HighTagNumber), "|tag number too high");
    assert_eq!(words(Reason::UnexpectedTag), "|unexpected tag");
    assert_eq!(words(Reason::TrailingData), "|trailing data");
    assert_eq!(words(Reason::EmptyInteger), "|integer without content");
    assert_eq!(words(Reason::NonCanonicalInteger), "|integer not in its shortest form");
    assert_eq!(words(Reason::InvalidVersion), "|version not known");
    assert_eq!(words(Reason::InvalidBoolean), "|boolean not valid");
    assert_eq!(words(Reason::InvalidBitString), "|bit string not valid");
    assert_eq!(words(Reason::EmptyOid), "|object identifier without content");
    assert_eq!(words(Reason::InvalidTime), "|time not valid");
    assert_eq!(words(Reason::ValidityOrder), "|validity window ends before it starts");
    assert_eq!(words(Reason::DuplicateExtension), "|extension occurs twice");
    let e = MalformedEncoding { offset: 1234, reason: Reason::TrailingData };
    assert_eq!(rendered(|o| write_malformed(o, &e)), "|malformed encoding at offset 1234: trailing data");
}

#[test]
fn every_field_has_its_label() {
    let label = |f: Field| rendered(|o| write_field_label(o, f));
    assert_eq!(label(Field::SerialNumber), "|Serial Number");
    assert_eq!(label(Field::Issuer), "|Issuer");
    assert_eq!(label(Field::Subject), "|Subject");
    assert_eq!(label(Field::Validity), "|Validity");
    assert_eq!(label(Field::PublicKey), "|Public Key");
    assert_eq!(label(Field::SubjectAltNames), "|Subject Alternative Names");
}
