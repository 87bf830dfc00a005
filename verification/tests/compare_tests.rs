use certinspect::cert::{
    Attribute, DistinguishedName, ParsedCertificate, PublicKeyInfo, SubjectAltName, ValidityWindow,
};
use certinspect::compare::{
    compare, compare_decoded, same_attributes, same_sans, ComparisonResult, Field, FieldValue,
    Incomparable,
};
use certinspect::der::{MalformedEncoding, Reason};
use certinspect::report::comparison_text;
use certinspect::time::Timestamp;

fn cmp_attribute(last: u8, value: &str) -> Attribute {
    Attribute { oid: vec![0x55, 0x04, last], value: value.as_bytes().to_vec() }
}

fn cmp_instant(year: u16) -> Timestamp {
    Timestamp { year, month: 1, day: 1, hour: 0, minute: 0, second: 0 }
}

fn cmp_certificate(dns: &[&str]) -> ParsedCertificate {
    ParsedCertificate {
        version: 3,
        serial_number: vec![0x01, 0x02],
        signature_algorithm: vec![0x2a, 0x86, 0x48, 0xce, 0x3d, 0x04, 0x03, 0x02],
        issuer: DistinguishedName {
            attributes: vec![cmp_attribute(6, "US"), cmp_attribute(10, "Example CA")],
        },
        subject: DistinguishedName {
            attributes: vec![cmp_attribute(6, "US"), cmp_attribute(3, "example.com")],
        },
        validity: ValidityWindow { not_before: cmp_instant(2024), not_after: cmp_instant(2025) },
        public_key: PublicKeyInfo {
            algorithm: vec![0x2a, 0x86, 0x48, 0xce, 0x3d, 0x02, 0x01],
            unused_bits: 0,
            key: vec![0x04, 0xaa, 0xbb],
        },
        extensions: Vec::new(),
        sans: dns.iter().map(|n| SubjectAltName::DnsName(n.as_bytes().to_vec())).collect(),
    }
}

fn cmp_fields(r: &ComparisonResult) -> Vec<Field> {
    match r {
        ComparisonResult::DifferByFields(d) => d.iter().map(|x| x.field).collect(),
        _ => panic!("the verdict lists no fields"),
    }
}

fn cmp_text(r: &ComparisonResult) -> String {
    String::from_utf8(comparison_text(r)).expect("the text is ASCII")
}

#[test]
fn a_certificate_is_identical_to_itself() {
    let c = cmp_certificate(&["example.com", "www.example.com"]);
    assert!(matches!(compare(&c, &c), ComparisonResult::Identical));
    let d = cmp_certificate(&["example.com", "www.example.com"]);
    assert!(matches!(compare(&c, &d), ComparisonResult::Identical));
    assert_eq!(cmp_text(&compare(&c, &d)), "identical\n");
}

#[test]
fn one_changed_alternative_name_is_one_difference() {
    let a = cmp_certificate(&["example.com"]);
    let b = cmp_certificate(&["example.org"]);
    let r = compare(&a, &b);
    match &r {
        ComparisonResult::DifferByFields(d) => {
            assert_eq!(d.len(), 1);
            assert_eq!(d[0].field, Field::SubjectAltNames);
            assert!(matches!(&d[0].old, FieldValue::SubjectAltNames(n)
                if n.len() == 1 && matches!(&n[0], SubjectAltName::DnsName(x) if x == b"example.com")));
            assert!(matches!(&d[0].new, FieldValue::SubjectAltNames(n)
                if n.len() == 1 && matches!(&n[0], SubjectAltName::DnsName(x) if x == b"example.org")));
        },
        _ => panic!("the certificates differ"),
    }
    assert_eq!(
        cmp_text(&r),
        "Subject Alternative Names:\n    old: {DNS:example.com}\n    new: {DNS:example.org}\n"
    );
}

#[test]
fn the_other_direction_reports_the_same_fields_swapped() {
    let a = cmp_certificate(&["example.com"]);
    let mut b = cmp_certificate(&["example.org"]);
    b.serial_number = vec![0x09];
    b.validity.not_after = cmp_instant(2030);
    let forth = compare(&a, &b);
    let back = compare(&b, &a);
    assert_eq!(cmp_fields(&forth), vec![Field::SerialNumber, Field::Validity, Field::SubjectAltNames]);
    assert_eq!(cmp_fields(&forth), cmp_fields(&back));
    assert_eq!(
        cmp_text(&forth),
        [
            "Serial Number:\n    old: 0102\n    new: 09\n",
            "Validity:\n    old: 2024-01-01T00:00:00Z to 2025-01-01T00:00:00Z\n",
            "    new: 2024-01-01T00:00:00Z to 2030-01-01T00:00:00Z\n",
            "Subject Alternative Names:\n    old: {DNS:example.com}\n    new: {DNS:example.org}\n",
        ]
        .concat()
    );
    assert_eq!(
        cmp_text(&back),
        [
            "Serial Number:\n    old: 09\n    new: 0102\n",
            "Validity:\n    old: 2024-01-01T00:00:00Z to 2030-01-01T00:00:00Z\n",
            "    new: 2024-01-01T00:00:00Z to 2025-01-01T00:00:00Z\n",
            "Subject Alternative Names:\n    old: {DNS:example.org}\n    new: {DNS:example.com}\n",
        ]
        .concat()
    );
}

#[test]
fn every_differing_field_is_reported_in_order() {
    let a = cmp_certificate(&["example.com"]);
    let mut b = cmp_certificate(&["example.org"]);
    b.serial_number = vec![0x09];
    b.issuer.attributes.push(cmp_attribute(11, "Unit"));
    b.subject.attributes[1] = cmp_attribute(3, "example.org");
    b.validity.not_before = cmp_instant(2023);
    b.public_key.key = vec![0x04, 0xaa, 0xbc];
    assert_eq!(
        cmp_fields(&compare(&a, &b)),
        vec![
            Field::SerialNumber,
            Field::Issuer,
            Field::Subject,
            Field::Validity,
            Field::PublicKey,
            Field::SubjectAltNames,
        ]
    );
    let mut c = cmp_certificate(&["example.com"]);
    c.public_key.algorithm = vec![0x2a];
    let r = compare(&a, &c);
    assert_eq!(cmp_fields(&r), vec![Field::PublicKey]);
    assert_eq!(
        cmp_text(&r),
        "Public Key:\n    old: 1.2.840.10045.2.1 (24 bits) 04aabb\n    new: 1.2 (24 bits) 04aabb\n"
    );
}

#[test]
fn order_and_repetition_do_not_make_a_difference() {
    let a = cmp_certificate(&["example.com", "www.example.com"]);
    let mut b = cmp_certificate(&["www.example.com", "example.com", "www.example.com"]);
    b.issuer.attributes.reverse();
    b.subject.attributes.reverse();
    assert!(matches!(compare(&a, &b), ComparisonResult::Identical));
    assert!(same_attributes(&a.issuer, &b.issuer));
    assert!(same_sans(&a.sans, &b.sans));
    // a different form of the same bytes is a different name
    let mut c = cmp_certificate(&["example.com"]);
    c.sans.push(SubjectAltName::Uri(b"www.example.com".to_vec()));
    assert!(!same_sans(&a.sans, &c.sans));
    assert_eq!(cmp_fields(&compare(&a, &c)), vec![Field::SubjectAltNames]);
    // what the comparison does not look at makes no difference
    let mut d = cmp_certificate(&["example.com", "www.example.com"]);
    d.version = 1;
    d.signature_algorithm = vec![0x2a];
    assert!(matches!(compare(&a, &d), ComparisonResult::Identical));
}

#[test]
fn a_name_is_compared_by_type_and_value() {
    let a = DistinguishedName { attributes: vec![cmp_attribute(3, "a"), cmp_attribute(10, "b")] };
    let b = DistinguishedName { attributes: vec![cmp_attribute(10, "b"), cmp_attribute(3, "a")] };
    let c = DistinguishedName { attributes: vec![cmp_attribute(3, "b"), cmp_attribute(10, "a")] };
    let none = DistinguishedName { attributes: Vec::new() };
    assert!(same_attributes(&a, &b));
    assert!(!same_attributes(&a, &c));
    assert!(!same_attributes(&a, &none));
    assert!(same_attributes(&none, &none));
}

#[test]
fn an_input_that_was_not_decoded_cannot_be_compared() {
    let good = cmp_certificate(&["example.com"]);
    let e = MalformedEncoding { offset: 7, reason: Reason::IndefiniteLength };
    let f = MalformedEncoding { offset: 0, reason: Reason::Truncated };
    let r = compare_decoded(&Err(e), &Ok(good.clone()));
    assert!(matches!(r, ComparisonResult::IncomparableError(Incomparable::First(x)) if x == e));
    let r = compare_decoded(&Ok(good.clone()), &Err(f));
    assert!(matches!(r, ComparisonResult::IncomparableError(Incomparable::Second(x)) if x == f));
    let r = compare_decoded(&Err(e), &Err(f));
    assert!(matches!(r, ComparisonResult::IncomparableError(Incomparable::Both(x, y)) if x == e && y == f));
    let r = compare_decoded(&Ok(good.clone()), &Ok(good));
    assert!(matches!(r, ComparisonResult::Identical));
}
