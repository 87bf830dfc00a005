use certinspect::cert::{Origin, RawCertificateBytes};
use certinspect::command::{compare_report, diagnostic, finish, inspect, sans, validity};
use certinspect::error::InspectError;
use certinspect::resolve::{fetched, FetchOutcome};
use certinspect::decode::decode_bytes;
use certinspect::der::{MalformedEncoding, Reason};
use certinspect::dump::full_text_dump;

fn text_sample() -> Vec<u8> {
    vec![
        0x30, 0x82, 0x02, 0x21, 0x30, 0x82, 0x01, 0xc6, 0xa0, 0x03, 0x02, 0x01, 0x02, 0x02, 0x03,
        0x1a, 0x2b, 0x3c, 0x30, 0x0a, 0x06, 0x08, 0x2a, 0x86, 0x48, 0xce, 0x3d, 0x04, 0x03, 0x02,
        0x30, 0x39, 0x31, 0x0b, 0x30, 0x09, 0x06, 0x03, 0x55, 0x04, 0x06, 0x13, 0x02, 0x55, 0x53,
        0x31, 0x14, 0x30, 0x12, 0x06, 0x03, 0x55, 0x04, 0x0a, 0x0c, 0x0b, 0x45, 0x78, 0x61, 0x6d,
        0x70, 0x6c, 0x65, 0x20, 0x4f, 0x72, 0x67, 0x31, 0x14, 0x30, 0x12, 0x06, 0x03, 0x55, 0x04,
        0x03, 0x0c, 0x0b, 0x65, 0x78, 0x61, 0x6d, 0x70, 0x6c, 0x65, 0x2e, 0x63, 0x6f, 0x6d, 0x30,
        0x1e, 0x17, 0x0d, 0x32, 0x36, 0x31, 0x30, 0x32, 0x38, 0x30, 0x32, 0x31, 0x37, 0x34, 0x35,
        0x5a, 0x17, 0x0d, 0x32, 0x37, 0x31, 0x30, 0x32, 0x38, 0x30, 0x32, 0x31, 0x37, 0x34, 0x35,
        0x5a, 0x30, 0x39, 0x31, 0x0b, 0x30, 0x09, 0x06, 0x03, 0x55, 0x04, 0x06, 0x13, 0x02, 0x55,
        0x53, 0x31, 0x14, 0x30, 0x12, 0x06, 0x03, 0x55, 0x04, 0x0a, 0x0c, 0x0b, 0x45, 0x78, 0x61,
        0x6d, 0x70, 0x6c, 0x65, 0x20, 0x4f, 0x72, 0x67, 0x31, 0x14, 0x30, 0x12, 0x06, 0x03, 0x55,
        0x04, 0x03, 0x0c, 0x0b, 0x65, 0x78, 0x61, 0x6d, 0x70, 0x6c, 0x65, 0x2e, 0x63, 0x6f, 0x6d,
        0x30, 0x59, 0x30, 0x13, 0x06, 0x07, 0x2a, 0x86, 0x48, 0xce, 0x3d, 0x02, 0x01, 0x06, 0x08,
        0x2a, 0x86, 0x48, 0xce, 0x3d, 0x03, 0x01, 0x07, 0x03, 0x42, 0x00, 0x04, 0x15, 0x04, 0x64,
        0x7a, 0xb3, 0xa0, 0x43, 0x9c, 0x5e, 0x2b, 0x7a, 0x9c, 0x43, 0x3d, 0x82, 0x73, 0xd3, 0x63,
        0x77, 0xd6, 0x55, 0x09, 0xf4, 0xda, 0xff, 0x46, 0x4c, 0xb6, 0xc2, 0xc9, 0xde, 0x30, 0xaf,
        0xcf, 0x42, 0x1c, 0x5b, 0x2e, 0xa0, 0xf0, 0xbb, 0xd0, 0x2b, 0x02, 0x61, 0xa0, 0xaf, 0xf2,
        0xd2, 0x8c, 0x53, 0x3a, 0x43, 0x5c, 0x23, 0x13, 0x85, 0xe4, 0x4b, 0xbc, 0xe5, 0x31, 0x1a,
        0x0f, 0xa3, 0x81, 0xbc, 0x30, 0x81, 0xb9, 0x30, 0x1d, 0x06, 0x03, 0x55, 0x1d, 0x0e, 0x04,
        0x16, 0x04, 0x14, 0xae, 0x6a, 0x93, 0xd3, 0x8b, 0x7c, 0x24, 0xb7, 0x91, 0x85, 0x43, 0x39,
        0xcb, 0x0d, 0xd2, 0xa3, 0x3e, 0x55, 0x59, 0x2e, 0x30, 0x1f, 0x06, 0x03, 0x55, 0x1d, 0x23,
        0x04, 0x18, 0x30, 0x16, 0x80, 0x14, 0xae, 0x6a, 0x93, 0xd3, 0x8b, 0x7c, 0x24, 0xb7, 0x91,
        0x85, 0x43, 0x39, 0xcb, 0x0d, 0xd2, 0xa3, 0x3e, 0x55, 0x59, 0x2e, 0x30, 0x0f, 0x06, 0x03,
        0x55, 0x1d, 0x13, 0x01, 0x01, 0xff, 0x04, 0x05, 0x30, 0x03, 0x01, 0x01, 0xff, 0x30, 0x56,
        0x06, 0x03, 0x55, 0x1d, 0x11, 0x04, 0x4f, 0x30, 0x4d, 0x82, 0x0b, 0x65, 0x78, 0x61, 0x6d,
        0x70, 0x6c, 0x65, 0x2e, 0x63, 0x6f, 0x6d, 0x82, 0x0f, 0x77, 0x77, 0x77, 0x2e, 0x65, 0x78,
        0x61, 0x6d, 0x70, 0x6c, 0x65, 0x2e, 0x63, 0x6f, 0x6d, 0x87, 0x04, 0xc0, 0x00, 0x02, 0x01,
        0x81, 0x11, 0x61, 0x64, 0x6d, 0x69, 0x6e, 0x40, 0x65, 0x78, 0x61, 0x6d, 0x70, 0x6c, 0x65,
        0x2e, 0x63, 0x6f, 0x6d, 0x86, 0x14, 0x68, 0x74, 0x74, 0x70, 0x73, 0x3a, 0x2f, 0x2f, 0x65,
        0x78, 0x61, 0x6d, 0x70, 0x6c, 0x65, 0x2e, 0x63, 0x6f, 0x6d, 0x2f, 0x30, 0x0e, 0x06, 0x03,
        0x55, 0x1d, 0x0f, 0x01, 0x01, 0xff, 0x04, 0x04, 0x03, 0x02, 0x07, 0x80, 0x30, 0x0a, 0x06,
        0x08, 0x2a, 0x86, 0x48, 0xce, 0x3d, 0x04, 0x03, 0x02, 0x03, 0x49, 0x00, 0x30, 0x46, 0x02,
        0x21, 0x00, 0xa5, 0x76, 0x96, 0x51, 0x60, 0x3e, 0xb5, 0x4a, 0xc6, 0x7e, 0x6d, 0xd4, 0xd7,
        0x8b, 0xb2, 0xd7, 0xea, 0x3a, 0xe4, 0xb0, 0x28, 0x40, 0x12, 0x5b, 0x58, 0xa0, 0xb3, 0x44,
        0x80, 0xb2, 0xf8, 0xf6, 0x02, 0x21, 0x00, 0xa7, 0x1e, 0x4e, 0xa8, 0x76, 0x6e, 0x57, 0x69,
        0x47, 0x7f, 0x30, 0xe6, 0xb6, 0xd9, 0xd3, 0xbb, 0x71, 0x64, 0xe2, 0x16, 0x7d, 0x56, 0xd8,
        0xab, 0x82, 0xd8, 0xa7, 0x19, 0x8c, 0x46, 0xa5, 0x01
    ]
}

fn text_raw(bytes: Vec<u8>) -> RawCertificateBytes {
    RawCertificateBytes { origin: Origin::FromFile, bytes }
}

fn text_of(bytes: Vec<u8>) -> String {
    String::from_utf8(bytes).expect("the text is ASCII")
}

fn text_sample_dump() -> String {
    [
        "Version: 3\n",
        "Serial Number: 1a2b3c\n",
        "Issuer: C=US, O=Example Org, CN=example.com\n",
        "Validity:\n",
        "    Not Before: 2026-10-28T02:17:45Z\n",
        "    Not After: 2027-10-28T02:17:45Z\n",
        "Subject: C=US, O=Example Org, CN=example.com\n",
        "Public Key: 1.2.840.10045.2.1 (520 bits) 041504647ab3a0439c5e2b7a9c433d8273d36377d65509f4daff464cb6c2c9de30afcf421c5b2ea0f0bbd02b0261a0aff2d28c533a435c231385e44bbce5311a0f\n",
        "Extensions:\n",
        "    2.5.29.14: 0414ae6a93d38b7c24b791854339cb0dd2a33e55592e\n",
        "    2.5.29.35: 30168014ae6a93d38b7c24b791854339cb0dd2a33e55592e\n",
        "    2.5.29.19 critical unparsed: 30030101ff\n",
        "    2.5.29.17: 304d820b6578616d706c652e636f6d820f7777772e6578616d706c652e636f6d8704c0000201811161646d696e406578616d706c652e636f6d861468747470733a2f2f6578616d706c652e636f6d2f\n",
        "    2.5.29.15 critical unparsed: 03020780\n",
        "Subject Alternative Names:\n",
        "    DNS:example.com\n",
        "    DNS:www.example.com\n",
        "    IP:192.0.2.1\n",
        "    email:admin@example.com\n",
        "    URI:https://example.com/\n",
        "Signature Algorithm: 1.2.840.10045.4.3.2\n",
    ]
    .concat()
}

#[test]
fn inspect_prints_every_field_in_order() {
    let out = inspect(&text_raw(text_sample())).expect("the certificate decodes");
    assert_eq!(text_of(out), text_sample_dump());
}

#[test]
fn dumping_twice_gives_the_same_text() {
    let first = decode_bytes(&text_sample(), false).expect("the certificate decodes");
    let second = decode_bytes(&text_sample(), false).expect("the certificate decodes");
    let a = full_text_dump(&first);
    let b = full_text_dump(&second);
    let c = full_text_dump(&first);
    assert_eq!(a, b);
    assert_eq!(a, c);
    assert_eq!(text_of(a), text_sample_dump());
}

#[test]
fn sans_prints_numbered_lines() {
    let out = sans(&text_raw(text_sample())).expect("the certificate decodes");
    assert_eq!(
        text_of(out),
        "1: DNS:example.com\n2: DNS:www.example.com\n3: IP:192.0.2.1\n4: email:admin@example.com\n5: URI:https://example.com/\n"
    );
}

#[test]
fn validity_prints_two_instants() {
    let out = validity(&text_raw(text_sample())).expect("the certificate decodes");
    assert_eq!(
        text_of(out),
        "Not Before: 2026-10-28T02:17:45Z\nNot After: 2027-10-28T02:17:45Z\n"
    );
}

#[test]
fn a_certificate_compared_with_itself_prints_identical() {
    let out = compare_report(&text_raw(text_sample()), &text_raw(text_sample()));
    assert_eq!(text_of(out), "identical\n");
}

#[test]
fn malformed_input_fails_every_command() {
    let cut = text_sample()[..10].to_vec();
    let expected = InspectError::MalformedEncoding(MalformedEncoding {
        offset: 1,
        reason: Reason::LengthOverrun,
    });
    assert_eq!(inspect(&text_raw(cut.clone())), Err(expected));
    assert_eq!(sans(&text_raw(cut.clone())), Err(expected));
    assert_eq!(validity(&text_raw(cut.clone())), Err(expected));
    let out = compare_report(&text_raw(cut.clone()), &text_raw(text_sample()));
    assert_eq!(
        text_of(out),
        "incomparable: first input: malformed encoding at offset 1: length overruns the enclosing element\n"
    );
    let out = compare_report(&text_raw(text_sample()), &text_raw(Vec::new()));
    assert_eq!(
        text_of(out),
        "incomparable: second input: malformed encoding at offset 0: element expected\n"
    );
    let out = compare_report(&text_raw(cut), &text_raw(Vec::new()));
    assert_eq!(
        text_of(out),
        "incomparable: first input: malformed encoding at offset 1: length overruns the enclosing element; second input: malformed encoding at offset 0: element expected\n"
    );
}

#[test]
fn a_failed_command_prints_nothing_and_exits_with_an_error() {
    let cut = text_sample()[..10].to_vec();
    let done = finish(inspect(&text_raw(cut)));
    assert!(done.stdout.is_empty());
    assert_eq!(
        text_of(done.stderr),
        "Error: malformed encoding at offset 1: length overruns the enclosing element\n"
    );
    assert_eq!(done.exit_code, 1);
    let done = finish(inspect(&text_raw(text_sample())));
    assert_eq!(text_of(done.stdout), text_sample_dump());
    assert!(done.stderr.is_empty());
    assert_eq!(done.exit_code, 0);
}

#[test]
fn a_connection_failure_is_no_decode_error() {
    let failure = fetched(FetchOutcome::Unreachable).expect_err("nothing was presented");
    assert_eq!(failure, InspectError::ConnectionError);
    let refused = finish(Err(failure));
    assert!(refused.stdout.is_empty());
    assert_eq!(refused.exit_code, 1);
    assert_eq!(text_of(refused.stderr), "Error: connection failed\n");
    assert_ne!(
        InspectError::ConnectionError,
        InspectError::MalformedEncoding(MalformedEncoding { offset: 0, reason: Reason::Truncated })
    );
    assert_eq!(text_of(diagnostic(&InspectError::TlsHandshakeError)), "Error: TLS handshake failed\n");
    assert_eq!(text_of(diagnostic(&InspectError::Timeout)), "Error: timed out\n");
    assert_eq!(
        text_of(diagnostic(&InspectError::UnresolvableInput)),
        "Error: input does not match any expected type\n"
    );
}
