use vstd::prelude::*;
use vstd::string::StringSliceAdditionalSpecFns;
use crate::bytes::append_label;
use crate::cert::{
    extension_views, san_views, Attribute, AttributeView, CertificateView, DistinguishedName,
    Extension, ExtensionView, ParsedCertificate, PublicKeyInfo, PublicKeyInfoView, SubjectAltName,
    SubjectAltNameView, ValidityWindow,
};
use crate::text::{
    spec_decimal, spec_dotted, spec_hex, spec_two_decimals, spec_value_text, text, write_decimal,
    write_dotted, write_hex, write_two_decimals, write_value,
};
use crate::time::Timestamp;

verus! {

/// The day of an instant as `YYYY-MM-DD`.
pub open spec fn spec_date_text(t: Timestamp) -> Seq<u8> {
    spec_two_decimals((t.year / 100) as nat) + spec_two_decimals(t.year as nat) + text("-")
        + spec_two_decimals(t.month as nat) + text("-") + spec_two_decimals(t.day as nat)
}

/// The time of day of an instant as `HH:MM:SS`.
pub open spec fn spec_clock_text(t: Timestamp) -> Seq<u8> {
    spec_two_decimals(t.hour as nat) + text(":") + spec_two_decimals(t.minute as nat) + text(":")
        + spec_two_decimals(t.second as nat)
}

/// An instant as `YYYY-MM-DDTHH:MM:SSZ`.
pub open spec fn spec_instant_text(t: Timestamp) -> Seq<u8> {
    spec_date_text(t) + text("T") + spec_clock_text(t) + text("Z")
}

fn write_date(out: &mut Vec<u8>, t: &Timestamp)
    ensures
        final(out)@ == old(out)@ + spec_date_text(*t),
{
    write_two_decimals(out, t.year / 100);
    write_two_decimals(out, t.year);
    append_label(out, "-");
    write_two_decimals(out, t.month as u16);
    append_label(out, "-");
    write_two_decimals(out, t.day as u16);
    assert(out@ =~= old(out)@ + spec_date_text(*t));
}

fn write_clock(out: &mut Vec<u8>, t: &Timestamp)
    ensures
        final(out)@ == old(out)@ + spec_clock_text(*t),
{
    write_two_decimals(out, t.hour as u16);
    append_label(out, ":");
    write_two_decimals(out, t.minute as u16);
    append_label(out, ":");
    write_two_decimals(out, t.second as u16);
    assert(out@ =~= old(out)@ + spec_clock_text(*t));
}

/// Appends an instant as `YYYY-MM-DDTHH:MM:SSZ` to `out`.
pub fn write_instant(out: &mut Vec<u8>, t: &Timestamp)
    ensures
        final(out)@ == old(out)@ + spec_instant_text(*t),
{
    write_date(out, t);
    append_label(out, "T");
    write_clock(out, t);
    append_label(out, "Z");
    assert(out@ =~= old(out)@ + spec_instant_text(*t));
}

/// The two lines that state a validity window.
pub open spec fn spec_validity_text(w: ValidityWindow) -> Seq<u8> {
    text("Not Before: ") + spec_instant_text(w.not_before) + text("\n") + text("Not After: ")
        + spec_instant_text(w.not_after) + text("\n")
}

/// Appends the two lines that state a validity window to `out`.
pub fn write_validity(out: &mut Vec<u8>, w: &ValidityWindow)
    ensures
        final(out)@ == old(out)@ + spec_validity_text(*w),
{
    append_label(out, "Not Before: ");
    write_instant(out, &w.not_before);
    append_label(out, "\n");
    append_label(out, "Not After: ");
    write_instant(out, &w.not_after);
    append_label(out, "\n");
    assert(out@ =~= old(out)@ + spec_validity_text(*w));
}

/// The content of the object identifier 2.5.4.`last`.
pub open spec fn spec_attribute_type(last: u8) -> Seq<u8> {
    seq![0x55u8, 0x04u8, last]
}

/// The type of an attribute as text: the usual short name of a common type,
/// else the object identifier in dotted decimal.
pub open spec fn spec_attribute_type_text(oid: Seq<u8>) -> Seq<u8> {
    if oid == spec_attribute_type(3) {
        text("CN")
    } else if oid == spec_attribute_type(6) {
        text("C")
    } else if oid == spec_attribute_type(7) {
        text("L")
    } else if oid == spec_attribute_type(8) {
        text("ST")
    } else if oid == spec_attribute_type(10) {
        text("O")
    } else if oid == spec_attribute_type(11) {
        text("OU")
    } else {
        spec_dotted(oid)
    }
}

fn is_attribute_type(oid: &[u8], last: u8) -> (r: bool)
    ensures
        r == (oid@ == spec_attribute_type(last)),
{
    let r = oid.len() == 3 && oid[0] == 0x55 && oid[1] == 0x04 && oid[2] == last;
    assert(r ==> oid@ =~= spec_attribute_type(last));
    r
}

/// Appends the type of an attribute as text to `out`.
pub fn write_attribute_type(out: &mut Vec<u8>, oid: &[u8])
    ensures
        final(out)@ == old(out)@ + spec_attribute_type_text(oid@),
{
    if is_attribute_type(oid, 3) {
        append_label(out, "CN");
    } else if is_attribute_type(oid, 6) {
        append_label(out, "C");
    } else if is_attribute_type(oid, 7) {
        append_label(out, "L");
    } else if is_attribute_type(oid, 8) {
        append_label(out, "ST");
    } else if is_attribute_type(oid, 10) {
        append_label(out, "O");
    } else if is_attribute_type(oid, 11) {
        append_label(out, "OU");
    } else {
        write_dotted(out, oid);
    }
}

/// An attribute as text: its type, an equals sign, its value.
pub open spec fn spec_attribute_text(a: AttributeView) -> Seq<u8> {
    spec_attribute_type_text(a.oid) + text("=") + spec_value_text(a.value)
}

/// A distinguished name as text: its attributes in their order, with a comma
/// and a space between two of them.
pub open spec fn spec_name_text(name: Seq<AttributeView>) -> Seq<u8>
    decreases name.len(),
{
    if name.len() == 0 {
        Seq::empty()
    } else if name.len() == 1 {
        spec_attribute_text(name[0])
    } else {
        spec_name_text(name.drop_last()) + text(", ") + spec_attribute_text(name.last())
    }
}

/// Appends an attribute as text to `out`.
pub fn write_attribute(out: &mut Vec<u8>, a: &Attribute)
    ensures
        final(out)@ == old(out)@ + spec_attribute_text(a@),
{
    write_attribute_type(out, a.oid.as_slice());
    append_label(out, "=");
    write_value(out, a.value.as_slice());
    assert(out@ =~= old(out)@ + spec_attribute_text(a@));
}

/// Appends a distinguished name as text to `out`.
pub fn write_name(out: &mut Vec<u8>, name: &DistinguishedName)
    ensures
        final(out)@ == old(out)@ + spec_name_text(name@),
{
    let mut i: usize = 0;
    assert(name@.subrange(0, 0) =~= Seq::<AttributeView>::empty());
    assert(out@ =~= old(out)@ + Seq::<u8>::empty());
    while i < name.attributes.len()
        invariant
            i <= name.attributes@.len(),
            name@.len() == name.attributes@.len(),
            out@ == old(out)@ + spec_name_text(name@.subrange(0, i as int)),
        decreases name.attributes@.len() - i,
    {
        let ghost before = out@;
        let ghost next = name@.subrange(0, i + 1);
        proof {
            assert(next.drop_last() =~= name@.subrange(0, i as int));
            assert(next.last() == name.attributes@[i as int]@);
        }
        if i > 0 {
            append_label(out, ", ");
        }
        write_attribute(out, &name.attributes[i]);
        assert(out@ =~= old(out)@ + spec_name_text(next)) by {
            if i == 0 {
                assert(spec_name_text(name@.subrange(0, 0)) =~= Seq::<u8>::empty());
                assert(next[0] == next.last());
            }
        }
        i += 1;
    }
    assert(name@.subrange(0, name@.len() as int) =~= name@);
}

/// A network address as text: four bytes as decimal numbers with dots between
/// them, any other count of bytes in hexadecimal.
pub open spec fn spec_address_text(a: Seq<u8>) -> Seq<u8> {
    if a.len() == 4 {
        spec_decimal(a[0] as nat) + text(".") + spec_decimal(a[1] as nat) + text(".")
            + spec_decimal(a[2] as nat) + text(".") + spec_decimal(a[3] as nat)
    } else {
        spec_hex(a)
    }
}

/// Appends a network address as text to `out`.
pub fn write_address(out: &mut Vec<u8>, a: &[u8])
    ensures
        final(out)@ == old(out)@ + spec_address_text(a@),
{
    if a.len() == 4 {
        write_decimal(out, a[0] as u128);
        append_label(out, ".");
        write_decimal(out, a[1] as u128);
        append_label(out, ".");
        write_decimal(out, a[2] as u128);
        append_label(out, ".");
        write_decimal(out, a[3] as u128);
        assert(out@ =~= old(out)@ + spec_address_text(a@));
    } else {
        write_hex(out, a);
    }
}

/// An alternative name as text: a label for its form, a colon, the name.
pub open spec fn spec_san_text(name: SubjectAltNameView) -> Seq<u8> {
    match name {
        SubjectAltNameView::DnsName(n) => text("DNS:") + spec_value_text(n),
        SubjectAltNameView::IpAddress(a) => text("IP:") + spec_address_text(a),
        SubjectAltNameView::Email(n) => text("email:") + spec_value_text(n),
        SubjectAltNameView::Uri(n) => text("URI:") + spec_value_text(n),
        SubjectAltNameView::Other(oid, bytes) => text("other:") + spec_dotted(oid) + text(":")
            + spec_hex(bytes),
    }
}

/// Appends an alternative name as text to `out`.
pub fn write_san(out: &mut Vec<u8>, name: &SubjectAltName)
    ensures
        final(out)@ == old(out)@ + spec_san_text(name@),
{
    match name {
        SubjectAltName::DnsName(n) => {
            append_label(out, "DNS:");
            write_value(out, n.as_slice());
        },
        SubjectAltName::IpAddress(a) => {
            append_label(out, "IP:");
            write_address(out, a.as_slice());
        },
        SubjectAltName::Email(n) => {
            append_label(out, "email:");
            write_value(out, n.as_slice());
        },
        SubjectAltName::Uri(n) => {
            append_label(out, "URI:");
            write_value(out, n.as_slice());
        },
        SubjectAltName::Other(oid, bytes) => {
            append_label(out, "other:");
            write_dotted(out, oid.as_slice());
            append_label(out, ":");
            write_hex(out, bytes.as_slice());
        },
    }
    assert(out@ =~= old(out)@ + spec_san_text(name@));
}

/// The alternative names `names`, one per line, each line indented.
pub open spec fn spec_san_lines(names: Seq<SubjectAltNameView>) -> Seq<u8>
    decreases names.len(),
{
    if names.len() == 0 {
        Seq::empty()
    } else {
        spec_san_lines(names.drop_last()) + text("    ") + spec_san_text(names.last()) + text("\n")
    }
}

/// Appends the alternative names `names` to `out`, one per line, each line
/// indented.
pub fn write_san_lines(out: &mut Vec<u8>, names: &Vec<SubjectAltName>)
    ensures
        final(out)@ == old(out)@ + spec_san_lines(san_views(names@)),
{
    let ghost all = san_views(names@);
    let mut i: usize = 0;
    assert(all.subrange(0, 0) =~= Seq::<SubjectAltNameView>::empty());
    assert(out@ =~= old(out)@ + Seq::<u8>::empty());
    while i < names.len()
        invariant
            i <= names@.len(),
            all == san_views(names@),
            out@ == old(out)@ + spec_san_lines(all.subrange(0, i as int)),
        decreases names@.len() - i,
    {
        let ghost next = all.subrange(0, i + 1);
        proof {
            assert(next.drop_last() =~= all.subrange(0, i as int));
            assert(next.last() == names@[i as int]@);
        }
        append_label(out, "    ");
        write_san(out, &names[i]);
        append_label(out, "\n");
        assert(out@ =~= old(out)@ + spec_san_lines(next));
        i += 1;
    }
    assert(all.subrange(0, all.len() as int) =~= all);
}

/// The alternative names `names`, one per line, each line numbered from 1
/// on.
pub open spec fn spec_numbered_sans(names: Seq<SubjectAltNameView>) -> Seq<u8>
    decreases names.len(),
{
    if names.len() == 0 {
        Seq::empty()
    } else {
        spec_numbered_sans(names.drop_last()) + spec_decimal(names.len()) + text(": ")
            + spec_san_text(names.last()) + text("\n")
    }
}

/// Appends the alternative names `names` to `out`, one per line, numbered
/// from 1 on.
pub fn write_numbered_sans(out: &mut Vec<u8>, names: &Vec<SubjectAltName>)
    ensures
        final(out)@ == old(out)@ + spec_numbered_sans(san_views(names@)),
{
    let ghost all = san_views(names@);
    let mut i: usize = 0;
    assert(all.subrange(0, 0) =~= Seq::<SubjectAltNameView>::empty());
    assert(out@ =~= old(out)@ + Seq::<u8>::empty());
    while i < names.len()
        invariant
            i <= names@.len(),
            all == san_views(names@),
            out@ == old(out)@ + spec_numbered_sans(all.subrange(0, i as int)),
        decreases names@.len() - i,
    {
        let ghost next = all.subrange(0, i + 1);
        proof {
            assert(next.drop_last() =~= all.subrange(0, i as int));
            assert(next.last() == names@[i as int]@);
        }
        write_decimal(out, i as u128 + 1);
        append_label(out, ": ");
        write_san(out, &names[i]);
        append_label(out, "\n");
        assert(out@ =~= old(out)@ + spec_numbered_sans(next));
        i += 1;
    }
    assert(all.subrange(0, all.len() as int) =~= all);
}

/// The alternative names `names` as a set in braces, with a comma and a space
/// between two of them, in the order of the list.
pub open spec fn spec_san_set_items(names: Seq<SubjectAltNameView>) -> Seq<u8>
    decreases names.len(),
{
    if names.len() == 0 {
        Seq::empty()
    } else if names.len() == 1 {
        spec_san_text(names[0])
    } else {
        spec_san_set_items(names.drop_last()) + text(", ") + spec_san_text(names.last())
    }
}

/// Appends the alternative names `names` to `out`, with a comma and a space
/// between two of them.
pub fn write_san_set_items(out: &mut Vec<u8>, names: &Vec<SubjectAltName>)
    ensures
        final(out)@ == old(out)@ + spec_san_set_items(san_views(names@)),
{
    let ghost all = san_views(names@);
    let mut i: usize = 0;
    assert(all.subrange(0, 0) =~= Seq::<SubjectAltNameView>::empty());
    assert(out@ =~= old(out)@ + Seq::<u8>::empty());
    while i < names.len()
        invariant
            i <= names@.len(),
            all == san_views(names@),
            out@ == old(out)@ + spec_san_set_items(all.subrange(0, i as int)),
        decreases names@.len() - i,
    {
        let ghost next = all.subrange(0, i + 1);
        proof {
            assert(next.drop_last() =~= all.subrange(0, i as int));
            assert(next.last() == names@[i as int]@);
        }
        if i > 0 {
            append_label(out, ", ");
        }
        write_san(out, &names[i]);
        assert(out@ =~= old(out)@ + spec_san_set_items(next)) by {
            if i == 0 {
                assert(spec_san_set_items(all.subrange(0, 0)) =~= Seq::<u8>::empty());
                assert(next[0] == next.last());
            }
        }
        i += 1;
    }
    assert(all.subrange(0, all.len() as int) =~= all);
}

/// One extension as a line: its object identifier, the word `critical` where
/// it is critical, the word `unparsed` where it is critical and its value was
/// kept unread, then its value in hexadecimal.
pub open spec fn spec_extension_line(e: ExtensionView) -> Seq<u8> {
    text("    ") + spec_dotted(e.oid) + (if e.critical {
        text(" critical")
    } else {
        Seq::empty()
    }) + (if e.is_unparsed_critical() {
        text(" unparsed")
    } else {
        Seq::empty()
    }) + text(": ") + spec_hex(e.value) + text("\n")
}

/// Appends one extension as a line to `out`.
pub fn write_extension_line(out: &mut Vec<u8>, e: &Extension)
    ensures
        final(out)@ == old(out)@ + spec_extension_line(e@),
{
    append_label(out, "    ");
    write_dotted(out, e.oid.as_slice());
    if e.critical {
        append_label(out, " critical");
    }
    if e.is_unparsed_critical() {
        append_label(out, " unparsed");
    }
    append_label(out, ": ");
    write_hex(out, e.value.as_slice());
    append_label(out, "\n");
    assert(out@ =~= old(out)@ + spec_extension_line(e@));
}

/// The extensions `extensions`, one per line, in their order.
pub open spec fn spec_extension_lines(extensions: Seq<ExtensionView>) -> Seq<u8>
    decreases extensions.len(),
{
    if extensions.len() == 0 {
        Seq::empty()
    } else {
        spec_extension_lines(extensions.drop_last()) + spec_extension_line(extensions.last())
    }
}

/// Appends the extensions `extensions` to `out`, one per line.
pub fn write_extension_lines(out: &mut Vec<u8>, extensions: &Vec<Extension>)
    ensures
        final(out)@ == old(out)@ + spec_extension_lines(extension_views(extensions@)),
{
    let ghost all = extension_views(extensions@);
    let mut i: usize = 0;
    assert(all.subrange(0, 0) =~= Seq::<ExtensionView>::empty());
    assert(out@ =~= old(out)@ + Seq::<u8>::empty());
    while i < extensions.len()
        invariant
            i <= extensions@.len(),
            all == extension_views(extensions@),
            out@ == old(out)@ + spec_extension_lines(all.subrange(0, i as int)),
        decreases extensions@.len() - i,
    {
        let ghost next = all.subrange(0, i + 1);
        proof {
            assert(next.drop_last() =~= all.subrange(0, i as int));
            assert(next.last() == extensions@[i as int]@);
        }
        write_extension_line(out, &extensions[i]);
        assert(out@ =~= old(out)@ + spec_extension_lines(next));
        i += 1;
    }
    assert(all.subrange(0, all.len() as int) =~= all);
}

/// The size of a key in bits as it is shown: zero where the count of unused
/// bits exceeds the bits that the key has.
pub open spec fn spec_shown_bits(k: PublicKeyInfoView) -> nat {
    if k.key_bits() < 0 {
        0
    } else {
        k.key_bits() as nat
    }
}

/// A public key as text: its algorithm, its size in bits, and the key in
/// hexadecimal.
pub open spec fn spec_key_text(k: PublicKeyInfoView) -> Seq<u8> {
    spec_dotted(k.algorithm) + text(" (") + spec_decimal(spec_shown_bits(k)) + text(" bits) ")
        + spec_hex(k.key)
}

/// Appends a public key as text to `out`.
pub fn write_key(out: &mut Vec<u8>, k: &PublicKeyInfo)
    ensures
        final(out)@ == old(out)@ + spec_key_text(k@),
{
    let total: u128 = k.key.len() as u128 * 8;
    let unused: u128 = k.unused_bits as u128;
    let bits: u128 = if total < unused {
        0
    } else {
        total - unused
    };
    write_dotted(out, k.algorithm.as_slice());
    append_label(out, " (");
    write_decimal(out, bits);
    append_label(out, " bits) ");
    write_hex(out, k.key.as_slice());
    assert(out@ =~= old(out)@ + spec_key_text(k@));
}

/// The first two lines of a certificate: version and serial number.
pub open spec fn spec_version_lines(c: CertificateView) -> Seq<u8> {
    text("Version: ") + spec_decimal(c.version as nat) + text("\n") + text("Serial Number: ")
        + spec_hex(c.serial_number) + text("\n")
}

/// A name on a line of its own, after its label.
pub open spec fn spec_name_line(label: &str, name: Seq<AttributeView>) -> Seq<u8> {
    text(label) + spec_name_text(name) + text("\n")
}

/// The three lines of a certificate that state its validity window.
pub open spec fn spec_validity_lines(w: ValidityWindow) -> Seq<u8> {
    text("Validity:\n") + text("    Not Before: ") + spec_instant_text(w.not_before) + text("\n")
        + text("    Not After: ") + spec_instant_text(w.not_after) + text("\n")
}

/// The lines of a certificate that come before its public key: version,
/// serial number, issuer, validity window, subject.
pub open spec fn spec_dump_head(c: CertificateView) -> Seq<u8> {
    spec_version_lines(c) + spec_name_line("Issuer: ", c.issuer) + spec_validity_lines(c.validity)
        + spec_name_line("Subject: ", c.subject)
}

/// The line of a certificate that states its public key.
pub open spec fn spec_key_line(k: PublicKeyInfoView) -> Seq<u8> {
    text("Public Key: ") + spec_key_text(k) + text("\n")
}

/// The lines of a certificate that list its extensions, under their heading.
pub open spec fn spec_extensions_block(extensions: Seq<ExtensionView>) -> Seq<u8> {
    text("Extensions:\n") + spec_extension_lines(extensions)
}

/// The lines of a certificate that list its alternative names, under their
/// heading.
pub open spec fn spec_sans_block(names: Seq<SubjectAltNameView>) -> Seq<u8> {
    text("Subject Alternative Names:\n") + spec_san_lines(names)
}

/// The line of a certificate that states its signature algorithm.
pub open spec fn spec_signature_line(oid: Seq<u8>) -> Seq<u8> {
    text("Signature Algorithm: ") + spec_dotted(oid) + text("\n")
}

/// The lines of a certificate from its public key on: public key,
/// extensions, alternative names, signature algorithm.
pub open spec fn spec_dump_tail(c: CertificateView) -> Seq<u8> {
    spec_key_line(c.public_key) + spec_extensions_block(c.extensions) + spec_sans_block(c.sans)
        + spec_signature_line(c.signature_algorithm)
}

/// The full text of a certificate: every field under its label, in a fixed
/// order.
pub open spec fn spec_full_text_dump(c: CertificateView) -> Seq<u8> {
    spec_dump_head(c) + spec_dump_tail(c)
}

fn write_version_lines(out: &mut Vec<u8>, c: &ParsedCertificate)
    ensures
        final(out)@ == old(out)@ + spec_version_lines(c@),
{
    append_label(out, "Version: ");
    write_decimal(out, c.version as u128);
    append_label(out, "\n");
    append_label(out, "Serial Number: ");
    write_hex(out, c.serial_number.as_slice());
    append_label(out, "\n");
    assert(out@ =~= old(out)@ + spec_version_lines(c@));
}

fn write_name_line(out: &mut Vec<u8>, label: &str, name: &DistinguishedName)
    ensures
        final(out)@ == old(out)@ + spec_name_line(label, name@),
{
    append_label(out, label);
    write_name(out, name);
    append_label(out, "\n");
    assert(out@ =~= old(out)@ + spec_name_line(label, name@));
}

fn write_validity_lines(out: &mut Vec<u8>, w: &ValidityWindow)
    ensures
        final(out)@ == old(out)@ + spec_validity_lines(*w),
{
    append_label(out, "Validity:\n");
    append_label(out, "    Not Before: ");
    write_instant(out, &w.not_before);
    append_label(out, "\n");
    append_label(out, "    Not After: ");
    write_instant(out, &w.not_after);
    append_label(out, "\n");
    assert(out@ =~= old(out)@ + spec_validity_lines(*w));
}

fn write_dump_head(out: &mut Vec<u8>, c: &ParsedCertificate)
    ensures
        final(out)@ == old(out)@ + spec_dump_head(c@),
{
    write_version_lines(out, c);
    write_name_line(out, "Issuer: ", &c.issuer);
    write_validity_lines(out, &c.validity);
    write_name_line(out, "Subject: ", &c.subject);
    assert(out@ =~= old(out)@ + spec_dump_head(c@));
}

fn write_key_line(out: &mut Vec<u8>, k: &PublicKeyInfo)
    ensures
        final(out)@ == old(out)@ + spec_key_line(k@),
{
    append_label(out, "Public Key: ");
    write_key(out, k);
    append_label(out, "\n");
    assert(out@ =~= old(out)@ + spec_key_line(k@));
}

fn write_signature_line(out: &mut Vec<u8>, oid: &[u8])
    ensures
        final(out)@ == old(out)@ + spec_signature_line(oid@),
{
    append_label(out, "Signature Algorithm: ");
    write_dotted(out, oid);
    append_label(out, "\n");
    assert(out@ =~= old(out)@ + spec_signature_line(oid@));
}

fn write_dump_tail(out: &mut Vec<u8>, c: &ParsedCertificate)
    ensures
        final(out)@ == old(out)@ + spec_dump_tail(c@),
{
    write_key_line(out, &c.public_key);
    append_label(out, "Extensions:\n");
    write_extension_lines(out, &c.extensions);
    append_label(out, "Subject Alternative Names:\n");
    write_san_lines(out, &c.sans);
    write_signature_line(out, c.signature_algorithm.as_slice());
    assert(out@ =~= old(out)@ + spec_dump_tail(c@));
}

/// Renders every field of a certificate as text, in a fixed order and under
/// fixed labels: version, serial number, issuer, validity window, subject,
/// public key, extensions, alternative names, signature algorithm.
pub fn full_text_dump(c: &ParsedCertificate) -> (out: Vec<u8>)
    ensures
        out@ == spec_full_text_dump(c@),
{
    let mut out: Vec<u8> = Vec::new();
    write_dump_head(&mut out, c);
    write_dump_tail(&mut out, c);
    assert(out@ =~= spec_full_text_dump(c@));
    out
}

} // verus!
