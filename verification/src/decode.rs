use vstd::prelude::*;
use crate::cert::{
    spec_distinct_extensions, spec_has_extension, spec_san_oid, CertificateView, ParsedCertificate,
    PublicKeyInfo, PublicKeyInfoView, RawCertificateBytes, SubjectAltNameView, ValidityWindow,
};
use crate::der::{
    expect, lemma_minimal_integer_keeps_value, malformed, parse_bit_string, parse_integer,
    parse_oid, read_header, spec_bit_string, spec_expect, spec_has_redundant_lead, spec_integer,
    spec_minimal_integer, spec_oid, spec_read_header, MalformedEncoding, Reason, TAG_BIT_STRING,
    TAG_INTEGER, TAG_OID, TAG_SEQUENCE,
};
use crate::ext::{
    lemma_extensions_well_formed, parse_optional_extensions, spec_optional_extensions,
    TAG_EXTENSIONS,
};
use crate::name::{parse_name, spec_name};
use crate::time::{parse_time, spec_parse_time};

verus! {

/// The tag that wraps the version number of a certificate.
pub const TAG_VERSION: u8 = 0xa0;

/// The tag of the issuer's unique identifier.
pub const TAG_ISSUER_UNIQUE_ID: u8 = 0x81;

/// The tag of the subject's unique identifier.
pub const TAG_SUBJECT_UNIQUE_ID: u8 = 0x82;

/// The element at `pos` within `s[..limit]` carries the tag `tag`.
pub open spec fn spec_tag_at(s: Seq<u8>, pos: usize, limit: usize, tag: u8) -> bool {
    pos < limit && limit <= s.len() && s[pos as int] == tag
}

/// The version of a certificate whose fields begin at `pos`, and where the
/// next field begins: 1 where no version is written, else one more than the
/// wrapped number, which is 0, 1 or 2.
pub open spec fn spec_version(s: Seq<u8>, pos: usize, limit: usize, strict: bool) -> Result<
    (u8, usize),
    MalformedEncoding,
> {
    if !spec_tag_at(s, pos, limit, TAG_VERSION) {
        Ok((1u8, pos))
    } else {
        match spec_expect(s, pos, limit, TAG_VERSION, strict) {
            Err(e) => Err(e),
            Ok(h) => match spec_expect(s, h.start, h.end, TAG_INTEGER, strict) {
                Err(e) => Err(e),
                Ok(hi) => if hi.end != h.end {
                    Err(malformed(hi.end as int, Reason::TrailingData))
                } else {
                    match spec_integer(s, hi, strict) {
                        Err(e) => Err(e),
                        Ok(number) => if number.len() == 1 && number[0] <= 2 {
                            Ok(((number[0] + 1) as u8, h.end))
                        } else {
                            Err(malformed(hi.start as int, Reason::InvalidVersion))
                        },
                    }
                },
            },
        }
    }
}

/// The serial number that the element at `pos` holds, and where the next
/// element begins.
pub open spec fn spec_serial(s: Seq<u8>, pos: usize, limit: usize, strict: bool) -> Result<
    (Seq<u8>, usize),
    MalformedEncoding,
> {
    match spec_expect(s, pos, limit, TAG_INTEGER, strict) {
        Err(e) => Err(e),
        Ok(h) => match spec_integer(s, h, strict) {
            Err(e) => Err(e),
            Ok(number) => Ok((number, h.end)),
        },
    }
}

/// The object identifier of the algorithm that the element at `pos` names, and
/// where the next element begins. The algorithm's parameters are not read.
pub open spec fn spec_algorithm(s: Seq<u8>, pos: usize, limit: usize, strict: bool) -> Result<
    (Seq<u8>, usize),
    MalformedEncoding,
> {
    match spec_expect(s, pos, limit, TAG_SEQUENCE, strict) {
        Err(e) => Err(e),
        Ok(h) => match spec_expect(s, h.start, h.end, TAG_OID, strict) {
            Err(e) => Err(e),
            Ok(ho) => match spec_oid(s, ho) {
                Err(e) => Err(e),
                Ok(oid) => Ok((oid, h.end)),
            },
        },
    }
}

/// The two instants that the element at `pos` holds, in the order written, and
/// where the next element begins. Their order is not judged here.
pub open spec fn spec_validity(s: Seq<u8>, pos: usize, limit: usize, strict: bool) -> Result<
    (ValidityWindow, usize),
    MalformedEncoding,
> {
    match spec_expect(s, pos, limit, TAG_SEQUENCE, strict) {
        Err(e) => Err(e),
        Ok(h) => match spec_read_header(s, h.start, h.end, strict) {
            Err(e) => Err(e),
            Ok(first) => match spec_parse_time(s, first) {
                Err(e) => Err(e),
                Ok(not_before) => match spec_read_header(s, first.end, h.end, strict) {
                    Err(e) => Err(e),
                    Ok(second) => match spec_parse_time(s, second) {
                        Err(e) => Err(e),
                        Ok(not_after) => if second.end != h.end {
                            Err(malformed(second.end as int, Reason::TrailingData))
                        } else {
                            Ok((ValidityWindow { not_before, not_after }, h.end))
                        },
                    },
                },
            },
        },
    }
}

/// The public key that the element at `pos` holds, and where the next element
/// begins.
pub open spec fn spec_public_key(s: Seq<u8>, pos: usize, limit: usize, strict: bool) -> Result<
    (PublicKeyInfoView, usize),
    MalformedEncoding,
> {
    match spec_expect(s, pos, limit, TAG_SEQUENCE, strict) {
        Err(e) => Err(e),
        Ok(h) => match spec_algorithm(s, h.start, h.end, strict) {
            Err(e) => Err(e),
            Ok((algorithm, p)) => match spec_expect(s, p, h.end, TAG_BIT_STRING, strict) {
                Err(e) => Err(e),
                Ok(hb) => match spec_bit_string(s, hb) {
                    Err(e) => Err(e),
                    Ok((unused_bits, key)) => if hb.end != h.end {
                        Err(malformed(hb.end as int, Reason::TrailingData))
                    } else {
                        Ok((PublicKeyInfoView { algorithm, unused_bits, key }, h.end))
                    },
                },
            },
        }
    }
}

/// Where the next element begins after an element at `pos` that is passed over
/// if it carries the tag `tag`.
pub open spec fn spec_skip_optional(
    s: Seq<u8>,
    pos: usize,
    limit: usize,
    tag: u8,
    strict: bool,
) -> Result<usize, MalformedEncoding> {
    if !spec_tag_at(s, pos, limit, tag) {
        Ok(pos)
    } else {
        match spec_read_header(s, pos, limit, strict) {
            Err(e) => Err(e),
            Ok(h) => Ok(h.end),
        }
    }
}

/// The fields of the signed part of a certificate, which fills
/// `s[pos..limit]`, and the offset of its validity element.
pub open spec fn spec_signed_fields(s: Seq<u8>, pos: usize, limit: usize, strict: bool) -> Result<
    (CertificateView, usize),
    MalformedEncoding,
> {
    match spec_version(s, pos, limit, strict) {
        Err(e) => Err(e),
        Ok((version, after_version)) => match spec_serial(s, after_version, limit, strict) {
            Err(e) => Err(e),
            Ok((serial_number, after_serial)) => match spec_algorithm(
                s,
                after_serial,
                limit,
                strict,
            ) {
                Err(e) => Err(e),
                Ok((signature_algorithm, after_algorithm)) => match spec_name(
                    s,
                    after_algorithm,
                    limit,
                    strict,
                ) {
                    Err(e) => Err(e),
                    Ok((issuer, after_issuer)) => match spec_validity(
                        s,
                        after_issuer,
                        limit,
                        strict,
                    ) {
                        Err(e) => Err(e),
                        Ok((validity, after_validity)) => match spec_name(
                            s,
                            after_validity,
                            limit,
                            strict,
                        ) {
                            Err(e) => Err(e),
                            Ok((subject, after_subject)) => match spec_public_key(
                                s,
                                after_subject,
                                limit,
                                strict,
                            ) {
                                Err(e) => Err(e),
                                Ok((public_key, after_key)) => spec_signed_tail(
                                    s,
                                    after_key,
                                    limit,
                                    strict,
                                    CertificateView {
                                        version,
                                        serial_number,
                                        signature_algorithm,
                                        issuer,
                                        subject,
                                        validity,
                                        public_key,
                                        extensions: Seq::empty(),
                                        sans: Seq::empty(),
                                    },
                                    after_issuer,
                                ),
                            },
                        },
                    },
                },
            },
        },
    }
}

/// The fields `head` completed by what follows the public key at `pos`: two
/// optional unique identifiers, which are passed over, and the extensions.
pub open spec fn spec_signed_tail(
    s: Seq<u8>,
    pos: usize,
    limit: usize,
    strict: bool,
    head: CertificateView,
    validity_at: usize,
) -> Result<(CertificateView, usize), MalformedEncoding> {
    match spec_skip_optional(s, pos, limit, TAG_ISSUER_UNIQUE_ID, strict) {
        Err(e) => Err(e),
        Ok(after_issuer_id) => match spec_skip_optional(
            s,
            after_issuer_id,
            limit,
            TAG_SUBJECT_UNIQUE_ID,
            strict,
        ) {
            Err(e) => Err(e),
            Ok(after_subject_id) => match spec_optional_extensions(
                s,
                after_subject_id,
                limit,
                strict,
            ) {
                Err(e) => Err(e),
                Ok((extensions, sans)) => Ok(
                    (CertificateView { extensions, sans, ..head }, validity_at),
                ),
            },
        },
    }
}

/// The object identifier of the signature algorithm that the outer layer of a
/// certificate names at `pos`: the algorithm, then the signature as a bit
/// string that ends at `limit`.
pub open spec fn spec_signature(s: Seq<u8>, pos: usize, limit: usize, strict: bool) -> Result<
    Seq<u8>,
    MalformedEncoding,
> {
    match spec_algorithm(s, pos, limit, strict) {
        Err(e) => Err(e),
        Ok((signature_algorithm, p)) => match spec_expect(s, p, limit, TAG_BIT_STRING, strict) {
            Err(e) => Err(e),
            Ok(hb) => match spec_bit_string(s, hb) {
                Err(e) => Err(e),
                Ok(_) => if hb.end != limit {
                    Err(malformed(hb.end as int, Reason::TrailingData))
                } else {
                    Ok(signature_algorithm)
                },
            },
        },
    }
}

/// The certificate that `s` encodes, with the signature algorithm that its
/// outer layer names, and the offset of its validity element: a sequence that
/// fills `s` and holds the signed part, the signature algorithm, and the
/// signature. The order of the validity window is not judged here.
pub open spec fn spec_certificate(s: Seq<u8>, strict: bool) -> Result<
    (CertificateView, usize),
    MalformedEncoding,
> {
    match spec_expect(s, 0, s.len() as usize, TAG_SEQUENCE, strict) {
        Err(e) => Err(e),
        Ok(outer) => if outer.end != s.len() {
            Err(malformed(outer.end as int, Reason::TrailingData))
        } else {
            match spec_expect(s, outer.start, outer.end, TAG_SEQUENCE, strict) {
                Err(e) => Err(e),
                Ok(signed) => match spec_signed_fields(s, signed.start, signed.end, strict) {
                    Err(e) => Err(e),
                    Ok((fields, validity_at)) => match spec_signature(
                        s,
                        signed.end,
                        outer.end,
                        strict,
                    ) {
                        Err(e) => Err(e),
                        Ok(signature_algorithm) => Ok(
                            (CertificateView { signature_algorithm, ..fields }, validity_at),
                        ),
                    },
                },
            }
        },
    }
}

/// The certificate that `s` encodes: as its layout gives it, unless its
/// validity window ends before it starts, which is an error at the offset of
/// the validity element.
pub open spec fn spec_decode(s: Seq<u8>, strict: bool) -> Result<
    CertificateView,
    MalformedEncoding,
> {
    match spec_certificate(s, strict) {
        Err(e) => Err(e),
        Ok((certificate, validity_at)) => if certificate.validity.is_ordered() {
            Ok(certificate)
        } else {
            Err(malformed(validity_at as int, Reason::ValidityOrder))
        },
    }
}

/// Reads the version of a certificate whose fields begin at `pos`.
pub fn parse_version(bytes: &[u8], pos: usize, limit: usize, strict: bool) -> (r: Result<
    (u8, usize),
    MalformedEncoding,
>)
    ensures
        r == spec_version(bytes@, pos, limit, strict),
        r is Ok ==> 1 <= r->Ok_0.0 <= 3,
{
    if !(pos < limit && limit <= bytes.len() && bytes[pos] == TAG_VERSION) {
        return Ok((1, pos));
    }
    let h = expect(bytes, pos, limit, TAG_VERSION, strict)?;
    let hi = expect(bytes, h.start, h.end, TAG_INTEGER, strict)?;
    if hi.end != h.end {
        return Err(MalformedEncoding { offset: hi.end, reason: Reason::TrailingData });
    }
    let number = parse_integer(bytes, hi, strict)?;
    if number.len() == 1 && number[0] <= 2 {
        Ok((number[0] + 1, h.end))
    } else {
        Err(MalformedEncoding { offset: hi.start, reason: Reason::InvalidVersion })
    }
}

/// Reads the serial number at `pos`.
pub fn parse_serial(bytes: &[u8], pos: usize, limit: usize, strict: bool) -> (r: Result<
    (Vec<u8>, usize),
    MalformedEncoding,
>)
    ensures
        match r {
            Ok((number, next)) => spec_serial(bytes@, pos, limit, strict) == Ok::<
                (Seq<u8>, usize),
                MalformedEncoding,
            >((number@, next)),
            Err(e) => spec_serial(bytes@, pos, limit, strict) == Err::<
                (Seq<u8>, usize),
                MalformedEncoding,
            >(e),
        },
{
    let h = expect(bytes, pos, limit, TAG_INTEGER, strict)?;
    let number = parse_integer(bytes, h, strict)?;
    Ok((number, h.end))
}

/// Reads the object identifier of the algorithm that the element at `pos`
/// names.
pub fn parse_algorithm(bytes: &[u8], pos: usize, limit: usize, strict: bool) -> (r: Result<
    (Vec<u8>, usize),
    MalformedEncoding,
>)
    ensures
        match r {
            Ok((oid, next)) => spec_algorithm(bytes@, pos, limit, strict) == Ok::<
                (Seq<u8>, usize),
                MalformedEncoding,
            >((oid@, next)),
            Err(e) => spec_algorithm(bytes@, pos, limit, strict) == Err::<
                (Seq<u8>, usize),
                MalformedEncoding,
            >(e),
        },
{
    let h = expect(bytes, pos, limit, TAG_SEQUENCE, strict)?;
    let ho = expect(bytes, h.start, h.end, TAG_OID, strict)?;
    let oid = parse_oid(bytes, ho)?;
    Ok((oid, h.end))
}

/// Reads the two instants of the validity element at `pos`, without judging
/// their order.
pub fn parse_validity(bytes: &[u8], pos: usize, limit: usize, strict: bool) -> (r: Result<
    (ValidityWindow, usize),
    MalformedEncoding,
>)
    ensures
        r == spec_validity(bytes@, pos, limit, strict),
        r is Ok ==> r->Ok_0.0.not_before.is_real() && r->Ok_0.0.not_after.is_real(),
{
    let h = expect(bytes, pos, limit, TAG_SEQUENCE, strict)?;
    let first = read_header(bytes, h.start, h.end, strict)?;
    let not_before = parse_time(bytes, first)?;
    let second = read_header(bytes, first.end, h.end, strict)?;
    let not_after = parse_time(bytes, second)?;
    if second.end != h.end {
        return Err(MalformedEncoding { offset: second.end, reason: Reason::TrailingData });
    }
    Ok((ValidityWindow { not_before, not_after }, h.end))
}

/// Reads the public key at `pos`.
pub fn parse_public_key(bytes: &[u8], pos: usize, limit: usize, strict: bool) -> (r: Result<
    (PublicKeyInfo, usize),
    MalformedEncoding,
>)
    ensures
        match r {
            Ok((key, next)) => spec_public_key(bytes@, pos, limit, strict) == Ok::<
                (PublicKeyInfoView, usize),
                MalformedEncoding,
            >((key@, next)),
            Err(e) => spec_public_key(bytes@, pos, limit, strict) == Err::<
                (PublicKeyInfoView, usize),
                MalformedEncoding,
            >(e),
        },
{
    let h = expect(bytes, pos, limit, TAG_SEQUENCE, strict)?;
    let (algorithm, p) = parse_algorithm(bytes, h.start, h.end, strict)?;
    let hb = expect(bytes, p, h.end, TAG_BIT_STRING, strict)?;
    let (unused_bits, key) = parse_bit_string(bytes, hb)?;
    if hb.end != h.end {
        return Err(MalformedEncoding { offset: hb.end, reason: Reason::TrailingData });
    }
    Ok((PublicKeyInfo { algorithm, unused_bits, key }, h.end))
}

/// Passes over the element at `pos` if it carries the tag `tag`.
pub fn skip_optional(bytes: &[u8], pos: usize, limit: usize, tag: u8, strict: bool) -> (r: Result<
    usize,
    MalformedEncoding,
>)
    ensures
        r == spec_skip_optional(bytes@, pos, limit, tag, strict),
{
    if !(pos < limit && limit <= bytes.len() && bytes[pos] == tag) {
        return Ok(pos);
    }
    let h = read_header(bytes, pos, limit, strict)?;
    Ok(h.end)
}

/// Reads the fields of the signed part of a certificate, which fills
/// `bytes[pos..limit]`.
pub fn parse_signed_fields(bytes: &[u8], pos: usize, limit: usize, strict: bool) -> (r: Result<
    (ParsedCertificate, usize),
    MalformedEncoding,
>)
    ensures
        match r {
            Ok((fields, validity_at)) => spec_signed_fields(bytes@, pos, limit, strict) == Ok::<
                (CertificateView, usize),
                MalformedEncoding,
            >((fields@, validity_at)),
            Err(e) => spec_signed_fields(bytes@, pos, limit, strict) == Err::<
                (CertificateView, usize),
                MalformedEncoding,
            >(e),
        },
{
    let (version, after_version) = parse_version(bytes, pos, limit, strict)?;
    let (serial_number, after_serial) = parse_serial(bytes, after_version, limit, strict)?;
    let (signature_algorithm, after_algorithm) = parse_algorithm(
        bytes,
        after_serial,
        limit,
        strict,
    )?;
    let (issuer, after_issuer) = parse_name(bytes, after_algorithm, limit, strict)?;
    let (validity, after_validity) = parse_validity(bytes, after_issuer, limit, strict)?;
    let (subject, after_subject) = parse_name(bytes, after_validity, limit, strict)?;
    let (public_key, after_key) = parse_public_key(bytes, after_subject, limit, strict)?;
    let after_issuer_id = skip_optional(bytes, after_key, limit, TAG_ISSUER_UNIQUE_ID, strict)?;
    let after_subject_id = skip_optional(
        bytes,
        after_issuer_id,
        limit,
        TAG_SUBJECT_UNIQUE_ID,
        strict,
    )?;
    let (extensions, sans) = parse_optional_extensions(bytes, after_subject_id, limit, strict)?;
    Ok(
        (
            ParsedCertificate {
                version,
                serial_number,
                signature_algorithm,
                issuer,
                subject,
                validity,
                public_key,
                extensions,
                sans,
            },
            after_issuer,
        ),
    )
}

/// Reads the signature algorithm that the outer layer of a certificate names
/// at `pos`, and checks that the signature follows it and ends at `limit`.
pub fn parse_signature(bytes: &[u8], pos: usize, limit: usize, strict: bool) -> (r: Result<
    Vec<u8>,
    MalformedEncoding,
>)
    ensures
        match r {
            Ok(oid) => spec_signature(bytes@, pos, limit, strict) == Ok::<
                Seq<u8>,
                MalformedEncoding,
            >(oid@),
            Err(e) => spec_signature(bytes@, pos, limit, strict) == Err::<
                Seq<u8>,
                MalformedEncoding,
            >(e),
        },
{
    let (signature_algorithm, p) = parse_algorithm(bytes, pos, limit, strict)?;
    let hb = expect(bytes, p, limit, TAG_BIT_STRING, strict)?;
    let _ = parse_bit_string(bytes, hb)?;
    if hb.end != limit {
        return Err(MalformedEncoding { offset: hb.end, reason: Reason::TrailingData });
    }
    Ok(signature_algorithm)
}

/// Reads the certificate that `bytes` encodes, without judging the order of
/// its validity window.
pub fn parse_certificate(bytes: &[u8], strict: bool) -> (r: Result<
    (ParsedCertificate, usize),
    MalformedEncoding,
>)
    ensures
        match r {
            Ok((certificate, validity_at)) => spec_certificate(bytes@, strict) == Ok::<
                (CertificateView, usize),
                MalformedEncoding,
            >((certificate@, validity_at)),
            Err(e) => spec_certificate(bytes@, strict) == Err::<
                (CertificateView, usize),
                MalformedEncoding,
            >(e),
        },
{
    let outer = expect(bytes, 0, bytes.len(), TAG_SEQUENCE, strict)?;
    if outer.end != bytes.len() {
        return Err(MalformedEncoding { offset: outer.end, reason: Reason::TrailingData });
    }
    let signed = expect(bytes, outer.start, outer.end, TAG_SEQUENCE, strict)?;
    let (fields, validity_at) = parse_signed_fields(bytes, signed.start, signed.end, strict)?;
    let signature_algorithm = parse_signature(bytes, signed.end, outer.end, strict)?;
    let mut certificate = fields;
    certificate.signature_algorithm = signature_algorithm;
    Ok((certificate, validity_at))
}

/// Decodes the certificate that `bytes` encodes. In strict mode a length or an
/// integer that is written longer than it needs to be is an error.
pub fn decode_bytes(bytes: &[u8], strict: bool) -> (r: Result<ParsedCertificate, MalformedEncoding>)
    ensures
        match r {
            Ok(certificate) => spec_decode(bytes@, strict) == Ok::<
                CertificateView,
                MalformedEncoding,
            >(certificate@) && certificate@.well_formed(),
            Err(e) => spec_decode(bytes@, strict) == Err::<CertificateView, MalformedEncoding>(e),
        },
{
    let (certificate, validity_at) = parse_certificate(bytes, strict)?;
    if certificate.validity.not_before.not_after(&certificate.validity.not_after) {
        proof {
            lemma_decoded_is_well_formed(bytes@, strict);
        }
        Ok(certificate)
    } else {
        Err(MalformedEncoding { offset: validity_at, reason: Reason::ValidityOrder })
    }
}

/// Decodes the certificate that `raw` holds, wherever its bytes came from.
pub fn decode(raw: &RawCertificateBytes, strict: bool) -> (r: Result<
    ParsedCertificate,
    MalformedEncoding,
>)
    ensures
        match r {
            Ok(certificate) => spec_decode(raw.bytes@, strict) == Ok::<
                CertificateView,
                MalformedEncoding,
            >(certificate@) && certificate@.well_formed(),
            Err(e) => spec_decode(raw.bytes@, strict) == Err::<CertificateView, MalformedEncoding>(
                e,
            ),
        },
{
    decode_bytes(raw.bytes.as_slice(), strict)
}

/// The extensions of a certificate hold no object identifier twice, and its
/// alternative names come only from the extension that lists them.
pub proof fn lemma_optional_extensions_well_formed(
    s: Seq<u8>,
    pos: usize,
    limit: usize,
    strict: bool,
)
    ensures
        match spec_optional_extensions(s, pos, limit, strict) {
            Ok((extensions, sans)) => spec_distinct_extensions(extensions) && (!spec_has_extension(
                extensions,
                spec_san_oid(),
            ) ==> sans.len() == 0),
            Err(_) => true,
        },
{
    if pos < limit {
        match spec_expect(s, pos, limit, TAG_EXTENSIONS, strict) {
            Err(_) => {},
            Ok(h) => {
                match spec_expect(s, h.start, h.end, TAG_SEQUENCE, strict) {
                    Err(_) => {},
                    Ok(hs) => {
                        lemma_extensions_well_formed(
                            s,
                            hs.start,
                            hs.end,
                            strict,
                            Seq::empty(),
                            Seq::empty(),
                        );
                    },
                }
            },
        }
    }
}

/// Every certificate that decoding yields is well formed.
pub proof fn lemma_decoded_is_well_formed(s: Seq<u8>, strict: bool)
    ensures
        match spec_decode(s, strict) {
            Ok(certificate) => certificate.well_formed(),
            Err(_) => true,
        },
{
    assert forall|c: Seq<u8>|
        c.len() > 0 implies (#[trigger] spec_minimal_integer(c)).len() > 0
            && !spec_has_redundant_lead(spec_minimal_integer(c)) by {
        lemma_minimal_integer_keeps_value(c);
    }
    assert forall|pos: usize, limit: usize|
        match #[trigger] spec_optional_extensions(s, pos, limit, strict) {
            Ok((extensions, sans)) => spec_distinct_extensions(extensions) && (!spec_has_extension(
                extensions,
                spec_san_oid(),
            ) ==> sans.len() == 0),
            Err(_) => true,
        } by {
        lemma_optional_extensions_well_formed(s, pos, limit, strict);
    }
}

/// A certificate that decodes without the extension that lists alternative
/// names has no alternative name.
pub proof fn lemma_no_san_extension_no_names(s: Seq<u8>, strict: bool)
    ensures
        match spec_decode(s, strict) {
            Ok(certificate) => !spec_has_extension(certificate.extensions, spec_san_oid())
                ==> certificate.sans == Seq::<SubjectAltNameView>::empty(),
            Err(_) => true,
        },
{
    lemma_decoded_is_well_formed(s, strict);
    if spec_decode(s, strict) is Ok {
        let certificate = spec_decode(s, strict)->Ok_0;
        if !spec_has_extension(certificate.extensions, spec_san_oid()) {
            assert(certificate.sans =~= Seq::<SubjectAltNameView>::empty());
        }
    }
}

/// A validity window that starts and ends at the same instant is accepted;
/// one that ends before it starts is rejected at the offset of the validity
/// element; nothing else about the window decides whether decoding succeeds.
pub proof fn lemma_validity_boundary(s: Seq<u8>, strict: bool)
    ensures
        match spec_certificate(s, strict) {
            Ok((certificate, validity_at)) => {
                &&& certificate.validity.not_before == certificate.validity.not_after
                    ==> spec_decode(s, strict) == Ok::<CertificateView, MalformedEncoding>(
                    certificate,
                )
                &&& certificate.validity.not_before.ordinal()
                    > certificate.validity.not_after.ordinal() ==> spec_decode(s, strict) == Err::<
                    CertificateView,
                    MalformedEncoding,
                >(malformed(validity_at as int, Reason::ValidityOrder))
                &&& certificate.validity.not_before.ordinal()
                    <= certificate.validity.not_after.ordinal() ==> spec_decode(s, strict) == Ok::<
                    CertificateView,
                    MalformedEncoding,
                >(certificate)
            },
            Err(e) => spec_decode(s, strict) == Err::<CertificateView, MalformedEncoding>(e),
        },
{
}

} // verus!
