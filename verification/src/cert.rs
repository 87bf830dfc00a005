use vstd::prelude::*;
use crate::bytes::{bytes_eq, duplicate};
use crate::der::spec_has_redundant_lead;
use crate::time::Timestamp;

verus! {

/// Where certificate bytes were obtained.
#[derive(Clone, Copy, Debug, PartialEq, Eq, Structural)]
pub enum Origin {
    FromFile,
    FromNetwork,
    FromStdin,
}

/// The encoded bytes of one certificate, with their origin.
#[derive(Clone, Debug)]
pub struct RawCertificateBytes {
    pub origin: Origin,
    pub bytes: Vec<u8>,
}

/// One attribute of a distinguished name: the content of its type's object
/// identifier and the content of its value.
#[derive(Clone, Debug)]
pub struct Attribute {
    pub oid: Vec<u8>,
    pub value: Vec<u8>,
}

/// What an attribute holds.
pub ghost struct AttributeView {
    pub oid: Seq<u8>,
    pub value: Seq<u8>,
}

impl View for Attribute {
    type V = AttributeView;

    open spec fn view(&self) -> AttributeView {
        AttributeView { oid: self.oid@, value: self.value@ }
    }
}

impl Attribute {
    /// Tells whether `self` and `other` have the same type and the same value.
    pub fn same_as(&self, other: &Attribute) -> (r: bool)
        ensures
            r == (self@ == other@),
    {
        bytes_eq(self.oid.as_slice(), other.oid.as_slice()) && bytes_eq(
            self.value.as_slice(),
            other.value.as_slice(),
        )
    }

    /// Makes a copy of the attribute.
    pub fn duplicate(&self) -> (r: Attribute)
        ensures
            r@ == self@,
    {
        Attribute { oid: duplicate(self.oid.as_slice()), value: duplicate(self.value.as_slice()) }
    }
}

/// The views of a list of attributes, in the same order.
pub open spec fn attribute_views(attributes: Seq<Attribute>) -> Seq<AttributeView> {
    attributes.map_values(|a: Attribute| a@)
}

/// A distinguished name: its attributes in the order of the encoding.
#[derive(Clone, Debug)]
pub struct DistinguishedName {
    pub attributes: Vec<Attribute>,
}

impl View for DistinguishedName {
    type V = Seq<AttributeView>;

    open spec fn view(&self) -> Seq<AttributeView> {
        attribute_views(self.attributes@)
    }
}

impl DistinguishedName {
    /// Makes a copy of the name.
    pub fn duplicate(&self) -> (r: DistinguishedName)
        ensures
            r@ == self@,
    {
        let mut attributes: Vec<Attribute> = Vec::new();
        let mut i: usize = 0;
        while i < self.attributes.len()
            invariant
                i <= self.attributes@.len(),
                attribute_views(attributes@) == attribute_views(self.attributes@).subrange(
                    0,
                    i as int,
                ),
            decreases self.attributes@.len() - i,
        {
            let a = self.attributes[i].duplicate();
            proof {
                assert(attribute_views(attributes@.push(a)) =~= attribute_views(attributes@).push(
                    a@,
                ));
                assert(attribute_views(self.attributes@).subrange(0, i + 1) =~= attribute_views(
                    self.attributes@,
                ).subrange(0, i as int).push(a@));
            }
            attributes.push(a);
            i += 1;
        }
        assert(attribute_views(attributes@) =~= attribute_views(self.attributes@));
        DistinguishedName { attributes }
    }
}

/// The time span in which a certificate is valid.
#[derive(Clone, Copy, Debug, PartialEq, Eq, Structural)]
pub struct ValidityWindow {
    pub not_before: Timestamp,
    pub not_after: Timestamp,
}

impl ValidityWindow {
    /// The window does not end before it starts.
    pub open spec fn is_ordered(&self) -> bool {
        self.not_before.spec_not_after(&self.not_after)
    }
}

/// One alternative name of the subject.
#[derive(Clone, Debug)]
pub enum SubjectAltName {
    DnsName(Vec<u8>),
    IpAddress(Vec<u8>),
    Email(Vec<u8>),
    Uri(Vec<u8>),
    /// A name of another form: for an `otherName` the content of its type's
    /// object identifier and the bytes that follow it; for any other form no
    /// identifier and the whole element.
    Other(Vec<u8>, Vec<u8>),
}

/// What an alternative name holds.
pub ghost enum SubjectAltNameView {
    DnsName(Seq<u8>),
    IpAddress(Seq<u8>),
    Email(Seq<u8>),
    Uri(Seq<u8>),
    Other(Seq<u8>, Seq<u8>),
}

impl View for SubjectAltName {
    type V = SubjectAltNameView;

    open spec fn view(&self) -> SubjectAltNameView {
        match self {
            SubjectAltName::DnsName(n) => SubjectAltNameView::DnsName(n@),
            SubjectAltName::IpAddress(n) => SubjectAltNameView::IpAddress(n@),
            SubjectAltName::Email(n) => SubjectAltNameView::Email(n@),
            SubjectAltName::Uri(n) => SubjectAltNameView::Uri(n@),
            SubjectAltName::Other(oid, n) => SubjectAltNameView::Other(oid@, n@),
        }
    }
}

impl SubjectAltName {
    /// Tells whether `self` and `other` are the same name of the same form.
    pub fn same_as(&self, other: &SubjectAltName) -> (r: bool)
        ensures
            r == (self@ == other@),
    {
        match (self, other) {
            (SubjectAltName::DnsName(a), SubjectAltName::DnsName(b)) => bytes_eq(
                a.as_slice(),
                b.as_slice(),
            ),
            (SubjectAltName::IpAddress(a), SubjectAltName::IpAddress(b)) => bytes_eq(
                a.as_slice(),
                b.as_slice(),
            ),
            (SubjectAltName::Email(a), SubjectAltName::Email(b)) => bytes_eq(
                a.as_slice(),
                b.as_slice(),
            ),
            (SubjectAltName::Uri(a), SubjectAltName::Uri(b)) => bytes_eq(
                a.as_slice(),
                b.as_slice(),
            ),
            (SubjectAltName::Other(ao, a), SubjectAltName::Other(bo, b)) => bytes_eq(
                ao.as_slice(),
                bo.as_slice(),
            ) && bytes_eq(a.as_slice(), b.as_slice()),
            _ => false,
        }
    }

    /// Makes a copy of the name.
    pub fn duplicate(&self) -> (r: SubjectAltName)
        ensures
            r@ == self@,
    {
        match self {
            SubjectAltName::DnsName(a) => SubjectAltName::DnsName(duplicate(a.as_slice())),
            SubjectAltName::IpAddress(a) => SubjectAltName::IpAddress(duplicate(a.as_slice())),
            SubjectAltName::Email(a) => SubjectAltName::Email(duplicate(a.as_slice())),
            SubjectAltName::Uri(a) => SubjectAltName::Uri(duplicate(a.as_slice())),
            SubjectAltName::Other(oid, a) => SubjectAltName::Other(
                duplicate(oid.as_slice()),
                duplicate(a.as_slice()),
            ),
        }
    }
}

/// Makes a copy of a list of alternative names.
pub fn duplicate_sans(names: &Vec<SubjectAltName>) -> (r: Vec<SubjectAltName>)
    ensures
        san_views(r@) == san_views(names@),
{
    let mut out: Vec<SubjectAltName> = Vec::new();
    let mut i: usize = 0;
    while i < names.len()
        invariant
            i <= names@.len(),
            san_views(out@) == san_views(names@).subrange(0, i as int),
        decreases names@.len() - i,
    {
        let n = names[i].duplicate();
        proof {
            assert(san_views(out@.push(n)) =~= san_views(out@).push(n@));
            assert(san_views(names@).subrange(0, i + 1) =~= san_views(names@).subrange(
                0,
                i as int,
            ).push(n@));
        }
        out.push(n);
        i += 1;
    }
    assert(san_views(out@) =~= san_views(names@));
    out
}

/// The views of a list of alternative names, in the same order.
pub open spec fn san_views(names: Seq<SubjectAltName>) -> Seq<SubjectAltNameView> {
    names.map_values(|n: SubjectAltName| n@)
}

/// The subject's public key: the content of its algorithm's object
/// identifier, and the key as a bit string.
#[derive(Clone, Debug)]
pub struct PublicKeyInfo {
    pub algorithm: Vec<u8>,
    pub unused_bits: u8,
    pub key: Vec<u8>,
}

/// What a public key holds.
pub ghost struct PublicKeyInfoView {
    pub algorithm: Seq<u8>,
    pub unused_bits: u8,
    pub key: Seq<u8>,
}

impl PublicKeyInfoView {
    /// The size of the key material in bits.
    pub open spec fn key_bits(&self) -> int {
        self.key.len() * 8 - self.unused_bits
    }
}

impl View for PublicKeyInfo {
    type V = PublicKeyInfoView;

    open spec fn view(&self) -> PublicKeyInfoView {
        PublicKeyInfoView {
            algorithm: self.algorithm@,
            unused_bits: self.unused_bits,
            key: self.key@,
        }
    }
}

impl PublicKeyInfo {
    /// Tells whether `self` and `other` name the same algorithm and hold the
    /// same key.
    pub fn same_as(&self, other: &PublicKeyInfo) -> (r: bool)
        ensures
            r == (self@ == other@),
    {
        bytes_eq(self.algorithm.as_slice(), other.algorithm.as_slice()) && self.unused_bits
            == other.unused_bits && bytes_eq(self.key.as_slice(), other.key.as_slice())
    }

    /// Makes a copy of the key.
    pub fn duplicate(&self) -> (r: PublicKeyInfo)
        ensures
            r@ == self@,
    {
        PublicKeyInfo {
            algorithm: duplicate(self.algorithm.as_slice()),
            unused_bits: self.unused_bits,
            key: duplicate(self.key.as_slice()),
        }
    }

    /// The size of the key material in bits.
    pub fn key_bits(&self) -> (r: Option<usize>)
        ensures
            match r {
                Some(bits) => bits == self@.key_bits(),
                None => self@.key_bits() < 0 || self@.key_bits() > usize::MAX,
            },
    {
        let total: u128 = self.key.len() as u128 * 8;
        let unused: u128 = self.unused_bits as u128;
        if total < unused || total - unused > usize::MAX as u128 {
            None
        } else {
            Some((total - unused) as usize)
        }
    }
}

/// One extension: the content of its object identifier, its critical flag, its
/// value as encoded, and whether the decoder read that value.
#[derive(Clone, Debug)]
pub struct Extension {
    pub oid: Vec<u8>,
    pub critical: bool,
    pub value: Vec<u8>,
    pub parsed: bool,
}

/// What an extension holds.
pub ghost struct ExtensionView {
    pub oid: Seq<u8>,
    pub critical: bool,
    pub value: Seq<u8>,
    pub parsed: bool,
}

impl ExtensionView {
    /// The extension is critical and its value was kept unread.
    pub open spec fn is_unparsed_critical(&self) -> bool {
        self.critical && !self.parsed
    }
}

impl View for Extension {
    type V = ExtensionView;

    open spec fn view(&self) -> ExtensionView {
        ExtensionView {
            oid: self.oid@,
            critical: self.critical,
            value: self.value@,
            parsed: self.parsed,
        }
    }
}

impl Extension {
    /// Tells whether the extension is critical and its value was kept unread.
    pub fn is_unparsed_critical(&self) -> (r: bool)
        ensures
            r == self@.is_unparsed_critical(),
    {
        self.critical && !self.parsed
    }
}

/// The views of a list of extensions, in the same order.
pub open spec fn extension_views(extensions: Seq<Extension>) -> Seq<ExtensionView> {
    extensions.map_values(|e: Extension| e@)
}

/// The content of the object identifier 2.5.29.17, the extension that lists
/// the subject's alternative names.
pub open spec fn spec_san_oid() -> Seq<u8> {
    seq![0x55u8, 0x1du8, 0x11u8]
}

/// Some extension in `extensions` has the object identifier `oid`.
pub open spec fn spec_has_extension(extensions: Seq<ExtensionView>, oid: Seq<u8>) -> bool {
    exists|i: int| 0 <= i < extensions.len() && (#[trigger] extensions[i]).oid == oid
}

/// No object identifier occurs twice among `extensions`.
pub open spec fn spec_distinct_extensions(extensions: Seq<ExtensionView>) -> bool {
    forall|i: int, j: int|
        0 <= i < j < extensions.len() ==> (#[trigger] extensions[i]).oid != (
        #[trigger] extensions[j]).oid
}

/// A decoded certificate.
#[derive(Clone, Debug)]
pub struct ParsedCertificate {
    /// 1, 2 or 3.
    pub version: u8,
    /// The serial number in its shortest two's complement writing.
    pub serial_number: Vec<u8>,
    /// The content of the signature algorithm's object identifier.
    pub signature_algorithm: Vec<u8>,
    pub issuer: DistinguishedName,
    pub subject: DistinguishedName,
    pub validity: ValidityWindow,
    pub public_key: PublicKeyInfo,
    pub extensions: Vec<Extension>,
    pub sans: Vec<SubjectAltName>,
}

/// What a decoded certificate holds.
pub ghost struct CertificateView {
    pub version: u8,
    pub serial_number: Seq<u8>,
    pub signature_algorithm: Seq<u8>,
    pub issuer: Seq<AttributeView>,
    pub subject: Seq<AttributeView>,
    pub validity: ValidityWindow,
    pub public_key: PublicKeyInfoView,
    pub extensions: Seq<ExtensionView>,
    pub sans: Seq<SubjectAltNameView>,
}

impl CertificateView {
    /// What holds of every decoded certificate: a known version, a serial
    /// number in its shortest writing, a validity window of two real instants
    /// in order, no extension twice, and alternative names only where the
    /// extension that lists them is present.
    pub open spec fn well_formed(&self) -> bool {
        &&& 1 <= self.version <= 3
        &&& self.serial_number.len() > 0
        &&& !spec_has_redundant_lead(self.serial_number)
        &&& self.validity.not_before.is_real()
        &&& self.validity.not_after.is_real()
        &&& self.validity.is_ordered()
        &&& spec_distinct_extensions(self.extensions)
        &&& !spec_has_extension(self.extensions, spec_san_oid()) ==> self.sans.len() == 0
    }
}

impl View for ParsedCertificate {
    type V = CertificateView;

    open spec fn view(&self) -> CertificateView {
        CertificateView {
            version: self.version,
            serial_number: self.serial_number@,
            signature_algorithm: self.signature_algorithm@,
            issuer: self.issuer@,
            subject: self.subject@,
            validity: self.validity,
            public_key: self.public_key@,
            extensions: extension_views(self.extensions@),
            sans: san_views(self.sans@),
        }
    }
}

impl ParsedCertificate {
    /// The alternative names of the subject, in the order of the encoding;
    /// none where the certificate has no extension that lists them.
    pub fn subject_alt_names(&self) -> (names: Vec<SubjectAltName>)
        ensures
            san_views(names@) == self@.sans,
    {
        duplicate_sans(&self.sans)
    }

    /// The validity window as decoded.
    pub fn validity_window(&self) -> (w: ValidityWindow)
        ensures
            w == self@.validity,
    {
        self.validity
    }

    /// Tells whether some extension is critical and was kept unread.
    pub fn has_unparsed_critical_extension(&self) -> (r: bool)
        ensures
            r == (exists|i: int|
                0 <= i < self@.extensions.len() && (
                #[trigger] self@.extensions[i]).is_unparsed_critical()),
    {
        let mut i: usize = 0;
        while i < self.extensions.len()
            invariant
                i <= self.extensions@.len(),
                forall|k: int|
                    0 <= k < i ==> !(#[trigger] self@.extensions[k]).is_unparsed_critical(),
            decreases self.extensions@.len() - i,
        {
            if self.extensions[i].is_unparsed_critical() {
                assert(self@.extensions[i as int].is_unparsed_critical());
                return true;
            }
            i += 1;
        }
        false
    }
}

} // verus!
