use vstd::prelude::*;
use crate::bytes::{bytes_eq, duplicate};
use crate::cert::{
    attribute_views, duplicate_sans, san_views, Attribute, AttributeView, CertificateView,
    DistinguishedName, ParsedCertificate, PublicKeyInfo, PublicKeyInfoView, SubjectAltName,
    SubjectAltNameView, ValidityWindow,
};
use crate::der::{lemma_shortest_writing_is_unique, spec_integer_value, MalformedEncoding};

verus! {

/// The fields that a comparison looks at, in the order in which it reports
/// them.
#[derive(Clone, Copy, Debug, PartialEq, Eq, Structural)]
pub enum Field {
    SerialNumber,
    Issuer,
    Subject,
    Validity,
    PublicKey,
    SubjectAltNames,
}

/// The value of one compared field.
#[derive(Clone, Debug)]
pub enum FieldValue {
    SerialNumber(Vec<u8>),
    Name(DistinguishedName),
    Validity(ValidityWindow),
    PublicKey(PublicKeyInfo),
    SubjectAltNames(Vec<SubjectAltName>),
}

/// What the value of a compared field holds.
pub ghost enum FieldValueView {
    SerialNumber(Seq<u8>),
    Name(Seq<AttributeView>),
    Validity(ValidityWindow),
    PublicKey(PublicKeyInfoView),
    SubjectAltNames(Seq<SubjectAltNameView>),
}

impl View for FieldValue {
    type V = FieldValueView;

    open spec fn view(&self) -> FieldValueView {
        match self {
            FieldValue::SerialNumber(n) => FieldValueView::SerialNumber(n@),
            FieldValue::Name(n) => FieldValueView::Name(n@),
            FieldValue::Validity(w) => FieldValueView::Validity(*w),
            FieldValue::PublicKey(k) => FieldValueView::PublicKey(k@),
            FieldValue::SubjectAltNames(names) => FieldValueView::SubjectAltNames(
                san_views(names@),
            ),
        }
    }
}

/// One field in which two certificates differ, with its value in the first
/// and in the second.
#[derive(Clone, Debug)]
pub struct FieldDifference {
    pub field: Field,
    pub old: FieldValue,
    pub new: FieldValue,
}

/// What a difference holds.
pub ghost struct FieldDifferenceView {
    pub field: Field,
    pub old: FieldValueView,
    pub new: FieldValueView,
}

impl View for FieldDifference {
    type V = FieldDifferenceView;

    open spec fn view(&self) -> FieldDifferenceView {
        FieldDifferenceView { field: self.field, old: self.old@, new: self.new@ }
    }
}

/// The views of a list of differences, in the same order.
pub open spec fn difference_views(differences: Seq<FieldDifference>) -> Seq<FieldDifferenceView> {
    differences.map_values(|d: FieldDifference| d@)
}

/// Which of two inputs could not be decoded, and why.
#[derive(Clone, Copy, Debug, PartialEq, Eq, Structural)]
pub enum Incomparable {
    First(MalformedEncoding),
    Second(MalformedEncoding),
    Both(MalformedEncoding, MalformedEncoding),
}

/// The verdict of a comparison.
#[derive(Clone, Debug)]
pub enum ComparisonResult {
    Identical,
    DifferByFields(Vec<FieldDifference>),
    IncomparableError(Incomparable),
}

/// What a verdict holds.
pub ghost enum ComparisonResultView {
    Identical,
    DifferByFields(Seq<FieldDifferenceView>),
    IncomparableError(Incomparable),
}

impl View for ComparisonResult {
    type V = ComparisonResultView;

    open spec fn view(&self) -> ComparisonResultView {
        match self {
            ComparisonResult::Identical => ComparisonResultView::Identical,
            ComparisonResult::DifferByFields(d) => ComparisonResultView::DifferByFields(
                difference_views(d@),
            ),
            ComparisonResult::IncomparableError(why) => ComparisonResultView::IncomparableError(
                *why,
            ),
        }
    }
}

/// Two lists have the same members, whatever their order and however often a
/// member occurs.
pub open spec fn spec_same_members<A>(a: Seq<A>, b: Seq<A>) -> bool {
    a.to_set() == b.to_set()
}

/// Every member of `a` is a member of `b`.
pub open spec fn spec_all_within<A>(a: Seq<A>, b: Seq<A>) -> bool {
    forall|i: int| 0 <= i < a.len() ==> b.contains(#[trigger] a[i])
}

/// Two lists have the same members exactly when each holds every member of
/// the other.
pub proof fn lemma_same_members<A>(a: Seq<A>, b: Seq<A>)
    ensures
        spec_same_members(a, b) <==> spec_all_within(a, b) && spec_all_within(b, a),
{
    if spec_all_within(a, b) && spec_all_within(b, a) {
        assert forall|x: A| a.to_set().contains(x) == b.to_set().contains(x) by {
            if a.contains(x) {
                let i = choose|i: int| 0 <= i < a.len() && a[i] == x;
                assert(b.contains(a[i]));
            }
            if b.contains(x) {
                let j = choose|j: int| 0 <= j < b.len() && b[j] == x;
                assert(a.contains(b[j]));
            }
        }
        assert(a.to_set() =~= b.to_set());
    }
    if spec_same_members(a, b) {
        assert forall|i: int| 0 <= i < a.len() implies b.contains(#[trigger] a[i]) by {
            assert(a.contains(a[i]));
            assert(a.to_set().contains(a[i]));
        }
        assert forall|j: int| 0 <= j < b.len() implies a.contains(#[trigger] b[j]) by {
            assert(b.contains(b[j]));
            assert(b.to_set().contains(b[j]));
        }
    }
}

/// The certificates `a` and `b` differ in the field `field`: names and
/// alternative names are compared as sets, the other fields as they are.
pub open spec fn spec_differs(a: CertificateView, b: CertificateView, field: Field) -> bool {
    match field {
        Field::SerialNumber => a.serial_number != b.serial_number,
        Field::Issuer => !spec_same_members(a.issuer, b.issuer),
        Field::Subject => !spec_same_members(a.subject, b.subject),
        Field::Validity => a.validity != b.validity,
        Field::PublicKey => a.public_key != b.public_key,
        Field::SubjectAltNames => !spec_same_members(a.sans, b.sans),
    }
}

/// The value that the certificate `c` has in the field `field`.
pub open spec fn spec_field_value(c: CertificateView, field: Field) -> FieldValueView {
    match field {
        Field::SerialNumber => FieldValueView::SerialNumber(c.serial_number),
        Field::Issuer => FieldValueView::Name(c.issuer),
        Field::Subject => FieldValueView::Name(c.subject),
        Field::Validity => FieldValueView::Validity(c.validity),
        Field::PublicKey => FieldValueView::PublicKey(c.public_key),
        Field::SubjectAltNames => FieldValueView::SubjectAltNames(c.sans),
    }
}

/// The report on the field `field`: nothing where `a` and `b` agree in it,
/// else one difference with the value in `a` as the old and the value in `b`
/// as the new one.
pub open spec fn spec_field_report(a: CertificateView, b: CertificateView, field: Field) -> Seq<
    FieldDifferenceView,
> {
    if spec_differs(a, b, field) {
        seq![
            FieldDifferenceView {
                field,
                old: spec_field_value(a, field),
                new: spec_field_value(b, field),
            },
        ]
    } else {
        Seq::empty()
    }
}

/// Every field in which `a` and `b` differ, in the order serial number,
/// issuer, subject, validity, public key, alternative names.
pub open spec fn spec_differences(a: CertificateView, b: CertificateView) -> Seq<
    FieldDifferenceView,
> {
    spec_field_report(a, b, Field::SerialNumber) + spec_field_report(a, b, Field::Issuer)
        + spec_field_report(a, b, Field::Subject) + spec_field_report(a, b, Field::Validity)
        + spec_field_report(a, b, Field::PublicKey) + spec_field_report(
        a,
        b,
        Field::SubjectAltNames,
    )
}

/// The verdict on two certificates: identical where they differ in no field,
/// else the list of all their differences.
pub open spec fn spec_compare(a: CertificateView, b: CertificateView) -> ComparisonResultView {
    if spec_differences(a, b).len() == 0 {
        ComparisonResultView::Identical
    } else {
        ComparisonResultView::DifferByFields(spec_differences(a, b))
    }
}

/// The difference `d` seen from the other side: the same field, old and new
/// value exchanged.
pub open spec fn spec_swapped(d: FieldDifferenceView) -> FieldDifferenceView {
    FieldDifferenceView { field: d.field, old: d.new, new: d.old }
}

/// The differences `ds` seen from the other side, in the same order.
pub open spec fn spec_swapped_all(ds: Seq<FieldDifferenceView>) -> Seq<FieldDifferenceView> {
    ds.map_values(|x: FieldDifferenceView| spec_swapped(x))
}

/// The verdict `r` seen from the other side: every difference swapped, and a
/// failure of the first input become one of the second.
pub open spec fn spec_swapped_verdict(r: ComparisonResultView) -> ComparisonResultView {
    match r {
        ComparisonResultView::Identical => ComparisonResultView::Identical,
        ComparisonResultView::DifferByFields(d) => ComparisonResultView::DifferByFields(
            spec_swapped_all(d),
        ),
        ComparisonResultView::IncomparableError(why) => ComparisonResultView::IncomparableError(
            match why {
                Incomparable::First(e) => Incomparable::Second(e),
                Incomparable::Second(e) => Incomparable::First(e),
                Incomparable::Both(e, f) => Incomparable::Both(f, e),
            },
        ),
    }
}

/// A certificate compared with itself is identical.
pub proof fn lemma_compare_reflexive(c: CertificateView)
    ensures
        spec_compare(c, c) == ComparisonResultView::Identical,
{
}

/// The report on one field in the other direction is the same report with
/// old and new value exchanged.
pub proof fn lemma_field_report_swapped(a: CertificateView, b: CertificateView, field: Field)
    ensures
        spec_differs(b, a, field) == spec_differs(a, b, field),
        spec_field_report(b, a, field) == spec_swapped_all(spec_field_report(a, b, field)),
{
    assert(spec_field_report(b, a, field) =~= spec_swapped_all(spec_field_report(a, b, field)));
}

/// Swapping every difference of two lists in a row is swapping each list.
pub proof fn lemma_swapped_all_concat(x: Seq<FieldDifferenceView>, y: Seq<FieldDifferenceView>)
    ensures
        spec_swapped_all(x + y) == spec_swapped_all(x) + spec_swapped_all(y),
{
    assert(spec_swapped_all(x + y) =~= spec_swapped_all(x) + spec_swapped_all(y));
}

/// Comparing in the other direction reports the same fields in the same
/// order, with old and new value exchanged.
pub proof fn lemma_compare_symmetric(a: CertificateView, b: CertificateView)
    ensures
        spec_differences(b, a) == spec_swapped_all(spec_differences(a, b)),
        spec_compare(b, a) == spec_swapped_verdict(spec_compare(a, b)),
{
    let serial = spec_field_report(a, b, Field::SerialNumber);
    let issuer = spec_field_report(a, b, Field::Issuer);
    let subject = spec_field_report(a, b, Field::Subject);
    let validity = spec_field_report(a, b, Field::Validity);
    let key = spec_field_report(a, b, Field::PublicKey);
    let sans = spec_field_report(a, b, Field::SubjectAltNames);
    lemma_field_report_swapped(a, b, Field::SerialNumber);
    lemma_field_report_swapped(a, b, Field::Issuer);
    lemma_field_report_swapped(a, b, Field::Subject);
    lemma_field_report_swapped(a, b, Field::Validity);
    lemma_field_report_swapped(a, b, Field::PublicKey);
    lemma_field_report_swapped(a, b, Field::SubjectAltNames);
    lemma_swapped_all_concat(serial, issuer);
    lemma_swapped_all_concat(serial + issuer, subject);
    lemma_swapped_all_concat(serial + issuer + subject, validity);
    lemma_swapped_all_concat(serial + issuer + subject + validity, key);
    lemma_swapped_all_concat(serial + issuer + subject + validity + key, sans);
    assert(spec_swapped_all(spec_differences(a, b)).len() == spec_differences(a, b).len());
}

/// The comparison of two certificates never fails: its verdict is that they
/// are identical, or a list of differences that is not empty.
pub proof fn lemma_compare_never_fails(a: CertificateView, b: CertificateView)
    ensures
        match spec_compare(a, b) {
            ComparisonResultView::Identical => true,
            ComparisonResultView::DifferByFields(d) => d.len() > 0,
            ComparisonResultView::IncomparableError(_) => false,
        },
{
}

/// The place of a field in the order of the report.
pub open spec fn spec_field_rank(field: Field) -> int {
    match field {
        Field::SerialNumber => 0,
        Field::Issuer => 1,
        Field::Subject => 2,
        Field::Validity => 3,
        Field::PublicKey => 4,
        Field::SubjectAltNames => 5,
    }
}

/// Every field in which two certificates differ is reported, once, with the
/// value of the first as the old and the value of the second as the new one;
/// no other field is reported; and the fields come in their fixed order.
pub proof fn lemma_every_difference_is_reported(a: CertificateView, b: CertificateView)
    ensures
        forall|field: Field|
            spec_differs(a, b, field) <==> exists|i: int|
                0 <= i < spec_differences(a, b).len() && (#[trigger] spec_differences(
                    a,
                    b,
                )[i]).field == field,
        forall|i: int|
            0 <= i < spec_differences(a, b).len() ==> (#[trigger] spec_differences(a, b)[i]).old
                == spec_field_value(a, spec_differences(a, b)[i].field) && spec_differences(
                a,
                b,
            )[i].new == spec_field_value(b, spec_differences(a, b)[i].field),
        forall|i: int, j: int|
            0 <= i < j < spec_differences(a, b).len() ==> spec_field_rank(
                (#[trigger] spec_differences(a, b)[i]).field,
            ) < spec_field_rank((#[trigger] spec_differences(a, b)[j]).field),
{
    let d = spec_differences(a, b);
    let serial = spec_field_report(a, b, Field::SerialNumber);
    let issuer = spec_field_report(a, b, Field::Issuer);
    let subject = spec_field_report(a, b, Field::Subject);
    let validity = spec_field_report(a, b, Field::Validity);
    let key = spec_field_report(a, b, Field::PublicKey);
    let sans = spec_field_report(a, b, Field::SubjectAltNames);
    let upto_issuer = serial + issuer;
    let upto_subject = upto_issuer + subject;
    let upto_validity = upto_subject + validity;
    let upto_key = upto_validity + key;
    assert(d == upto_key + sans);
    assert forall|i: int| 0 <= i < d.len() implies {
        &&& spec_differs(a, b, (#[trigger] d[i]).field)
        &&& d[i].old == spec_field_value(a, d[i].field)
        &&& d[i].new == spec_field_value(b, d[i].field)
        &&& spec_field_rank(d[i].field) == 5 ==> i == upto_key.len()
        &&& spec_field_rank(d[i].field) == 4 ==> i == upto_validity.len()
        &&& spec_field_rank(d[i].field) == 3 ==> i == upto_subject.len()
        &&& spec_field_rank(d[i].field) == 2 ==> i == upto_issuer.len()
        &&& spec_field_rank(d[i].field) == 1 ==> i == serial.len()
        &&& spec_field_rank(d[i].field) == 0 ==> i == 0
    } by {
        if i >= upto_key.len() {
            assert(d[i] == sans[i - upto_key.len()]);
        } else if i >= upto_validity.len() {
            assert(d[i] == key[i - upto_validity.len()]);
        } else if i >= upto_subject.len() {
            assert(d[i] == validity[i - upto_subject.len()]);
        } else if i >= upto_issuer.len() {
            assert(d[i] == subject[i - upto_issuer.len()]);
        } else if i >= serial.len() {
            assert(d[i] == issuer[i - serial.len()]);
        } else {
            assert(d[i] == serial[i]);
        }
    }
    assert forall|field: Field| spec_differs(a, b, field) implies exists|i: int|
        0 <= i < d.len() && (#[trigger] d[i]).field == field by {
        let at = match field {
            Field::SerialNumber => 0,
            Field::Issuer => serial.len() as int,
            Field::Subject => upto_issuer.len() as int,
            Field::Validity => upto_subject.len() as int,
            Field::PublicKey => upto_validity.len() as int,
            Field::SubjectAltNames => upto_key.len() as int,
        };
        assert(spec_field_report(a, b, field).len() == 1);
        assert(d[at].field == field);
    }
}

/// The serial numbers of two well-formed certificates differ as bytes exactly
/// when they differ as numbers.
pub proof fn lemma_serial_numbers_compare_as_numbers(a: CertificateView, b: CertificateView)
    requires
        a.well_formed(),
        b.well_formed(),
    ensures
        spec_differs(a, b, Field::SerialNumber) <==> spec_integer_value(a.serial_number)
            != spec_integer_value(b.serial_number),
{
    lemma_shortest_writing_is_unique(a.serial_number, b.serial_number);
}

/// Two certificates are identical exactly when they agree in all six fields.
pub proof fn lemma_identical_means_no_difference(a: CertificateView, b: CertificateView)
    ensures
        spec_compare(a, b) == ComparisonResultView::Identical <==> (forall|f: Field|
            !spec_differs(a, b, f)),
{
    if spec_compare(a, b) == ComparisonResultView::Identical {
        assert forall|f: Field| !spec_differs(a, b, f) by {
            if spec_differs(a, b, f) {
                assert(spec_field_report(a, b, f).len() == 1);
            }
        }
    } else {
        if forall|f: Field| !spec_differs(a, b, f) {
            assert(!spec_differs(a, b, Field::SerialNumber));
            assert(!spec_differs(a, b, Field::Issuer));
            assert(!spec_differs(a, b, Field::Subject));
            assert(!spec_differs(a, b, Field::Validity));
            assert(!spec_differs(a, b, Field::PublicKey));
            assert(!spec_differs(a, b, Field::SubjectAltNames));
        }
    }
}

/// The verdict on two decoding outcomes: the comparison of the certificates
/// where both were decoded, else which side failed, with its error.
pub open spec fn spec_compare_decoded(
    a: Result<CertificateView, MalformedEncoding>,
    b: Result<CertificateView, MalformedEncoding>,
) -> ComparisonResultView {
    match (a, b) {
        (Ok(x), Ok(y)) => spec_compare(x, y),
        (Err(e), Ok(_)) => ComparisonResultView::IncomparableError(Incomparable::First(e)),
        (Ok(_), Err(f)) => ComparisonResultView::IncomparableError(Incomparable::Second(f)),
        (Err(e), Err(f)) => ComparisonResultView::IncomparableError(Incomparable::Both(e, f)),
    }
}

/// Comparing two decoding outcomes in the other direction gives the same
/// verdict seen from the other side.
pub proof fn lemma_compare_decoded_symmetric(
    a: Result<CertificateView, MalformedEncoding>,
    b: Result<CertificateView, MalformedEncoding>,
)
    ensures
        spec_compare_decoded(b, a) == spec_swapped_verdict(spec_compare_decoded(a, b)),
{
    if a is Ok && b is Ok {
        lemma_compare_symmetric(a->Ok_0, b->Ok_0);
    }
}

fn attribute_in(x: &Attribute, list: &Vec<Attribute>) -> (r: bool)
    ensures
        r == attribute_views(list@).contains(x@),
{
    let mut i: usize = 0;
    while i < list.len()
        invariant
            i <= list@.len(),
            forall|k: int| 0 <= k < i ==> (#[trigger] attribute_views(list@)[k]) != x@,
        decreases list@.len() - i,
    {
        if list[i].same_as(x) {
            assert(attribute_views(list@)[i as int] == x@);
            return true;
        }
        i += 1;
    }
    false
}

fn attributes_within(a: &Vec<Attribute>, b: &Vec<Attribute>) -> (r: bool)
    ensures
        r == spec_all_within(attribute_views(a@), attribute_views(b@)),
{
    let mut i: usize = 0;
    while i < a.len()
        invariant
            i <= a@.len(),
            forall|k: int|
                0 <= k < i ==> attribute_views(b@).contains(#[trigger] attribute_views(a@)[k]),
        decreases a@.len() - i,
    {
        if !attribute_in(&a[i], b) {
            assert(!attribute_views(b@).contains(attribute_views(a@)[i as int]));
            return false;
        }
        i += 1;
    }
    true
}

/// Tells whether two names hold the same attributes, whatever their order.
pub fn same_attributes(a: &DistinguishedName, b: &DistinguishedName) -> (r: bool)
    ensures
        r == spec_same_members(a@, b@),
{
    proof {
        lemma_same_members(a@, b@);
    }
    attributes_within(&a.attributes, &b.attributes) && attributes_within(
        &b.attributes,
        &a.attributes,
    )
}

fn san_in(x: &SubjectAltName, list: &Vec<SubjectAltName>) -> (r: bool)
    ensures
        r == san_views(list@).contains(x@),
{
    let mut i: usize = 0;
    while i < list.len()
        invariant
            i <= list@.len(),
            forall|k: int| 0 <= k < i ==> (#[trigger] san_views(list@)[k]) != x@,
        decreases list@.len() - i,
    {
        if list[i].same_as(x) {
            assert(san_views(list@)[i as int] == x@);
            return true;
        }
        i += 1;
    }
    false
}

fn sans_within(a: &Vec<SubjectAltName>, b: &Vec<SubjectAltName>) -> (r: bool)
    ensures
        r == spec_all_within(san_views(a@), san_views(b@)),
{
    let mut i: usize = 0;
    while i < a.len()
        invariant
            i <= a@.len(),
            forall|k: int| 0 <= k < i ==> san_views(b@).contains(#[trigger] san_views(a@)[k]),
        decreases a@.len() - i,
    {
        if !san_in(&a[i], b) {
            assert(!san_views(b@).contains(san_views(a@)[i as int]));
            return false;
        }
        i += 1;
    }
    true
}

/// Tells whether two lists hold the same alternative names, whatever their
/// order.
pub fn same_sans(a: &Vec<SubjectAltName>, b: &Vec<SubjectAltName>) -> (r: bool)
    ensures
        r == spec_same_members(san_views(a@), san_views(b@)),
{
    proof {
        lemma_same_members(san_views(a@), san_views(b@));
    }
    sans_within(a, b) && sans_within(b, a)
}

fn report(
    out: &mut Vec<FieldDifference>,
    differs: bool,
    field: Field,
    before: FieldValue,
    after: FieldValue,
)
    ensures
        difference_views(final(out)@) == difference_views(old(out)@) + (if differs {
            seq![FieldDifferenceView { field, old: before@, new: after@ }]
        } else {
            Seq::empty()
        }),
{
    if differs {
        let d = FieldDifference { field, old: before, new: after };
        assert(difference_views(out@.push(d)) =~= difference_views(out@) + seq![d@]);
        out.push(d);
    } else {
        assert(difference_views(out@) =~= difference_views(out@) + Seq::<
            FieldDifferenceView,
        >::empty());
    }
}

/// Compares two certificates field by field and reports every field in which
/// they differ.
pub fn compare(a: &ParsedCertificate, b: &ParsedCertificate) -> (r: ComparisonResult)
    ensures
        r@ == spec_compare(a@, b@),
{
    let mut out: Vec<FieldDifference> = Vec::new();
    assert(difference_views(out@) =~= Seq::<FieldDifferenceView>::empty());
    report(
        &mut out,
        !bytes_eq(a.serial_number.as_slice(), b.serial_number.as_slice()),
        Field::SerialNumber,
        FieldValue::SerialNumber(duplicate(a.serial_number.as_slice())),
        FieldValue::SerialNumber(duplicate(b.serial_number.as_slice())),
    );
    report(
        &mut out,
        !same_attributes(&a.issuer, &b.issuer),
        Field::Issuer,
        FieldValue::Name(a.issuer.duplicate()),
        FieldValue::Name(b.issuer.duplicate()),
    );
    report(
        &mut out,
        !same_attributes(&a.subject, &b.subject),
        Field::Subject,
        FieldValue::Name(a.subject.duplicate()),
        FieldValue::Name(b.subject.duplicate()),
    );
    report(
        &mut out,
        a.validity != b.validity,
        Field::Validity,
        FieldValue::Validity(a.validity),
        FieldValue::Validity(b.validity),
    );
    report(
        &mut out,
        !a.public_key.same_as(&b.public_key),
        Field::PublicKey,
        FieldValue::PublicKey(a.public_key.duplicate()),
        FieldValue::PublicKey(b.public_key.duplicate()),
    );
    report(
        &mut out,
        !same_sans(&a.sans, &b.sans),
        Field::SubjectAltNames,
        FieldValue::SubjectAltNames(duplicate_sans(&a.sans)),
        FieldValue::SubjectAltNames(duplicate_sans(&b.sans)),
    );
    assert(difference_views(out@) =~= spec_differences(a@, b@));
    if out.len() == 0 {
        ComparisonResult::Identical
    } else {
        ComparisonResult::DifferByFields(out)
    }
}

/// The view of a decoding outcome.
pub open spec fn decoded_view(r: Result<ParsedCertificate, MalformedEncoding>) -> Result<
    CertificateView,
    MalformedEncoding,
> {
    match r {
        Ok(c) => Ok(c@),
        Err(e) => Err(e),
    }
}

/// Compares two decoding outcomes: the certificates where both were decoded;
/// else the verdict names the side that failed.
pub fn compare_decoded(
    a: &Result<ParsedCertificate, MalformedEncoding>,
    b: &Result<ParsedCertificate, MalformedEncoding>,
) -> (r: ComparisonResult)
    ensures
        r@ == spec_compare_decoded(decoded_view(*a), decoded_view(*b)),
{
    match (a, b) {
        (Ok(x), Ok(y)) => compare(x, y),
        (Err(e), Ok(_)) => ComparisonResult::IncomparableError(Incomparable::First(*e)),
        (Ok(_), Err(f)) => ComparisonResult::IncomparableError(Incomparable::Second(*f)),
        (Err(e), Err(f)) => ComparisonResult::IncomparableError(Incomparable::Both(*e, *f)),
    }
}

} // verus!
