use vstd::prelude::*;
use crate::bytes::append_label;
use crate::compare::{
    difference_views, ComparisonResult, ComparisonResultView, Field, FieldDifference,
    FieldDifferenceView, FieldValue, FieldValueView, Incomparable,
};
use crate::der::{MalformedEncoding, Reason};
use crate::dump::{
    spec_instant_text, spec_key_text, spec_name_text, spec_san_set_items, write_instant, write_key,
    write_name, write_san_set_items,
};
use crate::text::{spec_decimal, spec_hex, text, write_decimal, write_hex};

verus! {

/// The words for a reason.
pub open spec fn spec_reason_text(reason: Reason) -> Seq<u8> {
    match reason {
        Reason::Truncated => text("element expected"),
        Reason::TruncatedLength => text("truncated length field"),
        Reason::LengthOverrun => text("length overruns the enclosing element"),
        Reason::IndefiniteLength => text("indefinite length"),
        Reason::LengthTooLarge => text("length field too long"),
        Reason::NonMinimalLength => text("length not in its shortest form"),
        Reason::HighTagNumber => text("tag number too high"),
        Reason::UnexpectedTag => text("unexpected tag"),
        Reason::TrailingData => text("trailing data"),
        Reason::EmptyInteger => text("integer without content"),
        Reason::NonCanonicalInteger => text("integer not in its shortest form"),
        Reason::InvalidVersion => text("version not known"),
        Reason::InvalidBoolean => text("boolean not valid"),
        Reason::InvalidBitString => text("bit string not valid"),
        Reason::EmptyOid => text("object identifier without content"),
        Reason::InvalidTime => text("time not valid"),
        Reason::ValidityOrder => text("validity window ends before it starts"),
        Reason::DuplicateExtension => text("extension occurs twice"),
    }
}

/// Appends the words for a reason to `out`.
pub fn write_reason(out: &mut Vec<u8>, reason: Reason)
    ensures
        final(out)@ == old(out)@ + spec_reason_text(reason),
{
    match reason {
        Reason::Truncated => append_label(out, "element expected"),
        Reason::TruncatedLength => append_label(out, "truncated length field"),
        Reason::LengthOverrun => append_label(out, "length overruns the enclosing element"),
        Reason::IndefiniteLength => append_label(out, "indefinite length"),
        Reason::LengthTooLarge => append_label(out, "length field too long"),
        Reason::NonMinimalLength => append_label(out, "length not in its shortest form"),
        Reason::HighTagNumber => append_label(out, "tag number too high"),
        Reason::UnexpectedTag => append_label(out, "unexpected tag"),
        Reason::TrailingData => append_label(out, "trailing data"),
        Reason::EmptyInteger => append_label(out, "integer without content"),
        Reason::NonCanonicalInteger => append_label(out, "integer not in its shortest form"),
        Reason::InvalidVersion => append_label(out, "version not known"),
        Reason::InvalidBoolean => append_label(out, "boolean not valid"),
        Reason::InvalidBitString => append_label(out, "bit string not valid"),
        Reason::EmptyOid => append_label(out, "object identifier without content"),
        Reason::InvalidTime => append_label(out, "time not valid"),
        Reason::ValidityOrder => append_label(out, "validity window ends before it starts"),
        Reason::DuplicateExtension => append_label(out, "extension occurs twice"),
    }
}

/// A rejected encoding in words: the offset, then the reason.
pub open spec fn spec_malformed_text(e: MalformedEncoding) -> Seq<u8> {
    text("malformed encoding at offset ") + spec_decimal(e.offset as nat) + text(": ")
        + spec_reason_text(e.reason)
}

/// Appends a rejected encoding in words to `out`.
pub fn write_malformed(out: &mut Vec<u8>, e: &MalformedEncoding)
    ensures
        final(out)@ == old(out)@ + spec_malformed_text(*e),
{
    append_label(out, "malformed encoding at offset ");
    write_decimal(out, e.offset as u128);
    append_label(out, ": ");
    write_reason(out, e.reason);
    assert(out@ =~= old(out)@ + spec_malformed_text(*e));
}

/// The label of a compared field.
pub open spec fn spec_field_label(field: Field) -> Seq<u8> {
    match field {
        Field::SerialNumber => text("Serial Number"),
        Field::Issuer => text("Issuer"),
        Field::Subject => text("Subject"),
        Field::Validity => text("Validity"),
        Field::PublicKey => text("Public Key"),
        Field::SubjectAltNames => text("Subject Alternative Names"),
    }
}

/// Appends the label of a compared field to `out`.
pub fn write_field_label(out: &mut Vec<u8>, field: Field)
    ensures
        final(out)@ == old(out)@ + spec_field_label(field),
{
    match field {
        Field::SerialNumber => append_label(out, "Serial Number"),
        Field::Issuer => append_label(out, "Issuer"),
        Field::Subject => append_label(out, "Subject"),
        Field::Validity => append_label(out, "Validity"),
        Field::PublicKey => append_label(out, "Public Key"),
        Field::SubjectAltNames => append_label(out, "Subject Alternative Names"),
    }
}

/// The value of a compared field as text: a serial number in hexadecimal, a
/// name by its attributes, a validity window by its two instants, a key by
/// algorithm, size and bytes, alternative names as a set in braces.
pub open spec fn spec_field_value_text(v: FieldValueView) -> Seq<u8> {
    match v {
        FieldValueView::SerialNumber(n) => spec_hex(n),
        FieldValueView::Name(n) => spec_name_text(n),
        FieldValueView::Validity(w) => spec_instant_text(w.not_before) + text(" to ")
            + spec_instant_text(w.not_after),
        FieldValueView::PublicKey(k) => spec_key_text(k),
        FieldValueView::SubjectAltNames(names) => text("{") + spec_san_set_items(names) + text("}"),
    }
}

/// Appends the value of a compared field as text to `out`.
pub fn write_field_value(out: &mut Vec<u8>, v: &FieldValue)
    ensures
        final(out)@ == old(out)@ + spec_field_value_text(v@),
{
    match v {
        FieldValue::SerialNumber(n) => {
            write_hex(out, n.as_slice());
        },
        FieldValue::Name(n) => {
            write_name(out, n);
        },
        FieldValue::Validity(w) => {
            write_instant(out, &w.not_before);
            append_label(out, " to ");
            write_instant(out, &w.not_after);
        },
        FieldValue::PublicKey(k) => {
            write_key(out, k);
        },
        FieldValue::SubjectAltNames(names) => {
            append_label(out, "{");
            write_san_set_items(out, names);
            append_label(out, "}");
        },
    }
    assert(out@ =~= old(out)@ + spec_field_value_text(v@));
}

/// One difference as an item of three lines: the field's label, the old
/// value, the new value.
pub open spec fn spec_difference_text(d: FieldDifferenceView) -> Seq<u8> {
    spec_field_label(d.field) + text(":\n") + text("    old: ") + spec_field_value_text(d.old)
        + text("\n") + text("    new: ") + spec_field_value_text(d.new) + text("\n")
}

/// Appends one difference as an item of three lines to `out`.
pub fn write_difference(out: &mut Vec<u8>, d: &FieldDifference)
    ensures
        final(out)@ == old(out)@ + spec_difference_text(d@),
{
    write_field_label(out, d.field);
    append_label(out, ":\n");
    append_label(out, "    old: ");
    write_field_value(out, &d.old);
    append_label(out, "\n");
    append_label(out, "    new: ");
    write_field_value(out, &d.new);
    append_label(out, "\n");
    assert(out@ =~= old(out)@ + spec_difference_text(d@));
}

/// The differences `ds` as items, in their order.
pub open spec fn spec_differences_text(ds: Seq<FieldDifferenceView>) -> Seq<u8>
    decreases ds.len(),
{
    if ds.len() == 0 {
        Seq::empty()
    } else {
        spec_differences_text(ds.drop_last()) + spec_difference_text(ds.last())
    }
}

/// Appends the differences `ds` as items to `out`.
pub fn write_differences(out: &mut Vec<u8>, ds: &Vec<FieldDifference>)
    ensures
        final(out)@ == old(out)@ + spec_differences_text(difference_views(ds@)),
{
    let ghost all = difference_views(ds@);
    let mut i: usize = 0;
    assert(all.subrange(0, 0) =~= Seq::<FieldDifferenceView>::empty());
    assert(out@ =~= old(out)@ + Seq::<u8>::empty());
    while i < ds.len()
        invariant
            i <= ds@.len(),
            all == difference_views(ds@),
            out@ == old(out)@ + spec_differences_text(all.subrange(0, i as int)),
        decreases ds@.len() - i,
    {
        let ghost next = all.subrange(0, i + 1);
        proof {
            assert(next.drop_last() =~= all.subrange(0, i as int));
            assert(next.last() == ds@[i as int]@);
        }
        write_difference(out, &ds[i]);
        assert(out@ =~= old(out)@ + spec_differences_text(next));
        i += 1;
    }
    assert(all.subrange(0, all.len() as int) =~= all);
}

/// Why two inputs could not be compared, in words: each side that failed,
/// with its error.
pub open spec fn spec_incomparable_text(why: Incomparable) -> Seq<u8> {
    match why {
        Incomparable::First(e) => text("incomparable: first input: ") + spec_malformed_text(e),
        Incomparable::Second(e) => text("incomparable: second input: ") + spec_malformed_text(e),
        Incomparable::Both(e, f) => text("incomparable: first input: ") + spec_malformed_text(e)
            + text("; second input: ") + spec_malformed_text(f),
    }
}

/// Appends to `out`, in words, why two inputs could not be compared.
pub fn write_incomparable(out: &mut Vec<u8>, why: &Incomparable)
    ensures
        final(out)@ == old(out)@ + spec_incomparable_text(*why),
{
    match why {
        Incomparable::First(e) => {
            append_label(out, "incomparable: first input: ");
            write_malformed(out, e);
        },
        Incomparable::Second(e) => {
            append_label(out, "incomparable: second input: ");
            write_malformed(out, e);
        },
        Incomparable::Both(e, f) => {
            append_label(out, "incomparable: first input: ");
            write_malformed(out, e);
            append_label(out, "; second input: ");
            write_malformed(out, f);
        },
    }
    assert(out@ =~= old(out)@ + spec_incomparable_text(*why));
}

/// A verdict as text: the word `identical`, or the list of the differing
/// fields with their old and new values, or why nothing could be compared.
pub open spec fn spec_comparison_text(r: ComparisonResultView) -> Seq<u8> {
    match r {
        ComparisonResultView::Identical => text("identical\n"),
        ComparisonResultView::DifferByFields(ds) => spec_differences_text(ds),
        ComparisonResultView::IncomparableError(why) => spec_incomparable_text(why) + text("\n"),
    }
}

/// Renders a verdict as text.
pub fn comparison_text(r: &ComparisonResult) -> (out: Vec<u8>)
    ensures
        out@ == spec_comparison_text(r@),
{
    let mut out: Vec<u8> = Vec::new();
    match r {
        ComparisonResult::Identical => {
            append_label(&mut out, "identical\n");
        },
        ComparisonResult::DifferByFields(ds) => {
            write_differences(&mut out, ds);
        },
        ComparisonResult::IncomparableError(why) => {
            write_incomparable(&mut out, why);
            append_label(&mut out, "\n");
        },
    }
    assert(out@ =~= spec_comparison_text(r@));
    out
}

} // verus!
