use vstd::prelude::*;
use crate::bytes::copy_range;
use crate::cert::{attribute_views, Attribute, AttributeView, DistinguishedName};
use crate::der::{
    expect, lemma_header_bounds, malformed, parse_oid, read_header, spec_content, spec_expect,
    spec_oid, spec_read_header, MalformedEncoding, Reason, TAG_OID, TAG_SEQUENCE, TAG_SET,
};

verus! {

/// The attribute that the element at `pos` holds, and where the next element
/// begins: a sequence of an object identifier and one value of any type.
pub open spec fn spec_attribute(s: Seq<u8>, pos: usize, limit: usize, strict: bool) -> Result<
    (AttributeView, usize),
    MalformedEncoding,
> {
    match spec_expect(s, pos, limit, TAG_SEQUENCE, strict) {
        Err(e) => Err(e),
        Ok(h) => match spec_expect(s, h.start, h.end, TAG_OID, strict) {
            Err(e) => Err(e),
            Ok(ho) => match spec_oid(s, ho) {
                Err(e) => Err(e),
                Ok(oid) => match spec_read_header(s, ho.end, h.end, strict) {
                    Err(e) => Err(e),
                    Ok(hv) => if hv.end != h.end {
                        Err(malformed(hv.end as int, Reason::TrailingData))
                    } else {
                        Ok((AttributeView { oid, value: spec_content(s, hv) }, h.end))
                    },
                },
            },
        },
    }
}

/// The attributes held by the elements of `s[pos..end]`, appended to `acc`.
pub open spec fn spec_attributes(
    s: Seq<u8>,
    pos: usize,
    end: usize,
    strict: bool,
    acc: Seq<AttributeView>,
) -> Result<Seq<AttributeView>, MalformedEncoding>
    decreases end - pos,
    via spec_attributes_terminates
{
    if pos >= end {
        Ok(acc)
    } else {
        match spec_attribute(s, pos, end, strict) {
            Err(e) => Err(e),
            Ok((a, next)) => spec_attributes(s, next, end, strict, acc.push(a)),
        }
    }
}

#[via_fn]
proof fn spec_attributes_terminates(
    s: Seq<u8>,
    pos: usize,
    end: usize,
    strict: bool,
    acc: Seq<AttributeView>,
) {
    lemma_header_bounds(s, pos, end, strict);
}

/// The attributes held by the sets of `s[pos..end]`, set after set, appended
/// to `acc`.
pub open spec fn spec_attribute_sets(
    s: Seq<u8>,
    pos: usize,
    end: usize,
    strict: bool,
    acc: Seq<AttributeView>,
) -> Result<Seq<AttributeView>, MalformedEncoding>
    decreases end - pos,
    via spec_attribute_sets_terminates
{
    if pos >= end {
        Ok(acc)
    } else {
        match spec_expect(s, pos, end, TAG_SET, strict) {
            Err(e) => Err(e),
            Ok(h) => match spec_attributes(s, h.start, h.end, strict, acc) {
                Err(e) => Err(e),
                Ok(more) => spec_attribute_sets(s, h.end, end, strict, more),
            },
        }
    }
}

#[via_fn]
proof fn spec_attribute_sets_terminates(
    s: Seq<u8>,
    pos: usize,
    end: usize,
    strict: bool,
    acc: Seq<AttributeView>,
) {
    lemma_header_bounds(s, pos, end, strict);
}

/// The distinguished name that the element at `pos` holds, and where the next
/// element begins.
pub open spec fn spec_name(s: Seq<u8>, pos: usize, limit: usize, strict: bool) -> Result<
    (Seq<AttributeView>, usize),
    MalformedEncoding,
> {
    match spec_expect(s, pos, limit, TAG_SEQUENCE, strict) {
        Err(e) => Err(e),
        Ok(h) => match spec_attribute_sets(s, h.start, h.end, strict, Seq::empty()) {
            Err(e) => Err(e),
            Ok(attributes) => Ok((attributes, h.end)),
        },
    }
}

/// Reads the attribute at `pos`.
pub fn parse_attribute(bytes: &[u8], pos: usize, limit: usize, strict: bool) -> (r: Result<
    (Attribute, usize),
    MalformedEncoding,
>)
    ensures
        match r {
            Ok((a, next)) => spec_attribute(bytes@, pos, limit, strict) == Ok::<
                (AttributeView, usize),
                MalformedEncoding,
            >((a@, next)) && pos < next <= limit,
            Err(e) => spec_attribute(bytes@, pos, limit, strict) == Err::<
                (AttributeView, usize),
                MalformedEncoding,
            >(e),
        },
{
    let h = expect(bytes, pos, limit, TAG_SEQUENCE, strict)?;
    let ho = expect(bytes, h.start, h.end, TAG_OID, strict)?;
    let oid = parse_oid(bytes, ho)?;
    let hv = read_header(bytes, ho.end, h.end, strict)?;
    if hv.end != h.end {
        return Err(MalformedEncoding { offset: hv.end, reason: Reason::TrailingData });
    }
    let value = copy_range(bytes, hv.start, hv.end);
    Ok((Attribute { oid, value }, h.end))
}

/// Reads the attributes of `bytes[pos..end]` and appends them to `acc`.
pub fn parse_attributes(
    bytes: &[u8],
    pos: usize,
    end: usize,
    strict: bool,
    acc: &mut Vec<Attribute>,
) -> (r: Result<(), MalformedEncoding>)
    ensures
        match r {
            Ok(_) => spec_attributes(bytes@, pos, end, strict, attribute_views(old(acc)@)) == Ok::<
                Seq<AttributeView>,
                MalformedEncoding,
            >(attribute_views(final(acc)@)),
            Err(e) => spec_attributes(bytes@, pos, end, strict, attribute_views(old(acc)@)) == Err::<
                Seq<AttributeView>,
                MalformedEncoding,
            >(e),
        },
{
    let mut p: usize = pos;
    while p < end
        invariant
            spec_attributes(bytes@, pos, end, strict, attribute_views(old(acc)@))
                == spec_attributes(bytes@, p, end, strict, attribute_views(acc@)),
        decreases end - p,
    {
        let (a, next) = parse_attribute(bytes, p, end, strict)?;
        assert(attribute_views(acc@.push(a)) =~= attribute_views(acc@).push(a@));
        acc.push(a);
        p = next;
    }
    Ok(())
}

/// Reads the attribute sets of `bytes[pos..end]` and appends their attributes
/// to `acc`.
pub fn parse_attribute_sets(
    bytes: &[u8],
    pos: usize,
    end: usize,
    strict: bool,
    acc: &mut Vec<Attribute>,
) -> (r: Result<(), MalformedEncoding>)
    ensures
        match r {
            Ok(_) => spec_attribute_sets(bytes@, pos, end, strict, attribute_views(old(acc)@))
                == Ok::<Seq<AttributeView>, MalformedEncoding>(attribute_views(final(acc)@)),
            Err(e) => spec_attribute_sets(bytes@, pos, end, strict, attribute_views(old(acc)@))
                == Err::<Seq<AttributeView>, MalformedEncoding>(e),
        },
{
    let mut p: usize = pos;
    while p < end
        invariant
            spec_attribute_sets(bytes@, pos, end, strict, attribute_views(old(acc)@))
                == spec_attribute_sets(bytes@, p, end, strict, attribute_views(acc@)),
        decreases end - p,
    {
        let h = expect(bytes, p, end, TAG_SET, strict)?;
        parse_attributes(bytes, h.start, h.end, strict, acc)?;
        p = h.end;
    }
    Ok(())
}

/// Reads the distinguished name at `pos`.
pub fn parse_name(bytes: &[u8], pos: usize, limit: usize, strict: bool) -> (r: Result<
    (DistinguishedName, usize),
    MalformedEncoding,
>)
    ensures
        match r {
            Ok((name, next)) => spec_name(bytes@, pos, limit, strict) == Ok::<
                (Seq<AttributeView>, usize),
                MalformedEncoding,
            >((name@, next)) && pos < next <= limit,
            Err(e) => spec_name(bytes@, pos, limit, strict) == Err::<
                (Seq<AttributeView>, usize),
                MalformedEncoding,
            >(e),
        },
{
    let h = expect(bytes, pos, limit, TAG_SEQUENCE, strict)?;
    let mut attributes: Vec<Attribute> = Vec::new();
    assert(attribute_views(attributes@) =~= Seq::<AttributeView>::empty());
    parse_attribute_sets(bytes, h.start, h.end, strict, &mut attributes)?;
    Ok((DistinguishedName { attributes }, h.end))
}

} // verus!
