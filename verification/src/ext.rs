use vstd::prelude::*;
use crate::bytes::{bytes_eq, copy_range};
use crate::cert::{
    extension_views, san_views, spec_distinct_extensions, spec_has_extension, spec_san_oid,
    Extension, ExtensionView, SubjectAltName, SubjectAltNameView,
};
use crate::der::{
    expect, lemma_header_bounds, malformed, parse_boolean, parse_oid, read_header, spec_boolean,
    spec_content, spec_expect, spec_oid, spec_read_header, Header, MalformedEncoding, Reason,
    TAG_BOOLEAN, TAG_OCTET_STRING, TAG_OID, TAG_SEQUENCE,
};

verus! {

/// The tag of an alternative name of a form with a type of its own.
pub const TAG_OTHER_NAME: u8 = 0xa0;

/// The tag of an alternative name that is a mail address.
pub const TAG_EMAIL: u8 = 0x81;

/// The tag of an alternative name that is a host name.
pub const TAG_DNS_NAME: u8 = 0x82;

/// The tag of an alternative name that is a resource identifier.
pub const TAG_URI: u8 = 0x86;

/// The tag of an alternative name that is a network address.
pub const TAG_IP_ADDRESS: u8 = 0x87;

/// The tag that wraps the extensions of a certificate.
pub const TAG_EXTENSIONS: u8 = 0xa3;

/// The alternative name that the element at `pos` holds, and where the next
/// element begins.
pub open spec fn spec_general_name(s: Seq<u8>, pos: usize, limit: usize, strict: bool) -> Result<
    (SubjectAltNameView, usize),
    MalformedEncoding,
> {
    match spec_read_header(s, pos, limit, strict) {
        Err(e) => Err(e),
        Ok(h) => if h.tag == TAG_DNS_NAME {
            Ok((SubjectAltNameView::DnsName(spec_content(s, h)), h.end))
        } else if h.tag == TAG_IP_ADDRESS {
            Ok((SubjectAltNameView::IpAddress(spec_content(s, h)), h.end))
        } else if h.tag == TAG_EMAIL {
            Ok((SubjectAltNameView::Email(spec_content(s, h)), h.end))
        } else if h.tag == TAG_URI {
            Ok((SubjectAltNameView::Uri(spec_content(s, h)), h.end))
        } else if h.tag == TAG_OTHER_NAME {
            match spec_expect(s, h.start, h.end, TAG_OID, strict) {
                Err(e) => Err(e),
                Ok(ho) => match spec_oid(s, ho) {
                    Err(e) => Err(e),
                    Ok(oid) => Ok(
                        (
                            SubjectAltNameView::Other(oid, s.subrange(ho.end as int, h.end as int)),
                            h.end,
                        ),
                    ),
                },
            }
        } else {
            Ok(
                (
                    SubjectAltNameView::Other(Seq::empty(), s.subrange(pos as int, h.end as int)),
                    h.end,
                ),
            )
        },
    }
}

/// The alternative names held by the elements of `s[pos..end]`, appended to
/// `acc`.
pub open spec fn spec_general_names(
    s: Seq<u8>,
    pos: usize,
    end: usize,
    strict: bool,
    acc: Seq<SubjectAltNameView>,
) -> Result<Seq<SubjectAltNameView>, MalformedEncoding>
    decreases end - pos,
    via spec_general_names_terminates
{
    if pos >= end {
        Ok(acc)
    } else {
        match spec_general_name(s, pos, end, strict) {
            Err(e) => Err(e),
            Ok((name, next)) => spec_general_names(s, next, end, strict, acc.push(name)),
        }
    }
}

#[via_fn]
proof fn spec_general_names_terminates(
    s: Seq<u8>,
    pos: usize,
    end: usize,
    strict: bool,
    acc: Seq<SubjectAltNameView>,
) {
    lemma_header_bounds(s, pos, end, strict);
}

/// The alternative names that `s[pos..limit]` lists: one sequence of names
/// that fills the range.
pub open spec fn spec_san_list(s: Seq<u8>, pos: usize, limit: usize, strict: bool) -> Result<
    Seq<SubjectAltNameView>,
    MalformedEncoding,
> {
    match spec_expect(s, pos, limit, TAG_SEQUENCE, strict) {
        Err(e) => Err(e),
        Ok(h) => if h.end != limit {
            Err(malformed(h.end as int, Reason::TrailingData))
        } else {
            spec_general_names(s, h.start, h.end, strict, Seq::empty())
        },
    }
}

/// The critical flag of an extension and the header of its value, read at
/// `pos`: an optional boolean, absent for false, then an octet string that
/// ends at `limit`.
pub open spec fn spec_extension_value(s: Seq<u8>, pos: usize, limit: usize, strict: bool) -> Result<
    (bool, Header),
    MalformedEncoding,
> {
    match spec_read_header(s, pos, limit, strict) {
        Err(e) => Err(e),
        Ok(first) => if first.tag == TAG_BOOLEAN {
            match spec_boolean(s, first, strict) {
                Err(e) => Err(e),
                Ok(critical) => match spec_expect(s, first.end, limit, TAG_OCTET_STRING, strict) {
                    Err(e) => Err(e),
                    Ok(hv) => if hv.end != limit {
                        Err(malformed(hv.end as int, Reason::TrailingData))
                    } else {
                        Ok((critical, hv))
                    },
                },
            }
        } else if first.tag != TAG_OCTET_STRING {
            Err(malformed(pos as int, Reason::UnexpectedTag))
        } else if first.end != limit {
            Err(malformed(first.end as int, Reason::TrailingData))
        } else {
            Ok((false, first))
        },
    }
}

/// The extension that the element at `pos` holds, the header of its value,
/// and where the next element begins.
pub open spec fn spec_extension(s: Seq<u8>, pos: usize, limit: usize, strict: bool) -> Result<
    (ExtensionView, Header, usize),
    MalformedEncoding,
> {
    match spec_expect(s, pos, limit, TAG_SEQUENCE, strict) {
        Err(e) => Err(e),
        Ok(h) => match spec_expect(s, h.start, h.end, TAG_OID, strict) {
            Err(e) => Err(e),
            Ok(ho) => match spec_oid(s, ho) {
                Err(e) => Err(e),
                Ok(oid) => match spec_extension_value(s, ho.end, h.end, strict) {
                    Err(e) => Err(e),
                    Ok((critical, hv)) => Ok(
                        (
                            ExtensionView {
                                oid,
                                critical,
                                value: spec_content(s, hv),
                                parsed: oid == spec_san_oid(),
                            },
                            hv,
                            h.end,
                        ),
                    ),
                },
            },
        },
    }
}

/// The extensions held by the elements of `s[pos..end]`, appended to
/// `extensions`, and the alternative names of the subject: those that the
/// extension 2.5.29.17 lists if it is among them, else `sans`. An extension
/// that occurs twice is an error.
pub open spec fn spec_extensions(
    s: Seq<u8>,
    pos: usize,
    end: usize,
    strict: bool,
    extensions: Seq<ExtensionView>,
    sans: Seq<SubjectAltNameView>,
) -> Result<(Seq<ExtensionView>, Seq<SubjectAltNameView>), MalformedEncoding>
    decreases end - pos,
    via spec_extensions_terminates
{
    if pos >= end {
        Ok((extensions, sans))
    } else {
        match spec_extension(s, pos, end, strict) {
            Err(e) => Err(e),
            Ok((extension, hv, next)) => if spec_has_extension(extensions, extension.oid) {
                Err(malformed(pos as int, Reason::DuplicateExtension))
            } else if extension.oid == spec_san_oid() {
                match spec_san_list(s, hv.start, hv.end, strict) {
                    Err(e) => Err(e),
                    Ok(names) => spec_extensions(
                        s,
                        next,
                        end,
                        strict,
                        extensions.push(extension),
                        names,
                    ),
                }
            } else {
                spec_extensions(s, next, end, strict, extensions.push(extension), sans)
            },
        }
    }
}

#[via_fn]
proof fn spec_extensions_terminates(
    s: Seq<u8>,
    pos: usize,
    end: usize,
    strict: bool,
    extensions: Seq<ExtensionView>,
    sans: Seq<SubjectAltNameView>,
) {
    lemma_header_bounds(s, pos, end, strict);
}

/// The extensions and alternative names of a certificate whose other fields
/// end at `pos`: none where nothing follows, else what the wrapped sequence of
/// extensions holds, which fills `s[pos..limit]`.
pub open spec fn spec_optional_extensions(
    s: Seq<u8>,
    pos: usize,
    limit: usize,
    strict: bool,
) -> Result<(Seq<ExtensionView>, Seq<SubjectAltNameView>), MalformedEncoding> {
    if pos >= limit {
        Ok((Seq::empty(), Seq::empty()))
    } else {
        match spec_expect(s, pos, limit, TAG_EXTENSIONS, strict) {
            Err(e) => Err(e),
            Ok(h) => if h.end != limit {
                Err(malformed(h.end as int, Reason::TrailingData))
            } else {
                match spec_expect(s, h.start, h.end, TAG_SEQUENCE, strict) {
                    Err(e) => Err(e),
                    Ok(hs) => if hs.end != h.end {
                        Err(malformed(hs.end as int, Reason::TrailingData))
                    } else {
                        spec_extensions(s, hs.start, hs.end, strict, Seq::empty(), Seq::empty())
                    },
                }
            },
        }
    }
}

/// Extensions read one after another hold no object identifier twice, and
/// alternative names come only from the extension that lists them.
pub proof fn lemma_extensions_well_formed(
    s: Seq<u8>,
    pos: usize,
    end: usize,
    strict: bool,
    extensions: Seq<ExtensionView>,
    sans: Seq<SubjectAltNameView>,
)
    requires
        spec_distinct_extensions(extensions),
        !spec_has_extension(extensions, spec_san_oid()) ==> sans.len() == 0,
    ensures
        match spec_extensions(s, pos, end, strict, extensions, sans) {
            Ok((all, names)) => spec_distinct_extensions(all) && (!spec_has_extension(
                all,
                spec_san_oid(),
            ) ==> names.len() == 0),
            Err(_) => true,
        },
    decreases end - pos,
{
    if pos < end {
        match spec_extension(s, pos, end, strict) {
            Err(_) => {},
            Ok((extension, hv, next)) => {
                if !spec_has_extension(extensions, extension.oid) {
                    lemma_header_bounds(s, pos, end, strict);
                    let more = extensions.push(extension);
                    assert(spec_distinct_extensions(more)) by {
                        assert forall|i: int, j: int| 0 <= i < j < more.len() implies more[i].oid
                            != more[j].oid by {
                            if j == extensions.len() {
                                assert(extensions[i].oid != extension.oid);
                            }
                        }
                    }
                    if extension.oid == spec_san_oid() {
                        assert(more[extensions.len() as int].oid == spec_san_oid());
                        match spec_san_list(s, hv.start, hv.end, strict) {
                            Err(_) => {},
                            Ok(names) => {
                                lemma_extensions_well_formed(s, next, end, strict, more, names);
                            },
                        }
                    } else {
                        assert(!spec_has_extension(more, spec_san_oid()) ==> sans.len() == 0) by {
                            if spec_has_extension(extensions, spec_san_oid()) {
                                let k = choose|k: int|
                                    0 <= k < extensions.len() && (#[trigger] extensions[k]).oid
                                        == spec_san_oid();
                                assert(more[k].oid == spec_san_oid());
                            }
                        }
                        lemma_extensions_well_formed(s, next, end, strict, more, sans);
                    }
                }
            },
        }
    }
}

/// Reads the alternative name at `pos`.
pub fn parse_general_name(bytes: &[u8], pos: usize, limit: usize, strict: bool) -> (r: Result<
    (SubjectAltName, usize),
    MalformedEncoding,
>)
    ensures
        match r {
            Ok((name, next)) => spec_general_name(bytes@, pos, limit, strict) == Ok::<
                (SubjectAltNameView, usize),
                MalformedEncoding,
            >((name@, next)) && pos < next <= limit,
            Err(e) => spec_general_name(bytes@, pos, limit, strict) == Err::<
                (SubjectAltNameView, usize),
                MalformedEncoding,
            >(e),
        },
{
    let h = read_header(bytes, pos, limit, strict)?;
    if h.tag == TAG_DNS_NAME {
        Ok((SubjectAltName::DnsName(copy_range(bytes, h.start, h.end)), h.end))
    } else if h.tag == TAG_IP_ADDRESS {
        Ok((SubjectAltName::IpAddress(copy_range(bytes, h.start, h.end)), h.end))
    } else if h.tag == TAG_EMAIL {
        Ok((SubjectAltName::Email(copy_range(bytes, h.start, h.end)), h.end))
    } else if h.tag == TAG_URI {
        Ok((SubjectAltName::Uri(copy_range(bytes, h.start, h.end)), h.end))
    } else if h.tag == TAG_OTHER_NAME {
        let ho = expect(bytes, h.start, h.end, TAG_OID, strict)?;
        let oid = parse_oid(bytes, ho)?;
        Ok((SubjectAltName::Other(oid, copy_range(bytes, ho.end, h.end)), h.end))
    } else {
        let none: Vec<u8> = Vec::new();
        Ok((SubjectAltName::Other(none, copy_range(bytes, pos, h.end)), h.end))
    }
}

/// Reads the alternative names that `bytes[pos..limit]` lists.
pub fn parse_san_list(bytes: &[u8], pos: usize, limit: usize, strict: bool) -> (r: Result<
    Vec<SubjectAltName>,
    MalformedEncoding,
>)
    ensures
        match r {
            Ok(names) => spec_san_list(bytes@, pos, limit, strict) == Ok::<
                Seq<SubjectAltNameView>,
                MalformedEncoding,
            >(san_views(names@)),
            Err(e) => spec_san_list(bytes@, pos, limit, strict) == Err::<
                Seq<SubjectAltNameView>,
                MalformedEncoding,
            >(e),
        },
{
    let h = expect(bytes, pos, limit, TAG_SEQUENCE, strict)?;
    if h.end != limit {
        return Err(MalformedEncoding { offset: h.end, reason: Reason::TrailingData });
    }
    let mut names: Vec<SubjectAltName> = Vec::new();
    let mut p: usize = h.start;
    assert(san_views(names@) =~= Seq::<SubjectAltNameView>::empty());
    while p < h.end
        invariant
            spec_expect(bytes@, pos, limit, TAG_SEQUENCE, strict) == Ok::<
                Header,
                MalformedEncoding,
            >(h),
            h.end == limit,
            spec_general_names(bytes@, h.start, h.end, strict, Seq::empty()) == spec_general_names(
                bytes@,
                p,
                h.end,
                strict,
                san_views(names@),
            ),
        decreases h.end - p,
    {
        let (name, next) = parse_general_name(bytes, p, h.end, strict)?;
        assert(san_views(names@.push(name)) =~= san_views(names@).push(name@));
        names.push(name);
        p = next;
    }
    Ok(names)
}

/// Reads the critical flag of an extension and the header of its value.
pub fn parse_extension_value(bytes: &[u8], pos: usize, limit: usize, strict: bool) -> (r: Result<
    (bool, Header),
    MalformedEncoding,
>)
    ensures
        r == spec_extension_value(bytes@, pos, limit, strict),
        r is Ok ==> pos < r->Ok_0.1.start <= r->Ok_0.1.end == limit <= bytes@.len(),
{
    let first = read_header(bytes, pos, limit, strict)?;
    if first.tag == TAG_BOOLEAN {
        let critical = parse_boolean(bytes, first, strict)?;
        let hv = expect(bytes, first.end, limit, TAG_OCTET_STRING, strict)?;
        if hv.end != limit {
            return Err(MalformedEncoding { offset: hv.end, reason: Reason::TrailingData });
        }
        Ok((critical, hv))
    } else if first.tag != TAG_OCTET_STRING {
        Err(MalformedEncoding { offset: pos, reason: Reason::UnexpectedTag })
    } else if first.end != limit {
        Err(MalformedEncoding { offset: first.end, reason: Reason::TrailingData })
    } else {
        Ok((false, first))
    }
}

/// Tells whether `oid` is the content of the object identifier 2.5.29.17.
pub fn is_san_oid(oid: &[u8]) -> (r: bool)
    ensures
        r == (oid@ == spec_san_oid()),
{
    let r = oid.len() == 3 && oid[0] == 0x55 && oid[1] == 0x1d && oid[2] == 0x11;
    assert(r ==> oid@ =~= spec_san_oid());
    r
}

/// Reads the extension at `pos`.
pub fn parse_extension(bytes: &[u8], pos: usize, limit: usize, strict: bool) -> (r: Result<
    (Extension, Header, usize),
    MalformedEncoding,
>)
    ensures
        match r {
            Ok((extension, hv, next)) => spec_extension(bytes@, pos, limit, strict) == Ok::<
                (ExtensionView, Header, usize),
                MalformedEncoding,
            >((extension@, hv, next)) && pos < next <= limit && hv.start <= hv.end
                <= bytes@.len(),
            Err(e) => spec_extension(bytes@, pos, limit, strict) == Err::<
                (ExtensionView, Header, usize),
                MalformedEncoding,
            >(e),
        },
{
    let h = expect(bytes, pos, limit, TAG_SEQUENCE, strict)?;
    let ho = expect(bytes, h.start, h.end, TAG_OID, strict)?;
    let oid = parse_oid(bytes, ho)?;
    let (critical, hv) = parse_extension_value(bytes, ho.end, h.end, strict)?;
    let parsed = is_san_oid(oid.as_slice());
    let value = copy_range(bytes, hv.start, hv.end);
    Ok((Extension { oid, critical, value, parsed }, hv, h.end))
}

/// Tells whether some extension in `extensions` has the object identifier
/// `oid`.
pub fn has_extension(extensions: &Vec<Extension>, oid: &[u8]) -> (r: bool)
    ensures
        r == spec_has_extension(extension_views(extensions@), oid@),
{
    let mut i: usize = 0;
    while i < extensions.len()
        invariant
            i <= extensions@.len(),
            forall|k: int| 0 <= k < i ==> (#[trigger] extension_views(extensions@)[k]).oid != oid@,
        decreases extensions@.len() - i,
    {
        if bytes_eq(extensions[i].oid.as_slice(), oid) {
            assert(extension_views(extensions@)[i as int].oid == oid@);
            return true;
        }
        i += 1;
    }
    false
}

/// Reads the extensions of `bytes[pos..end]`, appends them to `extensions`,
/// and puts into `sans` the alternative names of the subject where the
/// extension that lists them is among them.
pub fn parse_extensions(
    bytes: &[u8],
    pos: usize,
    end: usize,
    strict: bool,
    extensions: &mut Vec<Extension>,
    sans: &mut Vec<SubjectAltName>,
) -> (r: Result<(), MalformedEncoding>)
    ensures
        match r {
            Ok(_) => spec_extensions(
                bytes@,
                pos,
                end,
                strict,
                extension_views(old(extensions)@),
                san_views(old(sans)@),
            ) == Ok::<(Seq<ExtensionView>, Seq<SubjectAltNameView>), MalformedEncoding>(
                (extension_views(final(extensions)@), san_views(final(sans)@)),
            ),
            Err(e) => spec_extensions(
                bytes@,
                pos,
                end,
                strict,
                extension_views(old(extensions)@),
                san_views(old(sans)@),
            ) == Err::<(Seq<ExtensionView>, Seq<SubjectAltNameView>), MalformedEncoding>(e),
        },
{
    let mut p: usize = pos;
    while p < end
        invariant
            spec_extensions(
                bytes@,
                pos,
                end,
                strict,
                extension_views(old(extensions)@),
                san_views(old(sans)@),
            ) == spec_extensions(
                bytes@,
                p,
                end,
                strict,
                extension_views(extensions@),
                san_views(sans@),
            ),
        decreases end - p,
    {
        let (extension, hv, next) = parse_extension(bytes, p, end, strict)?;
        if has_extension(extensions, extension.oid.as_slice()) {
            return Err(MalformedEncoding { offset: p, reason: Reason::DuplicateExtension });
        }
        if extension.parsed {
            *sans = parse_san_list(bytes, hv.start, hv.end, strict)?;
        }
        assert(extension_views(extensions@.push(extension)) =~= extension_views(extensions@).push(
            extension@,
        ));
        extensions.push(extension);
        p = next;
    }
    Ok(())
}

/// Reads the extensions of a certificate whose other fields end at `pos`,
/// and the alternative names among them.
pub fn parse_optional_extensions(
    bytes: &[u8],
    pos: usize,
    limit: usize,
    strict: bool,
) -> (r: Result<(Vec<Extension>, Vec<SubjectAltName>), MalformedEncoding>)
    ensures
        match r {
            Ok((extensions, sans)) => spec_optional_extensions(bytes@, pos, limit, strict) == Ok::<
                (Seq<ExtensionView>, Seq<SubjectAltNameView>),
                MalformedEncoding,
            >((extension_views(extensions@), san_views(sans@))),
            Err(e) => spec_optional_extensions(bytes@, pos, limit, strict) == Err::<
                (Seq<ExtensionView>, Seq<SubjectAltNameView>),
                MalformedEncoding,
            >(e),
        },
{
    let mut extensions: Vec<Extension> = Vec::new();
    let mut sans: Vec<SubjectAltName> = Vec::new();
    assert(extension_views(extensions@) =~= Seq::<ExtensionView>::empty());
    assert(san_views(sans@) =~= Seq::<SubjectAltNameView>::empty());
    if pos >= limit {
        return Ok((extensions, sans));
    }
    let h = expect(bytes, pos, limit, TAG_EXTENSIONS, strict)?;
    if h.end != limit {
        return Err(MalformedEncoding { offset: h.end, reason: Reason::TrailingData });
    }
    let hs = expect(bytes, h.start, h.end, TAG_SEQUENCE, strict)?;
    if hs.end != h.end {
        return Err(MalformedEncoding { offset: hs.end, reason: Reason::TrailingData });
    }
    parse_extensions(bytes, hs.start, hs.end, strict, &mut extensions, &mut sans)?;
    Ok((extensions, sans))
}

} // verus!
