use vstd::prelude::*;
use crate::bytes::copy_range;

verus! {

/// Why a byte sequence was rejected.
#[derive(Clone, Copy, Debug, PartialEq, Eq, Structural)]
pub enum Reason {
    /// An element was expected where the enclosing content has no byte left.
    Truncated,
    /// The length field of an element is cut short.
    TruncatedLength,
    /// The length field announces more content than the enclosing element holds.
    LengthOverrun,
    /// The length field uses the indefinite form.
    IndefiniteLength,
    /// The length field is longer than four bytes.
    LengthTooLarge,
    /// The length field is longer than its value needs (strict mode).
    NonMinimalLength,
    /// The tag number does not fit in one byte.
    HighTagNumber,
    /// The element is not of the type that the certificate layout puts here.
    UnexpectedTag,
    /// Bytes are left over after the last element of a structure.
    TrailingData,
    /// An integer without content.
    EmptyInteger,
    /// An integer with redundant leading bytes (strict mode).
    NonCanonicalInteger,
    /// A version number that is none of 0, 1, 2.
    InvalidVersion,
    /// A boolean that is not one byte long.
    InvalidBoolean,
    /// A bit string without a valid count of unused bits.
    InvalidBitString,
    /// An object identifier without content.
    EmptyOid,
    /// A time that is not written as the layout demands or names no real instant.
    InvalidTime,
    /// The validity window ends before it starts.
    ValidityOrder,
    /// The same extension occurs twice.
    DuplicateExtension,
}

/// A rejected encoding: the offset of the offending byte and the reason.
#[derive(Clone, Copy, Debug, PartialEq, Eq, Structural)]
pub struct MalformedEncoding {
    pub offset: usize,
    pub reason: Reason,
}

/// The header of one element: its tag and where its content lies.
#[derive(Clone, Copy, Debug, PartialEq, Eq, Structural)]
pub struct Header {
    /// Where the element begins.
    pub at: usize,
    pub tag: u8,
    /// Where its content begins.
    pub start: usize,
    /// Where its content ends, which is where the next element begins.
    pub end: usize,
}

/// The rejection at the offset `offset` for the reason `reason`.
pub open spec fn malformed(offset: int, reason: Reason) -> MalformedEncoding {
    MalformedEncoding { offset: offset as usize, reason }
}

/// The value of `count` length bytes that start at `at`, most significant first.
pub open spec fn spec_long_length(s: Seq<u8>, at: int, count: int) -> int {
    if count == 1 {
        s[at] as int
    } else if count == 2 {
        s[at] * 256 + s[at + 1]
    } else if count == 3 {
        s[at] * 65536 + s[at + 1] * 256 + s[at + 2]
    } else {
        s[at] * 16777216 + s[at + 1] * 65536 + s[at + 2] * 256 + s[at + 3]
    }
}

/// The header whose content starts at `start` and is `len` bytes long, if that
/// content lies within `limit`; `pos` is where the element began.
pub open spec fn spec_bounded_header(
    tag: u8,
    pos: int,
    start: int,
    len: int,
    limit: int,
) -> Result<Header, MalformedEncoding> {
    if len > limit - start {
        Err(malformed(pos + 1, Reason::LengthOverrun))
    } else {
        Ok(Header { at: pos as usize, tag, start: start as usize, end: (start + len) as usize })
    }
}

/// The header of the element that starts at `pos` within `s[..limit]`.
#[verifier::opaque]
pub open spec fn spec_read_header(s: Seq<u8>, pos: usize, limit: usize, strict: bool) -> Result<
    Header,
    MalformedEncoding,
> {
    if pos >= limit || limit > s.len() {
        Err(malformed(pos as int, Reason::Truncated))
    } else if s[pos as int] % 32 == 31 {
        Err(malformed(pos as int, Reason::HighTagNumber))
    } else if pos + 1 >= limit {
        Err(malformed(pos + 1, Reason::TruncatedLength))
    } else {
        let first = s[pos + 1];
        if first < 128 {
            spec_bounded_header(s[pos as int], pos as int, pos + 2, first as int, limit as int)
        } else if first == 128 {
            Err(malformed(pos + 1, Reason::IndefiniteLength))
        } else if first - 128 > 4 {
            Err(malformed(pos + 1, Reason::LengthTooLarge))
        } else if pos + 2 + (first - 128) > limit {
            Err(malformed(pos + 1, Reason::TruncatedLength))
        } else {
            let count = first - 128;
            let len = spec_long_length(s, pos + 2, count);
            if strict && (s[pos + 2] == 0 || len < 128) {
                Err(malformed(pos + 1, Reason::NonMinimalLength))
            } else {
                spec_bounded_header(s[pos as int], pos as int, pos + 2 + count, len, limit as int)
            }
        }
    }
}

fn long_length(bytes: &[u8], at: usize, count: usize) -> (len: usize)
    requires
        1 <= count <= 4,
        at + count <= bytes@.len(),
    ensures
        len == spec_long_length(bytes@, at as int, count as int),
{
    let b0: usize = bytes[at] as usize;
    if count == 1 {
        b0
    } else if count == 2 {
        b0 * 256 + bytes[at + 1] as usize
    } else if count == 3 {
        b0 * 65536 + bytes[at + 1] as usize * 256 + bytes[at + 2] as usize
    } else {
        b0 * 16777216 + bytes[at + 1] as usize * 65536 + bytes[at + 2] as usize * 256
            + bytes[at + 3] as usize
    }
}

fn bounded_header(tag: u8, pos: usize, start: usize, len: usize, limit: usize) -> (r: Result<
    Header,
    MalformedEncoding,
>)
    requires
        pos < start <= limit,
    ensures
        r == spec_bounded_header(tag, pos as int, start as int, len as int, limit as int),
{
    if len > limit - start {
        Err(MalformedEncoding { offset: pos + 1, reason: Reason::LengthOverrun })
    } else {
        Ok(Header { at: pos, tag, start, end: start + len })
    }
}

/// Reads the header of the element that starts at `pos`, within the first
/// `limit` bytes of `bytes`.
pub fn read_header(bytes: &[u8], pos: usize, limit: usize, strict: bool) -> (r: Result<
    Header,
    MalformedEncoding,
>)
    ensures
        r == spec_read_header(bytes@, pos, limit, strict),
        r is Ok ==> r->Ok_0.at == pos && pos + 2 <= r->Ok_0.start <= r->Ok_0.end <= limit
            <= bytes@.len(),
{
    reveal(spec_read_header);
    if pos >= limit || limit > bytes.len() {
        return Err(MalformedEncoding { offset: pos, reason: Reason::Truncated });
    }
    let tag: u8 = bytes[pos];
    if tag % 32 == 31 {
        return Err(MalformedEncoding { offset: pos, reason: Reason::HighTagNumber });
    }
    if pos + 1 >= limit {
        return Err(MalformedEncoding { offset: pos + 1, reason: Reason::TruncatedLength });
    }
    let first: u8 = bytes[pos + 1];
    if first < 128 {
        return bounded_header(tag, pos, pos + 2, first as usize, limit);
    }
    if first == 128 {
        return Err(MalformedEncoding { offset: pos + 1, reason: Reason::IndefiniteLength });
    }
    let count: usize = (first - 128) as usize;
    if count > 4 {
        return Err(MalformedEncoding { offset: pos + 1, reason: Reason::LengthTooLarge });
    }
    if count > limit - pos - 2 {
        return Err(MalformedEncoding { offset: pos + 1, reason: Reason::TruncatedLength });
    }
    let len: usize = long_length(bytes, pos + 2, count);
    if strict && (bytes[pos + 2] == 0 || len < 128) {
        return Err(MalformedEncoding { offset: pos + 1, reason: Reason::NonMinimalLength });
    }
    bounded_header(tag, pos, pos + 2 + count, len, limit)
}

/// What is rejected whatever follows: an element that begins where nothing is
/// left, a length field that is cut short, the indefinite form, and a length
/// that overruns what is left.
pub proof fn lemma_header_rejections(s: Seq<u8>, pos: usize, limit: usize, strict: bool)
    requires
        limit <= s.len(),
    ensures
        pos >= limit ==> spec_read_header(s, pos, limit, strict) == Err::<
            Header,
            MalformedEncoding,
        >(malformed(pos as int, Reason::Truncated)),
        pos + 1 == limit && s[pos as int] % 32 != 31 ==> spec_read_header(s, pos, limit, strict)
            == Err::<Header, MalformedEncoding>(malformed(pos + 1, Reason::TruncatedLength)),
        pos + 1 < limit && s[pos as int] % 32 != 31 && s[pos + 1] == 128 ==> spec_read_header(
            s,
            pos,
            limit,
            strict,
        ) == Err::<Header, MalformedEncoding>(malformed(pos + 1, Reason::IndefiniteLength)),
        pos + 1 < limit && s[pos as int] % 32 != 31 && s[pos + 1] < 128 && s[pos + 1] > limit - (pos
            + 2) ==> spec_read_header(s, pos, limit, strict) == Err::<Header, MalformedEncoding>(
            malformed(pos + 1, Reason::LengthOverrun),
        ),
{
    reveal(spec_read_header);
}

/// A header that was read lies within its limit, past where it began.
pub proof fn lemma_header_bounds(s: Seq<u8>, pos: usize, limit: usize, strict: bool)
    ensures
        match spec_read_header(s, pos, limit, strict) {
            Ok(h) => h.at == pos && pos + 2 <= h.start <= h.end <= limit && limit <= s.len()
                && h.tag == s[pos as int],
            Err(e) => pos <= e.offset <= pos + 1,
        },
{
    reveal(spec_read_header);
}

/// The tag of a boolean.
pub const TAG_BOOLEAN: u8 = 0x01;

/// The tag of an integer.
pub const TAG_INTEGER: u8 = 0x02;

/// The tag of a bit string.
pub const TAG_BIT_STRING: u8 = 0x03;

/// The tag of an octet string.
pub const TAG_OCTET_STRING: u8 = 0x04;

/// The tag of an object identifier.
pub const TAG_OID: u8 = 0x06;

/// The tag of a sequence.
pub const TAG_SEQUENCE: u8 = 0x30;

/// The tag of a set.
pub const TAG_SET: u8 = 0x31;

/// The header of the element at `pos`, which must carry the tag `tag`.
pub open spec fn spec_expect(s: Seq<u8>, pos: usize, limit: usize, tag: u8, strict: bool) -> Result<
    Header,
    MalformedEncoding,
> {
    match spec_read_header(s, pos, limit, strict) {
        Err(e) => Err(e),
        Ok(h) => if h.tag == tag {
            Ok(h)
        } else {
            Err(malformed(pos as int, Reason::UnexpectedTag))
        },
    }
}

/// Reads the header of the element at `pos` and checks that its tag is `tag`.
pub fn expect(bytes: &[u8], pos: usize, limit: usize, tag: u8, strict: bool) -> (r: Result<
    Header,
    MalformedEncoding,
>)
    ensures
        r == spec_expect(bytes@, pos, limit, tag, strict),
        r is Ok ==> r->Ok_0.at == pos && r->Ok_0.tag == tag && pos + 2 <= r->Ok_0.start
            <= r->Ok_0.end <= limit <= bytes@.len(),
{
    let h = read_header(bytes, pos, limit, strict)?;
    if h.tag == tag {
        Ok(h)
    } else {
        Err(MalformedEncoding { offset: pos, reason: Reason::UnexpectedTag })
    }
}

/// The content bytes of the element with header `h`.
pub open spec fn spec_content(s: Seq<u8>, h: Header) -> Seq<u8> {
    s.subrange(h.start as int, h.end as int)
}

/// The first byte of `c` adds nothing to the number that `c` writes in two's
/// complement.
pub open spec fn spec_has_redundant_lead(c: Seq<u8>) -> bool {
    c.len() >= 2 && ((c[0] == 0 && c[1] < 128) || (c[0] == 255 && c[1] >= 128))
}

/// The shortest two's complement writing of the number that `c` writes.
pub open spec fn spec_minimal_integer(c: Seq<u8>) -> Seq<u8>
    decreases c.len(),
{
    if spec_has_redundant_lead(c) {
        spec_minimal_integer(c.skip(1))
    } else {
        c
    }
}

/// 256 to the power of `n`.
pub open spec fn spec_pow256(n: nat) -> int
    decreases n,
{
    if n == 0 {
        1
    } else {
        256 * spec_pow256((n - 1) as nat)
    }
}

/// The number that the bytes `c` write without a sign, most significant
/// first.
pub open spec fn spec_unsigned_value(c: Seq<u8>) -> int
    decreases c.len(),
{
    if c.len() == 0 {
        0
    } else {
        c[0] * spec_pow256((c.len() - 1) as nat) + spec_unsigned_value(c.skip(1))
    }
}

/// The number that the bytes `c` write in two's complement.
pub open spec fn spec_integer_value(c: Seq<u8>) -> int {
    if c.len() > 0 && c[0] >= 128 {
        spec_unsigned_value(c) - spec_pow256(c.len())
    } else {
        spec_unsigned_value(c)
    }
}

/// The shortest writing of a number writes the same number, and has no
/// redundant leading byte.
pub proof fn lemma_minimal_integer_keeps_value(c: Seq<u8>)
    ensures
        spec_integer_value(spec_minimal_integer(c)) == spec_integer_value(c),
        !spec_has_redundant_lead(spec_minimal_integer(c)),
        c.len() > 0 ==> spec_minimal_integer(c).len() > 0,
    decreases c.len(),
{
    if spec_has_redundant_lead(c) {
        let rest = c.skip(1);
        lemma_minimal_integer_keeps_value(rest);
        assert(rest[0] == c[1]);
        assert(spec_pow256(c.len()) == 256 * spec_pow256((c.len() - 1) as nat));
        assert(spec_unsigned_value(c) == c[0] * spec_pow256((c.len() - 1) as nat)
            + spec_unsigned_value(rest));
        if c[0] == 0 {
            assert(0 * spec_pow256((c.len() - 1) as nat) == 0);
        } else {
            assert(255 * spec_pow256((c.len() - 1) as nat) - 256 * spec_pow256(
                (c.len() - 1) as nat,
            ) == -spec_pow256((c.len() - 1) as nat));
        }
    }
}

/// The powers of 256 are positive and grow with the exponent.
pub proof fn lemma_pow256_grows(n: nat, m: nat)
    requires
        n <= m,
    ensures
        0 < spec_pow256(n) <= spec_pow256(m),
    decreases m,
{
    if m > 0 {
        if n < m {
            lemma_pow256_grows(n, (m - 1) as nat);
        } else {
            lemma_pow256_grows((n - 1) as nat, (m - 1) as nat);
        }
    }
}

/// Bytes read without a sign write a number below 256 to the power of their
/// count.
pub proof fn lemma_unsigned_bounds(c: Seq<u8>)
    ensures
        0 <= spec_unsigned_value(c) < spec_pow256(c.len()),
    decreases c.len(),
{
    if c.len() > 0 {
        let p = spec_pow256((c.len() - 1) as nat);
        lemma_unsigned_bounds(c.skip(1));
        lemma_pow256_grows(0, (c.len() - 1) as nat);
        assert(0 <= c[0] * p <= 255 * p) by (nonlinear_arith)
            requires
                0 <= c[0] <= 255,
                p > 0,
        ;
    }
}

/// A number written in two's complement with `n` bytes lies between minus
/// and plus half of 256 to the power of `n`, and is negative exactly when its
/// first byte is 128 or more.
pub proof fn lemma_integer_range(c: Seq<u8>)
    requires
        c.len() > 0,
    ensures
        -128 * spec_pow256((c.len() - 1) as nat) <= spec_integer_value(c) < 128 * spec_pow256(
            (c.len() - 1) as nat,
        ),
        spec_integer_value(c) < 0 <==> c[0] >= 128,
{
    let p = spec_pow256((c.len() - 1) as nat);
    lemma_unsigned_bounds(c.skip(1));
    lemma_pow256_grows(0, (c.len() - 1) as nat);
    assert(spec_pow256(c.len()) == 256 * p);
    if c[0] < 128 {
        assert(0 <= c[0] * p <= 127 * p) by (nonlinear_arith)
            requires
                0 <= c[0] <= 127,
                p > 0,
        ;
    } else {
        assert(128 * p <= c[0] * p <= 255 * p) by (nonlinear_arith)
            requires
                128 <= c[0] <= 255,
                p > 0,
        ;
    }
}

/// A number in its shortest writing with two bytes or more does not fit in
/// one byte less.
pub proof fn lemma_shortest_needs_its_length(c: Seq<u8>)
    requires
        c.len() >= 2,
        !spec_has_redundant_lead(c),
    ensures
        spec_integer_value(c) >= 128 * spec_pow256((c.len() - 2) as nat) || spec_integer_value(c)
            < -128 * spec_pow256((c.len() - 2) as nat),
{
    let q = spec_pow256((c.len() - 2) as nat);
    let p = spec_pow256((c.len() - 1) as nat);
    let rest = c.skip(1);
    assert(p == 256 * q);
    assert(spec_pow256(c.len()) == 256 * p);
    assert(rest[0] == c[1]);
    assert(spec_unsigned_value(rest) == c[1] * q + spec_unsigned_value(rest.skip(1)));
    lemma_unsigned_bounds(rest.skip(1));
    lemma_pow256_grows(0, (c.len() - 2) as nat);
    if c[0] == 0 {
        assert(c[0] * p == 0);
        assert(c[1] * q >= 128 * q) by (nonlinear_arith)
            requires
                c[1] >= 128,
                q > 0,
        ;
    } else if c[0] < 128 {
        assert(c[0] * p >= p) by (nonlinear_arith)
            requires
                c[0] >= 1,
                p > 0,
        ;
        assert(c[1] * q >= 0) by (nonlinear_arith)
            requires
                c[1] >= 0,
                q > 0,
        ;
    } else if c[0] == 255 {
        assert(c[0] * p == 255 * p);
        assert(c[1] * q <= 127 * q) by (nonlinear_arith)
            requires
                c[1] <= 127,
                q > 0,
        ;
    } else {
        assert(c[0] * p <= 254 * p) by (nonlinear_arith)
            requires
                c[0] <= 254,
                p > 0,
        ;
        assert(c[1] * q <= 255 * q) by (nonlinear_arith)
            requires
                c[1] <= 255,
                q > 0,
        ;
    }
}

/// Two byte strings of the same length that write the same number without a
/// sign are the same.
pub proof fn lemma_unsigned_is_injective(a: Seq<u8>, b: Seq<u8>)
    requires
        a.len() == b.len(),
        spec_unsigned_value(a) == spec_unsigned_value(b),
    ensures
        a == b,
    decreases a.len(),
{
    if a.len() > 0 {
        let p = spec_pow256((a.len() - 1) as nat);
        let x = spec_unsigned_value(a.skip(1));
        let y = spec_unsigned_value(b.skip(1));
        lemma_unsigned_bounds(a.skip(1));
        lemma_unsigned_bounds(b.skip(1));
        assert(a[0] == b[0]) by (nonlinear_arith)
            requires
                a[0] * p + x == b[0] * p + y,
                0 <= x < p,
                0 <= y < p,
        ;
        lemma_unsigned_is_injective(a.skip(1), b.skip(1));
        assert forall|i: int| 0 <= i < a.len() implies a[i] == b[i] by {
            if i > 0 {
                assert(a[i] == a.skip(1)[i - 1]);
                assert(b[i] == b.skip(1)[i - 1]);
            }
        }
    }
    assert(a =~= b);
}

/// Every number has one shortest writing: two shortest writings are the same
/// bytes exactly when they write the same number.
pub proof fn lemma_shortest_writing_is_unique(a: Seq<u8>, b: Seq<u8>)
    requires
        a.len() > 0,
        b.len() > 0,
        !spec_has_redundant_lead(a),
        !spec_has_redundant_lead(b),
    ensures
        a == b <==> spec_integer_value(a) == spec_integer_value(b),
{
    if spec_integer_value(a) == spec_integer_value(b) {
        lemma_integer_range(a);
        lemma_integer_range(b);
        if a.len() < b.len() {
            lemma_shortest_needs_its_length(b);
            lemma_pow256_grows((a.len() - 1) as nat, (b.len() - 2) as nat);
        } else if b.len() < a.len() {
            lemma_shortest_needs_its_length(a);
            lemma_pow256_grows((b.len() - 1) as nat, (a.len() - 2) as nat);
        }
        assert(a.len() == b.len());
        lemma_unsigned_is_injective(a, b);
    }
}

/// The number that the integer element with header `h` holds, in its
/// shortest writing.
pub open spec fn spec_integer(s: Seq<u8>, h: Header, strict: bool) -> Result<
    Seq<u8>,
    MalformedEncoding,
> {
    let c = spec_content(s, h);
    if c.len() == 0 {
        Err(malformed(h.at as int, Reason::EmptyInteger))
    } else if strict && spec_has_redundant_lead(c) {
        Err(malformed(h.start as int, Reason::NonCanonicalInteger))
    } else {
        Ok(spec_minimal_integer(c))
    }
}

/// Reads the content of an integer element and drops its redundant leading
/// bytes; in strict mode such bytes are an error.
pub fn parse_integer(bytes: &[u8], h: Header, strict: bool) -> (r: Result<
    Vec<u8>,
    MalformedEncoding,
>)
    requires
        h.start <= h.end <= bytes@.len(),
    ensures
        r is Ok ==> spec_integer(bytes@, h, strict) == Ok::<Seq<u8>, MalformedEncoding>(r->Ok_0@),
        r is Err ==> spec_integer(bytes@, h, strict) == Err::<Seq<u8>, MalformedEncoding>(
            r->Err_0,
        ),
{
    if h.start == h.end {
        return Err(MalformedEncoding { offset: h.at, reason: Reason::EmptyInteger });
    }
    let ghost c = spec_content(bytes@, h);
    let mut i: usize = h.start;
    while i + 1 < h.end && ((bytes[i] == 0 && bytes[i + 1] < 128) || (bytes[i] == 255
        && bytes[i + 1] >= 128))
        invariant
            h.start <= i < h.end <= bytes@.len(),
            c == spec_content(bytes@, h),
            spec_minimal_integer(c) == spec_minimal_integer(
                bytes@.subrange(i as int, h.end as int),
            ),
            strict ==> i == h.start,
        decreases h.end - i,
    {
        if strict {
            return Err(MalformedEncoding { offset: h.start, reason: Reason::NonCanonicalInteger });
        }
        assert(bytes@.subrange(i as int, h.end as int).skip(1) =~= bytes@.subrange(
            i + 1,
            h.end as int,
        ));
        i += 1;
    }
    Ok(copy_range(bytes, i, h.end))
}

/// The content of the object identifier element with header `h`.
pub open spec fn spec_oid(s: Seq<u8>, h: Header) -> Result<Seq<u8>, MalformedEncoding> {
    if h.start == h.end {
        Err(malformed(h.at as int, Reason::EmptyOid))
    } else {
        Ok(spec_content(s, h))
    }
}

/// Reads the content of an object identifier element.
pub fn parse_oid(bytes: &[u8], h: Header) -> (r: Result<Vec<u8>, MalformedEncoding>)
    requires
        h.start <= h.end <= bytes@.len(),
    ensures
        r is Ok ==> spec_oid(bytes@, h) == Ok::<Seq<u8>, MalformedEncoding>(r->Ok_0@),
        r is Err ==> spec_oid(bytes@, h) == Err::<Seq<u8>, MalformedEncoding>(r->Err_0),
{
    if h.start == h.end {
        Err(MalformedEncoding { offset: h.at, reason: Reason::EmptyOid })
    } else {
        Ok(copy_range(bytes, h.start, h.end))
    }
}

/// The truth value of the boolean element with header `h`: one byte, false
/// when it is zero; in strict mode a true value is written as 255.
pub open spec fn spec_boolean(s: Seq<u8>, h: Header, strict: bool) -> Result<
    bool,
    MalformedEncoding,
> {
    if h.end - h.start != 1 {
        Err(malformed(h.at as int, Reason::InvalidBoolean))
    } else if strict && s[h.start as int] != 0 && s[h.start as int] != 255 {
        Err(malformed(h.start as int, Reason::InvalidBoolean))
    } else {
        Ok(s[h.start as int] != 0)
    }
}

/// Reads the truth value of a boolean element.
pub fn parse_boolean(bytes: &[u8], h: Header, strict: bool) -> (r: Result<bool, MalformedEncoding>)
    requires
        h.start <= h.end <= bytes@.len(),
    ensures
        r == spec_boolean(bytes@, h, strict),
{
    if h.end - h.start != 1 {
        Err(MalformedEncoding { offset: h.at, reason: Reason::InvalidBoolean })
    } else if strict && bytes[h.start] != 0 && bytes[h.start] != 255 {
        Err(MalformedEncoding { offset: h.start, reason: Reason::InvalidBoolean })
    } else {
        Ok(bytes[h.start] != 0)
    }
}

/// The bit string element with header `h`: the count of unused bits in its
/// last byte, at most 7 and zero where no byte follows, then the bytes.
pub open spec fn spec_bit_string(s: Seq<u8>, h: Header) -> Result<
    (u8, Seq<u8>),
    MalformedEncoding,
> {
    if h.start == h.end {
        Err(malformed(h.at as int, Reason::InvalidBitString))
    } else if s[h.start as int] > 7 || (h.end - h.start == 1 && s[h.start as int] != 0) {
        Err(malformed(h.start as int, Reason::InvalidBitString))
    } else {
        Ok((s[h.start as int], s.subrange(h.start + 1, h.end as int)))
    }
}

/// Reads a bit string element: its count of unused bits and its bytes.
pub fn parse_bit_string(bytes: &[u8], h: Header) -> (r: Result<(u8, Vec<u8>), MalformedEncoding>)
    requires
        h.start <= h.end <= bytes@.len(),
    ensures
        r is Ok ==> spec_bit_string(bytes@, h) == Ok::<(u8, Seq<u8>), MalformedEncoding>(
            (r->Ok_0.0, r->Ok_0.1@),
        ),
        r is Err ==> spec_bit_string(bytes@, h) == Err::<(u8, Seq<u8>), MalformedEncoding>(
            r->Err_0,
        ),
{
    if h.start == h.end {
        Err(MalformedEncoding { offset: h.at, reason: Reason::InvalidBitString })
    } else if bytes[h.start] > 7 || (h.end - h.start == 1 && bytes[h.start] != 0) {
        Err(MalformedEncoding { offset: h.start, reason: Reason::InvalidBitString })
    } else {
        Ok((bytes[h.start], copy_range(bytes, h.start + 1, h.end)))
    }
}

} // verus!
