use vstd::prelude::*;
use vstd::string::StringSliceAdditionalSpecFns;
use crate::bytes::append;

verus! {

/// The bytes of a piece of text.
pub open spec fn text(label: &str) -> Seq<u8> {
    label.spec_bytes()
}

/// The lower-case hexadecimal digit for `n`, which is below 16.
pub open spec fn spec_hex_digit(n: u8) -> u8 {
    if n < 10 {
        (48 + n) as u8
    } else {
        (87 + n) as u8
    }
}

/// The bytes of `s` in hexadecimal, two digits each.
pub open spec fn spec_hex(s: Seq<u8>) -> Seq<u8>
    decreases s.len(),
{
    if s.len() == 0 {
        Seq::empty()
    } else {
        spec_hex(s.drop_last()) + seq![spec_hex_digit(s.last() / 16), spec_hex_digit(s.last() % 16)]
    }
}

fn hex_digit(n: u8) -> (r: u8)
    requires
        n < 16,
    ensures
        r == spec_hex_digit(n),
{
    if n < 10 {
        48 + n
    } else {
        87 + n
    }
}

/// Appends the bytes of `s` in hexadecimal to `out`.
pub fn write_hex(out: &mut Vec<u8>, s: &[u8])
    ensures
        final(out)@ == old(out)@ + spec_hex(s@),
{
    let mut i: usize = 0;
    assert(s@.subrange(0, 0) =~= Seq::<u8>::empty());
    assert(out@ =~= old(out)@ + Seq::<u8>::empty());
    while i < s.len()
        invariant
            i <= s@.len(),
            out@ == old(out)@ + spec_hex(s@.subrange(0, i as int)),
        decreases s@.len() - i,
    {
        let b: u8 = s[i];
        proof {
            let next = s@.subrange(0, i + 1);
            assert(next.drop_last() =~= s@.subrange(0, i as int));
            assert(next.last() == b);
            assert(old(out)@ + spec_hex(next) =~= (old(out)@ + spec_hex(s@.subrange(0, i as int)))
                + seq![spec_hex_digit(b / 16), spec_hex_digit(b % 16)]);
        }
        out.push(hex_digit(b / 16));
        out.push(hex_digit(b % 16));
        i += 1;
        assert(out@ =~= old(out)@ + spec_hex(s@.subrange(0, i as int)));
    }
    assert(s@.subrange(0, s@.len() as int) =~= s@);
}

/// The decimal digits of `n`, without leading zeros.
pub open spec fn spec_decimal(n: nat) -> Seq<u8>
    decreases n,
{
    if n < 10 {
        seq![(48 + n) as u8]
    } else {
        spec_decimal(n / 10).push((48 + n % 10) as u8)
    }
}

/// Appends the decimal digits of `n` to `out`.
pub fn write_decimal(out: &mut Vec<u8>, n: u128)
    ensures
        final(out)@ == old(out)@ + spec_decimal(n as nat),
    decreases n,
{
    if n >= 10 {
        write_decimal(out, n / 10);
    }
    out.push(48 + (n % 10) as u8);
    assert(out@ =~= old(out)@ + spec_decimal(n as nat));
}

/// The last two decimal digits of `n`.
pub open spec fn spec_two_decimals(n: nat) -> Seq<u8> {
    seq![(48 + (n / 10) % 10) as u8, (48 + n % 10) as u8]
}

/// Appends the last two decimal digits of `n` to `out`.
pub fn write_two_decimals(out: &mut Vec<u8>, n: u16)
    ensures
        final(out)@ == old(out)@ + spec_two_decimals(n as nat),
{
    out.push(48 + ((n / 10) % 10) as u8);
    out.push(48 + (n % 10) as u8);
    assert(out@ =~= old(out)@ + spec_two_decimals(n as nat));
}

/// Every byte of `s` is a printable character or a space.
pub open spec fn spec_printable(s: Seq<u8>) -> bool {
    forall|i: int| 0 <= i < s.len() ==> 32 <= #[trigger] s[i] <= 126
}

/// Tells whether every byte of `s` is a printable character or a space.
pub fn printable(s: &[u8]) -> (r: bool)
    ensures
        r == spec_printable(s@),
{
    let mut i: usize = 0;
    while i < s.len()
        invariant
            i <= s@.len(),
            forall|k: int| 0 <= k < i ==> 32 <= #[trigger] s@[k] <= 126,
        decreases s@.len() - i,
    {
        if s[i] < 32 || s[i] > 126 {
            return false;
        }
        i += 1;
    }
    true
}

/// A value as text: its bytes where all are printable, else a number sign and
/// the bytes in hexadecimal.
pub open spec fn spec_value_text(s: Seq<u8>) -> Seq<u8> {
    if spec_printable(s) {
        s
    } else {
        seq![35u8] + spec_hex(s)
    }
}

/// Appends a value as text to `out`.
pub fn write_value(out: &mut Vec<u8>, s: &[u8])
    ensures
        final(out)@ == old(out)@ + spec_value_text(s@),
{
    if printable(s) {
        append(out, s);
    } else {
        out.push(35);
        write_hex(out, s);
        assert(out@ =~= old(out)@ + spec_value_text(s@));
    }
}

/// The number of an object identifier's component after one more byte `b`,
/// where `value` is the number that the bytes before it gave: seven more bits,
/// and 18446744073709551615 for every number above that.
pub open spec fn spec_arc_step(value: u64, b: u8) -> u64 {
    if value > 0x01ff_ffff_ffff_ffff {
        u64::MAX
    } else {
        (value * 128 + b % 128) as u64
    }
}

/// The first two components of an object identifier, which its first number
/// `v` holds together.
pub open spec fn spec_first_arcs(v: u64) -> Seq<u8> {
    if v < 40 {
        seq![48u8, 46u8] + spec_decimal(v as nat)
    } else if v < 80 {
        seq![49u8, 46u8] + spec_decimal((v - 40) as nat)
    } else {
        seq![50u8, 46u8] + spec_decimal((v - 80) as nat)
    }
}

/// The components that `oid[pos..]` holds, in decimal with dots between them;
/// `value` is the number that the bytes of the current component gave so far,
/// and `first` says that no component is complete yet. Bytes of a component
/// that has no last byte give nothing.
pub open spec fn spec_dotted_from(oid: Seq<u8>, pos: int, value: u64, first: bool) -> Seq<u8>
    decreases oid.len() - pos,
{
    if pos < 0 || pos >= oid.len() {
        Seq::empty()
    } else {
        let v = spec_arc_step(value, oid[pos]);
        if oid[pos] >= 128 {
            spec_dotted_from(oid, pos + 1, v, first)
        } else if first {
            spec_first_arcs(v) + spec_dotted_from(oid, pos + 1, 0, false)
        } else {
            seq![46u8] + spec_decimal(v as nat) + spec_dotted_from(oid, pos + 1, 0, false)
        }
    }
}

/// An object identifier in dotted decimal, from the content of its encoding.
pub open spec fn spec_dotted(oid: Seq<u8>) -> Seq<u8> {
    spec_dotted_from(oid, 0, 0, true)
}

fn arc_step(value: u64, b: u8) -> (r: u64)
    ensures
        r == spec_arc_step(value, b),
{
    if value > 0x01ff_ffff_ffff_ffff {
        u64::MAX
    } else {
        value * 128 + (b % 128) as u64
    }
}

fn write_first_arcs(out: &mut Vec<u8>, v: u64)
    ensures
        final(out)@ == old(out)@ + spec_first_arcs(v),
{
    if v < 40 {
        out.push(48);
        out.push(46);
        write_decimal(out, v as u128);
    } else if v < 80 {
        out.push(49);
        out.push(46);
        write_decimal(out, (v - 40) as u128);
    } else {
        out.push(50);
        out.push(46);
        write_decimal(out, (v - 80) as u128);
    }
    assert(out@ =~= old(out)@ + spec_first_arcs(v));
}

/// Appends an object identifier in dotted decimal to `out`.
pub fn write_dotted(out: &mut Vec<u8>, oid: &[u8])
    ensures
        final(out)@ == old(out)@ + spec_dotted(oid@),
{
    let mut i: usize = 0;
    let mut value: u64 = 0;
    let mut first: bool = true;
    while i < oid.len()
        invariant
            i <= oid@.len(),
            old(out)@ + spec_dotted(oid@) == out@ + spec_dotted_from(oid@, i as int, value, first),
        decreases oid@.len() - i,
    {
        let b: u8 = oid[i];
        let v: u64 = arc_step(value, b);
        let ghost before = out@;
        let ghost rest = spec_dotted_from(oid@, i + 1, 0, false);
        if b >= 128 {
            value = v;
        } else if first {
            write_first_arcs(out, v);
            assert(before + (spec_first_arcs(v) + rest) =~= out@ + rest);
            value = 0;
            first = false;
        } else {
            out.push(46);
            write_decimal(out, v as u128);
            assert(before + (seq![46u8] + spec_decimal(v as nat) + rest) =~= out@ + rest);
            value = 0;
        }
        i += 1;
    }
    assert(out@ + Seq::<u8>::empty() =~= out@);
}

} // verus!
