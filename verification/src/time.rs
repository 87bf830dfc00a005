use vstd::prelude::*;
use crate::der::{malformed, Header, MalformedEncoding, Reason};

verus! {

/// An instant in UTC, to the second, as the calendar writes it.
#[derive(Clone, Copy, Debug, PartialEq, Eq, Structural)]
pub struct Timestamp {
    pub year: u16,
    pub month: u8,
    pub day: u8,
    pub hour: u8,
    pub minute: u8,
    pub second: u8,
}

/// The tag of a time written with a two-digit year.
pub const TAG_UTC_TIME: u8 = 0x17;

/// The tag of a time written with a four-digit year.
pub const TAG_GENERALIZED_TIME: u8 = 0x18;

/// The year `year` has a 29th of February.
pub open spec fn spec_is_leap_year(year: int) -> bool {
    year % 4 == 0 && (year % 100 != 0 || year % 400 == 0)
}

/// The number of days of the month `month` in the year `year`.
pub open spec fn spec_days_in_month(year: int, month: int) -> int {
    if month == 2 {
        if spec_is_leap_year(year) {
            29
        } else {
            28
        }
    } else if month == 4 || month == 6 || month == 9 || month == 11 {
        30
    } else {
        31
    }
}

impl Timestamp {
    /// The fields name an instant that the calendar has.
    pub open spec fn is_real(&self) -> bool {
        &&& self.year <= 9999
        &&& 1 <= self.month <= 12
        &&& 1 <= self.day <= spec_days_in_month(self.year as int, self.month as int)
        &&& self.hour <= 23
        &&& self.minute <= 59
        &&& self.second <= 59
    }

    /// The instant as the number that its digits `YYYYMMDDHHMMSS` write: of two
    /// real instants the earlier has the smaller number.
    pub open spec fn ordinal(&self) -> int {
        self.year * 10000000000 + self.month * 100000000 + self.day * 1000000 + self.hour * 10000
            + self.minute * 100 + self.second
    }

    /// `self` is not later than `other`.
    pub open spec fn spec_not_after(&self, other: &Timestamp) -> bool {
        self.ordinal() <= other.ordinal()
    }

    /// Tells whether `self` is not later than `other`.
    pub fn not_after(&self, other: &Timestamp) -> (r: bool)
        ensures
            r == self.spec_not_after(other),
    {
        let a: u64 = self.year as u64 * 10000000000 + self.month as u64 * 100000000 + self.day as u64
            * 1000000 + self.hour as u64 * 10000 + self.minute as u64 * 100 + self.second as u64;
        let b: u64 = other.year as u64 * 10000000000 + other.month as u64 * 100000000
            + other.day as u64 * 1000000 + other.hour as u64 * 10000 + other.minute as u64 * 100
            + other.second as u64;
        a <= b
    }
}

/// Among real instants, the order of the ordinals is the order of the fields,
/// read from the year down to the second.
pub proof fn lemma_ordinal_is_calendar_order(a: Timestamp, b: Timestamp)
    requires
        a.is_real(),
        b.is_real(),
    ensures
        a.ordinal() == b.ordinal() <==> a == b,
        a.ordinal() < b.ordinal() <==> (a.year < b.year || (a.year == b.year && (a.month < b.month
            || (a.month == b.month && (a.day < b.day || (a.day == b.day && (a.hour < b.hour || (a.hour
            == b.hour && (a.minute < b.minute || (a.minute == b.minute && a.second
            < b.second)))))))))),
{
}

/// The byte `b` is a decimal digit.
pub open spec fn spec_is_digit(b: u8) -> bool {
    48 <= b <= 57
}

/// All of `s[from..to]` are decimal digits.
pub open spec fn spec_all_digits(s: Seq<u8>, from: int, to: int) -> bool {
    forall|i: int| from <= i < to ==> spec_is_digit(#[trigger] s[i])
}

/// The number that the two digits at `at` write.
pub open spec fn spec_two_digits(s: Seq<u8>, at: int) -> int {
    (s[at] - 48) * 10 + (s[at + 1] - 48)
}

/// The instant whose year is `year` and whose other fields are the five pairs
/// of digits that start at `at`.
pub open spec fn spec_timestamp_at(s: Seq<u8>, year: int, at: int) -> Timestamp {
    Timestamp {
        year: year as u16,
        month: spec_two_digits(s, at) as u8,
        day: spec_two_digits(s, at + 2) as u8,
        hour: spec_two_digits(s, at + 4) as u8,
        minute: spec_two_digits(s, at + 6) as u8,
        second: spec_two_digits(s, at + 8) as u8,
    }
}

/// The year of a time with a two-digit year: 50 to 99 lie in the twentieth
/// century, 00 to 49 in the twenty-first.
pub open spec fn spec_pivot_year(two: int) -> int {
    if two >= 50 {
        1900 + two
    } else {
        2000 + two
    }
}

/// The instant that the time element with header `h` writes.
pub open spec fn spec_parse_time(s: Seq<u8>, h: Header) -> Result<Timestamp, MalformedEncoding> {
    if h.tag == TAG_UTC_TIME {
        if h.end - h.start != 13 || !spec_all_digits(s, h.start as int, h.start + 12) || s[h.start
            + 12] != 90 {
            Err(malformed(h.start as int, Reason::InvalidTime))
        } else {
            let t = spec_timestamp_at(
                s,
                spec_pivot_year(spec_two_digits(s, h.start as int)),
                h.start + 2,
            );
            if t.is_real() {
                Ok(t)
            } else {
                Err(malformed(h.start as int, Reason::InvalidTime))
            }
        }
    } else if h.tag == TAG_GENERALIZED_TIME {
        if h.end - h.start != 15 || !spec_all_digits(s, h.start as int, h.start + 14) || s[h.start
            + 14] != 90 {
            Err(malformed(h.start as int, Reason::InvalidTime))
        } else {
            let t = spec_timestamp_at(
                s,
                spec_two_digits(s, h.start as int) * 100 + spec_two_digits(s, h.start + 2),
                h.start + 4,
            );
            if t.is_real() {
                Ok(t)
            } else {
                Err(malformed(h.start as int, Reason::InvalidTime))
            }
        }
    } else {
        Err(malformed(h.at as int, Reason::UnexpectedTag))
    }
}

fn all_digits(bytes: &[u8], from: usize, to: usize) -> (r: bool)
    requires
        from <= to <= bytes@.len(),
    ensures
        r == spec_all_digits(bytes@, from as int, to as int),
{
    let mut i: usize = from;
    while i < to
        invariant
            from <= i <= to <= bytes@.len(),
            spec_all_digits(bytes@, from as int, i as int),
        decreases to - i,
    {
        if bytes[i] < 48 || bytes[i] > 57 {
            return false;
        }
        i += 1;
    }
    true
}

fn two_digits(bytes: &[u8], at: usize) -> (r: u8)
    requires
        at + 2 <= bytes@.len(),
        spec_is_digit(bytes@[at as int]),
        spec_is_digit(bytes@[at + 1]),
    ensures
        r == spec_two_digits(bytes@, at as int),
        r <= 99,
{
    (bytes[at] - 48) * 10 + (bytes[at + 1] - 48)
}

fn is_leap_year(year: u16) -> (r: bool)
    ensures
        r == spec_is_leap_year(year as int),
{
    year % 4 == 0 && (year % 100 != 0 || year % 400 == 0)
}

fn days_in_month(year: u16, month: u8) -> (r: u8)
    ensures
        r == spec_days_in_month(year as int, month as int),
{
    if month == 2 {
        if is_leap_year(year) {
            29
        } else {
            28
        }
    } else if month == 4 || month == 6 || month == 9 || month == 11 {
        30
    } else {
        31
    }
}

/// Reads the five pairs of digits at `at` and checks that, with `year`, they
/// name a real instant.
fn timestamp_at(bytes: &[u8], year: u16, at: usize, offset: usize) -> (r: Result<
    Timestamp,
    MalformedEncoding,
>)
    requires
        at + 10 <= bytes@.len(),
        spec_all_digits(bytes@, at as int, at + 10),
    ensures
        r == (if spec_timestamp_at(bytes@, year as int, at as int).is_real() {
            Ok::<Timestamp, MalformedEncoding>(spec_timestamp_at(bytes@, year as int, at as int))
        } else {
            Err(malformed(offset as int, Reason::InvalidTime))
        }),
{
    assert(at + 10 <= bytes.len());
    let month: u8 = two_digits(bytes, at);
    let day: u8 = two_digits(bytes, at + 2);
    let hour: u8 = two_digits(bytes, at + 4);
    let minute: u8 = two_digits(bytes, at + 6);
    let second: u8 = two_digits(bytes, at + 8);
    let t = Timestamp { year, month, day, hour, minute, second };
    if t.year <= 9999 && 1 <= t.month && t.month <= 12 && 1 <= t.day && t.day <= days_in_month(
        t.year,
        t.month,
    ) && t.hour <= 23 && t.minute <= 59 && t.second <= 59 {
        Ok(t)
    } else {
        Err(MalformedEncoding { offset, reason: Reason::InvalidTime })
    }
}

/// Reads the time element with header `h`.
pub fn parse_time(bytes: &[u8], h: Header) -> (r: Result<Timestamp, MalformedEncoding>)
    requires
        h.start <= h.end <= bytes@.len(),
    ensures
        r == spec_parse_time(bytes@, h),
        r is Ok ==> r->Ok_0.is_real(),
{
    if h.tag == TAG_UTC_TIME {
        if h.end - h.start != 13 || !all_digits(bytes, h.start, h.start + 12) || bytes[h.start + 12]
            != 90 {
            return Err(MalformedEncoding { offset: h.start, reason: Reason::InvalidTime });
        }
        let two: u8 = two_digits(bytes, h.start);
        let year: u16 = if two >= 50 {
            1900 + two as u16
        } else {
            2000 + two as u16
        };
        timestamp_at(bytes, year, h.start + 2, h.start)
    } else if h.tag == TAG_GENERALIZED_TIME {
        if h.end - h.start != 15 || !all_digits(bytes, h.start, h.start + 14) || bytes[h.start + 14]
            != 90 {
            return Err(MalformedEncoding { offset: h.start, reason: Reason::InvalidTime });
        }
        let century: u16 = two_digits(bytes, h.start) as u16;
        let year: u16 = century * 100 + two_digits(bytes, h.start + 2) as u16;
        timestamp_at(bytes, year, h.start + 4, h.start)
    } else {
        Err(MalformedEncoding { offset: h.at, reason: Reason::UnexpectedTag })
    }
}

} // verus!
