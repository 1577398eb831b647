//! An instant in UTC as calendar fields, and its RFC 3339 text.
//!
//! The text is `YYYY-MM-DDTHH:MM:SS`, an optional fraction of one to nine
//! digits behind a full stop, and the letter `Z`. It is written with no
//! fraction, or with three, six or nine digits, whichever is the shortest that
//! loses nothing.

use vstd::prelude::*;

verus! {

/// An instant in UTC, to the nanosecond.
#[derive(Clone, Copy, Debug, PartialEq, Eq, Structural)]
pub struct Timestamp {
    pub year: u16,
    pub month: u8,
    pub day: u8,
    pub hour: u8,
    pub minute: u8,
    pub second: u8,
    pub nanos: u32,
}

/// Whether the year has a 29th of February.
pub open spec fn is_leap_year(year: int) -> bool {
    year % 4 == 0 && (year % 100 != 0 || year % 400 == 0)
}

/// How many days the month of the year has.
pub open spec fn days_in_month(year: int, month: int) -> int {
    if month == 2 {
        if is_leap_year(year) {
            29
        } else {
            28
        }
    } else if month == 4 || month == 6 || month == 9 || month == 11 {
        30
    } else {
        31
    }
}

/// `10^width`.
pub open spec fn pow10(width: int) -> int
    decreases width,
{
    if width <= 0 {
        1
    } else {
        10 * pow10(width - 1)
    }
}

/// `value` in decimal on `width` digits, the most significant first.
pub open spec fn dec_digits(value: int, width: int) -> Seq<u8>
    decreases width,
{
    if width <= 0 {
        Seq::empty()
    } else {
        dec_digits(value / 10, width - 1).push((48 + value % 10) as u8)
    }
}

/// Every byte is a decimal digit.
pub open spec fn all_digits(text: Seq<u8>) -> bool {
    forall|i: int| 0 <= i < text.len() ==> 48 <= #[trigger] text[i] <= 57
}

/// The number that a run of decimal digits spells.
pub open spec fn dec_value(digits: Seq<u8>) -> int
    decreases digits.len(),
{
    if digits.len() == 0 {
        0
    } else {
        dec_value(digits.drop_last()) * 10 + (digits.last() - 48)
    }
}

/// `value` followed by `zeros` decimal zeros.
pub open spec fn scale_up(value: int, zeros: int) -> int
    decreases zeros,
{
    if zeros <= 0 {
        value
    } else {
        scale_up(value, zeros - 1) * 10
    }
}

/// The number in the digits of `text` from `from` up to `to`, if there are
/// only digits.
pub open spec fn field(text: Seq<u8>, from: int, to: int) -> Option<int> {
    let part = text.subrange(from, to);
    if all_digits(part) {
        Some(dec_value(part))
    } else {
        None
    }
}

/// The nanoseconds that the fraction of `text` stands for; zero where the text
/// has no fraction.
pub open spec fn fraction(text: Seq<u8>) -> Option<int> {
    if text.len() == 20 {
        Some(0)
    } else {
        match field(text, 20, text.len() - 1) {
            Some(value) => Some(scale_up(value, 30 - text.len())),
            None => None,
        }
    }
}

/// The fraction as it is written: nothing for a whole second, else a full
/// stop and three, six or nine digits.
pub open spec fn fraction_text(nanos: int) -> Seq<u8> {
    if nanos == 0 {
        Seq::empty()
    } else if nanos % 1_000_000 == 0 {
        seq![46u8] + dec_digits(nanos / 1_000_000, 3)
    } else if nanos % 1_000 == 0 {
        seq![46u8] + dec_digits(nanos / 1_000, 6)
    } else {
        seq![46u8] + dec_digits(nanos, 9)
    }
}

/// The RFC 3339 text of an instant.
pub open spec fn timestamp_text(t: Timestamp) -> Seq<u8> {
    dec_digits(t.year as int, 4) + seq![45u8] + dec_digits(t.month as int, 2) + seq![45u8]
        + dec_digits(t.day as int, 2) + seq![84u8] + dec_digits(t.hour as int, 2) + seq![58u8]
        + dec_digits(t.minute as int, 2) + seq![58u8] + dec_digits(t.second as int, 2)
        + fraction_text(t.nanos as int) + seq![90u8]
}

/// The instant that an RFC 3339 text names; `None` where the text is not of
/// the form this module writes and reads, or names no instant (a thirteenth
/// month, a thirtieth of February).
pub open spec fn parse_timestamp(text: Seq<u8>) -> Option<Timestamp> {
    if text.len() < 20 || text.len() > 30 || text.len() == 21 {
        None
    } else if text[4] != 45 || text[7] != 45 || text[10] != 84 || text[13] != 58 || text[16] != 58
        || text[text.len() - 1] != 90 {
        None
    } else if text.len() > 20 && text[19] != 46 {
        None
    } else {
        match (
            field(text, 0, 4),
            field(text, 5, 7),
            field(text, 8, 10),
            field(text, 11, 13),
            field(text, 14, 16),
            field(text, 17, 19),
            fraction(text),
        ) {
            (
                Some(year),
                Some(month),
                Some(day),
                Some(hour),
                Some(minute),
                Some(second),
                Some(nanos),
            ) => {
                let t = Timestamp {
                    year: year as u16,
                    month: month as u8,
                    day: day as u8,
                    hour: hour as u8,
                    minute: minute as u8,
                    second: second as u8,
                    nanos: nanos as u32,
                };
                if t.valid() {
                    Some(t)
                } else {
                    None
                }
            },
            _ => None,
        }
    }
}

impl Timestamp {
    /// The fields name an instant of the calendar: a year up to 9999, a day
    /// that its month has, a time of day (the second 60 is a leap second),
    /// and less than a second of nanoseconds.
    pub open spec fn valid(&self) -> bool {
        &&& self.year <= 9999
        &&& 1 <= self.month <= 12
        &&& 1 <= self.day <= days_in_month(self.year as int, self.month as int)
        &&& self.hour <= 23
        &&& self.minute <= 59
        &&& self.second <= 60
        &&& self.nanos <= 999_999_999
    }

    /// Tests `valid`.
    pub fn is_valid(&self) -> (b: bool)
        ensures
            b == self.valid(),
    {
        if self.year > 9999 || self.month < 1 || self.month > 12 {
            return false;
        }
        let leap: bool = self.year % 4 == 0 && (self.year % 100 != 0 || self.year % 400 == 0);
        let days: u8 = if self.month == 2 {
            if leap {
                29
            } else {
                28
            }
        } else if self.month == 4 || self.month == 6 || self.month == 9 || self.month == 11 {
            30
        } else {
            31
        };
        self.day >= 1 && self.day <= days && self.hour <= 23 && self.minute <= 59 && self.second
            <= 60 && self.nanos <= 999_999_999
    }

    /// The RFC 3339 text of the instant, as bytes.
    pub fn to_rfc3339(&self) -> (text: Vec<u8>)
        ensures
            text@ == timestamp_text(*self),
    {
        let mut out: Vec<u8> = Vec::new();
        push_timestamp(&mut out, self);
        assert(out@ =~= timestamp_text(*self));
        out
    }

    /// Reads an RFC 3339 text.
    pub fn from_rfc3339(text: &[u8]) -> (r: Option<Timestamp>)
        ensures
            r == parse_timestamp(text@),
    {
        assert(text@.subrange(0, text@.len() as int) =~= text@);
        read_timestamp(text, 0, text.len())
    }
}

/// The powers of ten up to the ninth.
pub proof fn lemma_pow10_values()
    ensures
        pow10(0) == 1,
        pow10(1) == 10,
        pow10(2) == 100,
        pow10(3) == 1_000,
        pow10(4) == 10_000,
        pow10(5) == 100_000,
        pow10(6) == 1_000_000,
        pow10(7) == 10_000_000,
        pow10(8) == 100_000_000,
        pow10(9) == 1_000_000_000,
{
    reveal_with_fuel(pow10, 11);
}

/// Digits that were written are digits, and spell the number written.
pub proof fn lemma_dec_round_trip(value: int, width: int)
    requires
        0 <= width,
        0 <= value < pow10(width),
    ensures
        dec_digits(value, width).len() == width,
        all_digits(dec_digits(value, width)),
        dec_value(dec_digits(value, width)) == value,
    decreases width,
{
    if width > 0 {
        let shorter = dec_digits(value / 10, width - 1);
        let whole = dec_digits(value, width);
        lemma_dec_round_trip(value / 10, width - 1);
        assert(whole.drop_last() =~= shorter);
        assert forall|i: int| 0 <= i < whole.len() implies 48 <= #[trigger] whole[i] <= 57 by {
            if i < width - 1 {
                assert(whole[i] == shorter[i]);
            }
        }
    }
}

/// A run of `n` digits spells a number below `10^n`.
pub proof fn lemma_dec_value_bound(digits: Seq<u8>)
    requires
        all_digits(digits),
    ensures
        0 <= dec_value(digits) < pow10(digits.len() as int),
    decreases digits.len(),
{
    if digits.len() > 0 {
        let shorter = digits.drop_last();
        assert forall|i: int| 0 <= i < shorter.len() implies 48 <= #[trigger] shorter[i] <= 57 by {
            assert(shorter[i] == digits[i]);
        }
        lemma_dec_value_bound(shorter);
    }
}

/// A number below `10^width` with `zeros` zeros behind it is below
/// `10^(width + zeros)`.
pub proof fn lemma_scale_up_bound(value: int, width: int, zeros: int)
    requires
        0 <= zeros,
        0 <= width,
        0 <= value < pow10(width),
    ensures
        0 <= scale_up(value, zeros) < pow10(width + zeros),
    decreases zeros,
{
    if zeros > 0 {
        lemma_scale_up_bound(value, width, zeros - 1);
    }
}

/// Appends `value` in decimal on `width` digits.
fn push_decimal(out: &mut Vec<u8>, value: u32, width: usize)
    ensures
        final(out)@ == old(out)@ + dec_digits(value as int, width as int),
    decreases width,
{
    if width == 0 {
        assert(old(out)@ + dec_digits(value as int, 0) =~= old(out)@);
        return ;
    }
    push_decimal(out, value / 10, width - 1);
    out.push(48 + (value % 10) as u8);
    assert(out@ =~= old(out)@ + dec_digits(value as int, width as int));
}

/// Appends the RFC 3339 text of `t`.
pub fn push_timestamp(out: &mut Vec<u8>, t: &Timestamp)
    ensures
        final(out)@ == old(out)@ + timestamp_text(*t),
{
    push_decimal(out, t.year as u32, 4);
    out.push(45);
    push_decimal(out, t.month as u32, 2);
    out.push(45);
    push_decimal(out, t.day as u32, 2);
    out.push(84);
    push_decimal(out, t.hour as u32, 2);
    out.push(58);
    push_decimal(out, t.minute as u32, 2);
    out.push(58);
    push_decimal(out, t.second as u32, 2);
    if t.nanos == 0 {
    } else if t.nanos % 1_000_000 == 0 {
        out.push(46);
        push_decimal(out, t.nanos / 1_000_000, 3);
    } else if t.nanos % 1_000 == 0 {
        out.push(46);
        push_decimal(out, t.nanos / 1_000, 6);
    } else {
        out.push(46);
        push_decimal(out, t.nanos, 9);
    }
    out.push(90);
    assert(out@ =~= old(out)@ + timestamp_text(*t));
}

/// Reads the decimal number in `bytes` from `from` up to `to`.
fn read_decimal(bytes: &[u8], from: usize, to: usize) -> (r: Option<u32>)
    requires
        from <= to <= bytes@.len(),
        to - from <= 9,
    ensures
        match field(bytes@, from as int, to as int) {
            Some(value) => r == Some(value as u32) && 0 <= value < pow10(to - from),
            None => r.is_none(),
        },
{
    let ghost part = bytes@.subrange(from as int, to as int);
    let mut value: u32 = 0;
    let mut i: usize = from;
    proof {
        lemma_pow10_values();
        assert(part.take(0) =~= Seq::<u8>::empty());
    }
    while i < to
        invariant
            from <= i <= to <= bytes@.len(),
            to - from <= 9,
            part == bytes@.subrange(from as int, to as int),
            all_digits(part.take(i - from)),
            value == dec_value(part.take(i - from)),
        decreases to - i,
    {
        let b: u8 = bytes[i];
        if b < 48 || b > 57 {
            assert(part[i - from] == b);
            return None;
        }
        proof {
            let longer = part.take(i - from + 1);
            assert(longer.drop_last() =~= part.take(i - from));
            assert(longer.last() == b);
            assert forall|j: int| 0 <= j < longer.len() implies 48 <= #[trigger] longer[j] <= 57 by {
                if j < i - from {
                    assert(part.take(i - from)[j] == longer[j]);
                }
            }
            lemma_dec_value_bound(part.take(i - from));
            lemma_dec_value_bound(longer);
            lemma_pow10_values();
        }
        value = value * 10 + (b - 48) as u32;
        i += 1;
    }
    proof {
        assert(part.take(to - from) =~= part);
        lemma_dec_value_bound(part);
    }
    Some(value)
}

/// Reads the RFC 3339 text that `bytes` holds from `start` up to `end`.
pub fn read_timestamp(bytes: &[u8], start: usize, end: usize) -> (r: Option<Timestamp>)
    requires
        start <= end <= bytes@.len(),
    ensures
        r == parse_timestamp(bytes@.subrange(start as int, end as int)),
{
    let ghost text = bytes@.subrange(start as int, end as int);
    let len: usize = end - start;
    if len < 20 || len > 30 || len == 21 {
        return None;
    }
    assert(forall|i: int| 0 <= i < len ==> text[i] == bytes@[start + i]);
    if bytes[start + 4] != 45 || bytes[start + 7] != 45 || bytes[start + 10] != 84 || bytes[start
        + 13] != 58 || bytes[start + 16] != 58 || bytes[end - 1] != 90 {
        return None;
    }
    if len > 20 && bytes[start + 19] != 46 {
        return None;
    }
    proof {
        lemma_pow10_values();
        assert(text.subrange(0, 4) =~= bytes@.subrange(start as int, start + 4));
        assert(text.subrange(5, 7) =~= bytes@.subrange(start + 5, start + 7));
        assert(text.subrange(8, 10) =~= bytes@.subrange(start + 8, start + 10));
        assert(text.subrange(11, 13) =~= bytes@.subrange(start + 11, start + 13));
        assert(text.subrange(14, 16) =~= bytes@.subrange(start + 14, start + 16));
        assert(text.subrange(17, 19) =~= bytes@.subrange(start + 17, start + 19));
        if len > 20 {
            assert(text.subrange(20, len - 1) =~= bytes@.subrange(start + 20, end - 1));
        }
    }
    let year = read_decimal(bytes, start, start + 4);
    let month = read_decimal(bytes, start + 5, start + 7);
    let day = read_decimal(bytes, start + 8, start + 10);
    let hour = read_decimal(bytes, start + 11, start + 13);
    let minute = read_decimal(bytes, start + 14, start + 16);
    let second = read_decimal(bytes, start + 17, start + 19);
    let nanos: Option<u32> = if len == 20 {
        Some(0)
    } else {
        match read_decimal(bytes, start + 20, end - 1) {
            None => None,
            Some(value) => {
                let mut scaled: u32 = value;
                let mut zeros: usize = 0;
                while zeros < 30 - len
                    invariant
                        22 <= len <= 30,
                        zeros <= 30 - len,
                        scaled == scale_up(value as int, zeros as int),
                        0 <= value < pow10(len - 21),
                    decreases 30 - len - zeros,
                {
                    proof {
                        lemma_scale_up_bound(value as int, len - 21, zeros as int);
                        lemma_scale_up_bound(value as int, len - 21, zeros + 1);
                        lemma_pow10_values();
                    }
                    scaled = scaled * 10;
                    zeros += 1;
                }
                proof {
                    lemma_scale_up_bound(value as int, len - 21, 30 - len);
                }
                Some(scaled)
            },
        }
    };
    match (year, month, day, hour, minute, second, nanos) {
        (Some(year), Some(month), Some(day), Some(hour), Some(minute), Some(second), Some(nanos)) => {
            let t = Timestamp {
                year: year as u16,
                month: month as u8,
                day: day as u8,
                hour: hour as u8,
                minute: minute as u8,
                second: second as u8,
                nanos,
            };
            if t.is_valid() {
                Some(t)
            } else {
                None
            }
        },
        _ => None,
    }
}

/// What was written for a valid instant is read back as that instant.
pub proof fn lemma_timestamp_round_trip(t: Timestamp)
    requires
        t.valid(),
    ensures
        20 <= timestamp_text(t).len() <= 30,
        parse_timestamp(timestamp_text(t)) == Some(t),
{
    let text = timestamp_text(t);
    let nanos = t.nanos as int;
    lemma_pow10_values();
    lemma_dec_round_trip(t.year as int, 4);
    lemma_dec_round_trip(t.month as int, 2);
    lemma_dec_round_trip(t.day as int, 2);
    lemma_dec_round_trip(t.hour as int, 2);
    lemma_dec_round_trip(t.minute as int, 2);
    lemma_dec_round_trip(t.second as int, 2);
    lemma_dec_round_trip(nanos / 1_000_000, 3);
    lemma_dec_round_trip(nanos / 1_000, 6);
    lemma_dec_round_trip(nanos, 9);
    reveal_with_fuel(scale_up, 8);
    assert(text.subrange(0, 4) =~= dec_digits(t.year as int, 4));
    assert(text.subrange(5, 7) =~= dec_digits(t.month as int, 2));
    assert(text.subrange(8, 10) =~= dec_digits(t.day as int, 2));
    assert(text.subrange(11, 13) =~= dec_digits(t.hour as int, 2));
    assert(text.subrange(14, 16) =~= dec_digits(t.minute as int, 2));
    assert(text.subrange(17, 19) =~= dec_digits(t.second as int, 2));
    if nanos == 0 {
        assert(text.len() == 20);
    } else if nanos % 1_000_000 == 0 {
        assert(text.len() == 24);
        assert(text.subrange(20, 23) =~= dec_digits(nanos / 1_000_000, 3));
        assert(scale_up(nanos / 1_000_000, 6) == nanos);
    } else if nanos % 1_000 == 0 {
        assert(text.len() == 27);
        assert(text.subrange(20, 26) =~= dec_digits(nanos / 1_000, 6));
        assert(scale_up(nanos / 1_000, 3) == nanos);
    } else {
        assert(text.len() == 30);
        assert(text.subrange(20, 29) =~= dec_digits(nanos, 9));
        assert(scale_up(nanos, 0) == nanos);
    }
}

} // verus!
