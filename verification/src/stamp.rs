//! The local start time of a recording, and the time stamp written into its
//! file name: `YYYY-MM-DD_HH-MM-SS`.
use vstd::prelude::*;
use chrono::{Datelike, Local, Timelike};
use crate::text::{decimal, decimal_text, chars_of, push_char, lemma_decimal_nonempty};

verus! {

/// The local time, as read once when a recording starts: its calendar
/// fields, and the same instant written in RFC 3339.
pub struct LocalTime {
    pub year: i32,
    pub month: u32,
    pub day: u32,
    pub hour: u32,
    pub minute: u32,
    /// Seconds of the minute, 0 to 59.
    pub second: u32,
    /// Nanoseconds of the second; 1,000,000,000 or more during a leap second.
    pub nanosecond: u32,
    pub rfc3339: String,
}

/// The fields lie in their calendar ranges.
pub open spec fn is_local_time(t: LocalTime) -> bool {
    &&& 1 <= t.month <= 12
    &&& 1 <= t.day <= 31
    &&& t.hour < 24
    &&& t.minute < 60
    &&& t.second < 60
    &&& t.nanosecond < 2_000_000_000
}

/// The second as it is shown: 60 during a leap second.
pub open spec fn shown_second(t: LocalTime) -> nat {
    t.second as nat + if t.nanosecond >= 1_000_000_000 { 1nat } else { 0nat }
}

/// `n` zeros.
pub open spec fn zeros(n: nat) -> Seq<char> {
    Seq::new(n, |i: int| '0')
}

/// `n` in decimal, with leading zeros up to `width` digits.
pub open spec fn padded(n: nat, width: nat) -> Seq<char> {
    let d = decimal_text(n);
    if d.len() < width {
        zeros((width - d.len()) as nat) + d
    } else {
        d
    }
}

/// The year in at least four digits; years outside 0 to 9999 carry a sign.
pub open spec fn year_text(y: int) -> Seq<char> {
    if 0 <= y <= 9999 {
        padded(y as nat, 4)
    } else if y > 9999 {
        seq!['+'] + padded(y as nat, 4)
    } else {
        seq!['-'] + padded((-y) as nat, 4)
    }
}

/// The time stamp of a file name: `YYYY-MM-DD_HH-MM-SS`.
pub open spec fn stamp_text(t: LocalTime) -> Seq<char> {
    year_text(t.year as int) + seq!['-'] + padded(t.month as nat, 2) + seq!['-'] + padded(t.day as nat, 2)
        + seq!['_'] + padded(t.hour as nat, 2) + seq!['-'] + padded(t.minute as nat, 2) + seq!['-']
        + padded(shown_second(t), 2)
}

/// The date and time with which an RFC 3339 text of `t` begins: `YYYY-MM-DDTHH:MM:SS`.
pub open spec fn rfc3339_start(t: LocalTime) -> Seq<char> {
    year_text(t.year as int) + seq!['-'] + padded(t.month as nat, 2) + seq!['-'] + padded(t.day as nat, 2)
        + seq!['T'] + padded(t.hour as nat, 2) + seq![':'] + padded(t.minute as nat, 2) + seq![':']
        + padded(shown_second(t), 2)
}

/// `s` begins with `prefix`.
pub open spec fn begins_with(s: Seq<char>, prefix: Seq<char>) -> bool {
    prefix.len() <= s.len() && s.subrange(0, prefix.len() as int) == prefix
}

/// Reads the local time once (`chrono::Local::now`) and hands out its fields
/// (`Datelike::year`, `month`, `day`, `Timelike::hour`, `minute`, `second`,
/// `nanosecond`) and its RFC 3339 text (`DateTime::to_rfc3339`). Verus does not
/// accept chrono's `DateTime<Tz>` as a declared type, so the reading and the
/// field picks stand in one item. The contract claims the ranges that chrono
/// documents for the fields, and that the RFC 3339 text begins with the date
/// and time written from the same fields (chrono's `write_rfc3339`). The
/// fraction of a second and the offset that follow in that text are not
/// stated. Which instant is read depends on the time.
#[verifier::external_body]
fn local_time() -> (r: LocalTime)
    ensures
        is_local_time(r),
        begins_with(r.rfc3339@, rfc3339_start(r)),
{
    let now = Local::now();
    LocalTime {
        year: now.year(),
        month: now.month(),
        day: now.day(),
        hour: now.hour(),
        minute: now.minute(),
        second: now.second(),
        nanosecond: now.nanosecond(),
        rfc3339: now.to_rfc3339(),
    }
}

/// The local time now.
pub fn local_now() -> (r: LocalTime)
    ensures
        is_local_time(r),
        begins_with(r.rfc3339@, rfc3339_start(r)),
{
    local_time()
}

/// `n` in decimal, with leading zeros up to `width` digits.
pub fn padded_decimal(n: u64, width: usize) -> (r: String)
    ensures
        r@ == padded(n as nat, width as nat),
{
    let digits = decimal(n);
    let count = chars_of(digits.as_str()).len();
    let mut r = String::new();
    if count < width {
        let k = width - count;
        let mut i: usize = 0;
        while i < k
            invariant
                i <= k,
                r@ == zeros(i as nat),
            decreases k - i,
        {
            push_char(&mut r, '0');
            assert(zeros(i as nat).push('0') =~= zeros((i + 1) as nat));
            i = i + 1;
        }
    }
    r.append(digits.as_str());
    assert(r@ =~= padded(n as nat, width as nat));
    r
}

/// The year as the time stamp writes it.
pub fn year_string(year: i32) -> (r: String)
    ensures
        r@ == year_text(year as int),
{
    if 0 <= year && year <= 9999 {
        padded_decimal(year as u64, 4)
    } else if year > 9999 {
        let mut r = String::new();
        push_char(&mut r, '+');
        r.append(padded_decimal(year as u64, 4).as_str());
        r
    } else {
        let magnitude: u64 = (-(year as i64)) as u64;
        let mut r = String::new();
        push_char(&mut r, '-');
        r.append(padded_decimal(magnitude, 4).as_str());
        r
    }
}

/// The time stamp of a file name for the local time `t`.
pub fn stamp(t: &LocalTime) -> (r: String)
    requires
        is_local_time(*t),
    ensures
        r@ == stamp_text(*t),
{
    let second: u32 = if t.nanosecond >= 1_000_000_000 { t.second + 1 } else { t.second };
    let mut r = year_string(t.year);
    push_char(&mut r, '-');
    r.append(padded_decimal(t.month as u64, 2).as_str());
    push_char(&mut r, '-');
    r.append(padded_decimal(t.day as u64, 2).as_str());
    push_char(&mut r, '_');
    r.append(padded_decimal(t.hour as u64, 2).as_str());
    push_char(&mut r, '-');
    r.append(padded_decimal(t.minute as u64, 2).as_str());
    push_char(&mut r, '-');
    r.append(padded_decimal(second as u64, 2).as_str());
    assert(r@ =~= stamp_text(*t));
    r
}

/// A number below 10 takes one digit, a number below 100 two.
proof fn lemma_short_decimal(n: nat)
    ensures
        n < 10 ==> decimal_text(n).len() == 1,
        10 <= n < 100 ==> decimal_text(n).len() == 2,
        n < 100 ==> decimal_text(n).len() <= 2,
        n < 1000 ==> decimal_text(n).len() <= 3,
        n < 10000 ==> decimal_text(n).len() <= 4,
        forall|i: int| 0 <= i < decimal_text(n).len() ==> '0' <= #[trigger] decimal_text(n)[i] <= '9',
    decreases n,
{
    lemma_decimal_nonempty(n);
    if n >= 10 {
        lemma_short_decimal(n / 10);
        let d = decimal_text(n);
        assert(d == decimal_text(n / 10).push(crate::text::digit_char(n % 10)));
        assert forall|i: int| 0 <= i < d.len() implies '0' <= #[trigger] d[i] <= '9' by {
            if i < d.len() - 1 {
                assert(d[i] == decimal_text(n / 10)[i]);
            }
        }
    }
}

/// A padded number below `10^width` has exactly `width` digits.
proof fn lemma_padded(n: nat, width: nat)
    requires
        width == 2 && n < 100 || width == 4 && n < 10000,
    ensures
        padded(n, width).len() == width,
        forall|i: int| 0 <= i < width ==> '0' <= #[trigger] padded(n, width)[i] <= '9',
{
    lemma_short_decimal(n);
    let d = decimal_text(n);
    let p = padded(n, width);
    if d.len() < width {
        assert forall|i: int| 0 <= i < width implies '0' <= #[trigger] p[i] <= '9' by {
            if i >= width - d.len() {
                assert(p[i] == d[i - (width - d.len())]);
            }
        }
    }
}

/// From year 0 to 9999 the time stamp is 19 characters: four digits, `-`, two
/// digits, `-`, two digits, `_`, then two digits, `-`, two, `-`, two.
pub proof fn law_stamp_layout(t: LocalTime)
    requires
        is_local_time(t),
        0 <= t.year <= 9999,
    ensures
        ({
            let s = stamp_text(t);
            &&& s.len() == 19
            &&& s[4] == '-' && s[7] == '-' && s[10] == '_' && s[13] == '-' && s[16] == '-'
            &&& forall|i: int|
                0 <= i < 19 && i != 4 && i != 7 && i != 10 && i != 13 && i != 16 ==> '0' <= #[trigger] s[i]
                    <= '9'
        }),
{
    lemma_padded(t.year as nat, 4);
    lemma_padded(t.month as nat, 2);
    lemma_padded(t.day as nat, 2);
    lemma_padded(t.hour as nat, 2);
    lemma_padded(t.minute as nat, 2);
    lemma_padded(shown_second(t), 2);
    let y = padded(t.year as nat, 4);
    let mo = padded(t.month as nat, 2);
    let d = padded(t.day as nat, 2);
    let h = padded(t.hour as nat, 2);
    let mi = padded(t.minute as nat, 2);
    let se = padded(shown_second(t), 2);
    let s = stamp_text(t);
    assert(s =~= y + seq!['-'] + mo + seq!['-'] + d + seq!['_'] + h + seq!['-'] + mi + seq!['-'] + se);
    assert forall|i: int|
        0 <= i < 19 && i != 4 && i != 7 && i != 10 && i != 13 && i != 16 implies '0' <= #[trigger] s[i]
            <= '9' by {
        if i < 4 {
            assert(s[i] == y[i]);
        } else if i < 7 {
            assert(s[i] == mo[i - 5]);
        } else if i < 10 {
            assert(s[i] == d[i - 8]);
        } else if i < 13 {
            assert(s[i] == h[i - 11]);
        } else if i < 16 {
            assert(s[i] == mi[i - 14]);
        } else {
            assert(s[i] == se[i - 17]);
        }
    }
}

} // verus!
