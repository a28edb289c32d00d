//! Local date-times of the proleptic Gregorian calendar, the text that a
//! screenshot stamp writes for them, and the order of such texts.
use vstd::prelude::*;

verus! {

/// Lexicographic order of texts by code point (for UTF-8 text this is also
/// the order of their bytes).
pub open spec fn text_le(a: Seq<char>, b: Seq<char>) -> bool
    decreases a.len(),
{
    if a.len() == 0 {
        true
    } else if b.len() == 0 {
        false
    } else if a[0] != b[0] {
        (a[0] as u32) < (b[0] as u32)
    } else {
        text_le(a.drop_first(), b.drop_first())
    }
}

/// `a` comes strictly before `b`.
pub open spec fn text_lt(a: Seq<char>, b: Seq<char>) -> bool {
    text_le(a, b) && a != b
}

pub proof fn lemma_text_le_reflexive(a: Seq<char>)
    ensures
        text_le(a, a),
    decreases a.len(),
{
    if a.len() > 0 {
        lemma_text_le_reflexive(a.drop_first());
    }
}

/// A common beginning does not change the order.
pub proof fn lemma_text_le_common_prefix(p: Seq<char>, a: Seq<char>, b: Seq<char>)
    ensures
        text_le(p + a, p + b) == text_le(a, b),
    decreases p.len(),
{
    if p.len() > 0 {
        assert((p + a).drop_first() =~= p.drop_first() + a);
        assert((p + b).drop_first() =~= p.drop_first() + b);
        lemma_text_le_common_prefix(p.drop_first(), a, b);
    } else {
        assert(p + a =~= a);
        assert(p + b =~= b);
    }
}

/// A common end does not change the order of texts of equal length.
pub proof fn lemma_text_le_common_suffix(a: Seq<char>, b: Seq<char>, s: Seq<char>)
    requires
        a.len() == b.len(),
    ensures
        text_le(a + s, b + s) == text_le(a, b),
    decreases a.len(),
{
    if a.len() == 0 {
        assert(a + s =~= s);
        assert(b + s =~= s);
        lemma_text_le_reflexive(s);
    } else {
        assert((a + s)[0] == a[0]);
        assert((b + s)[0] == b[0]);
        assert((a + s).drop_first() =~= a.drop_first() + s);
        assert((b + s).drop_first() =~= b.drop_first() + s);
        lemma_text_le_common_suffix(a.drop_first(), b.drop_first(), s);
    }
}

/// Of two texts of equal length, the one strictly first stays strictly
/// first whatever follows each.
pub proof fn lemma_text_lt_extend(a: Seq<char>, b: Seq<char>, x: Seq<char>, y: Seq<char>)
    requires
        a.len() == b.len(),
        text_lt(a, b),
    ensures
        text_lt(a + x, b + y),
    decreases a.len(),
{
    if a.len() == 0 {
        assert(a =~= b);
    } else {
        assert((a + x)[0] == a[0]);
        assert((b + y)[0] == b[0]);
        if a[0] == b[0] {
            assert((a + x).drop_first() =~= a.drop_first() + x);
            assert((b + y).drop_first() =~= b.drop_first() + y);
            if a.drop_first() == b.drop_first() {
                assert(a =~= b) by {
                    assert forall|i: int| 0 <= i < a.len() implies a[i] == b[i] by {
                        if i > 0 {
                            assert(a[i] == a.drop_first()[i - 1]);
                            assert(b[i] == b.drop_first()[i - 1]);
                        }
                    }
                }
            }
            lemma_text_lt_extend(a.drop_first(), b.drop_first(), x, y);
            assert((a + x) != (b + y)) by {
                if (a + x) == (b + y) {
                    assert((a + x).drop_first() == (b + y).drop_first());
                }
            }
        } else {
            assert((a + x) != (b + y)) by {
                if (a + x) == (b + y) {
                    assert((a + x)[0] == (b + y)[0]);
                }
            }
        }
    }
}

/// One step of a lexicographic comparison: equal-length heads, then tails.
pub proof fn lemma_text_le_blocks(a1: Seq<char>, a2: Seq<char>, r1: Seq<char>, r2: Seq<char>)
    requires
        a1.len() == a2.len(),
        text_lt(a1, a2) || (a1 == a2 && text_le(r1, r2)),
    ensures
        text_le(a1 + r1, a2 + r2),
{
    if text_lt(a1, a2) {
        lemma_text_lt_extend(a1, a2, r1, r2);
    } else {
        lemma_text_le_common_prefix(a1, r1, r2);
    }
}

/// The character of a decimal digit.
pub open spec fn digit(n: int) -> char {
    if n == 0 {
        '0'
    } else if n == 1 {
        '1'
    } else if n == 2 {
        '2'
    } else if n == 3 {
        '3'
    } else if n == 4 {
        '4'
    } else if n == 5 {
        '5'
    } else if n == 6 {
        '6'
    } else if n == 7 {
        '7'
    } else if n == 8 {
        '8'
    } else {
        '9'
    }
}

/// `n` (from 0 to 99) in two digits, zero-padded.
pub open spec fn two_digits(n: int) -> Seq<char> {
    seq![digit(n / 10), digit(n % 10)]
}

/// `n` (from 0 to 9999) in four digits, zero-padded.
pub open spec fn four_digits(n: int) -> Seq<char> {
    two_digits(n / 100) + two_digits(n % 100)
}

proof fn lemma_digit_order(a: int, b: int)
    requires
        0 <= a < b <= 9,
    ensures
        (digit(a) as u32) < (digit(b) as u32),
{
}

proof fn lemma_two_digits_order(a: int, b: int)
    requires
        0 <= a < b < 100,
    ensures
        text_lt(two_digits(a), two_digits(b)),
{
    let x = two_digits(a);
    let y = two_digits(b);
    if a / 10 < b / 10 {
        lemma_digit_order(a / 10, b / 10);
        assert(x[0] != y[0]);
        assert(x != y);
    } else {
        assert(a / 10 == b / 10);
        lemma_digit_order(a % 10, b % 10);
        assert(x.drop_first() =~= seq![digit(a % 10)]);
        assert(y.drop_first() =~= seq![digit(b % 10)]);
        assert(x[1] != y[1]);
        assert(x != y);
        assert(text_le(x.drop_first(), y.drop_first()));
    }
}

proof fn lemma_four_digits_order(a: int, b: int)
    requires
        0 <= a < b < 10000,
    ensures
        text_lt(four_digits(a), four_digits(b)),
{
    if a / 100 < b / 100 {
        lemma_two_digits_order(a / 100, b / 100);
        lemma_text_lt_extend(two_digits(a / 100), two_digits(b / 100), two_digits(a % 100), two_digits(b % 100));
    } else {
        assert(a / 100 == b / 100);
        lemma_two_digits_order(a % 100, b % 100);
        lemma_text_le_common_prefix(two_digits(a / 100), two_digits(a % 100), two_digits(b % 100));
        assert(four_digits(a) != four_digits(b)) by {
            if four_digits(a) == four_digits(b) {
                assert(four_digits(a).subrange(2, 4) =~= two_digits(a % 100));
                assert(four_digits(b).subrange(2, 4) =~= two_digits(b % 100));
            }
        }
    }
}

/// A local date and time of day.
pub struct LocalDateTime {
    pub year: int,
    pub month: int,
    pub day: int,
    pub hour: int,
    pub minute: int,
    pub second: int,
}

pub open spec fn is_leap_year(y: int) -> bool {
    y % 4 == 0 && (y % 100 != 0 || y % 400 == 0)
}

pub open spec fn days_in_year(y: int) -> int {
    if is_leap_year(y) { 366 } else { 365 }
}

pub open spec fn days_in_month(y: int, m: int) -> int {
    if m == 2 {
        if is_leap_year(y) { 29 } else { 28 }
    } else if m == 4 || m == 6 || m == 9 || m == 11 {
        30
    } else {
        31
    }
}

/// Days of the year `y` before the first of month `m`.
pub open spec fn days_before_month(y: int, m: int) -> int {
    let leap_day: int = if m > 2 && is_leap_year(y) { 1 } else { 0 };
    leap_day + if m == 1 {
        0int
    } else if m == 2 {
        31
    } else if m == 3 {
        59
    } else if m == 4 {
        90
    } else if m == 5 {
        120
    } else if m == 6 {
        151
    } else if m == 7 {
        181
    } else if m == 8 {
        212
    } else if m == 9 {
        243
    } else if m == 10 {
        273
    } else if m == 11 {
        304
    } else {
        334
    }
}

/// Days from 1 January of the year 0 to 1 January of the year `y`.
pub open spec fn days_before_year(y: int) -> int
    decreases y,
{
    if y <= 0 {
        0
    } else {
        days_before_year(y - 1) + days_in_year(y - 1)
    }
}

impl LocalDateTime {
    /// A real date of the years 0 to 9999 and a time of day.
    pub open spec fn is_valid(self) -> bool {
        &&& 0 <= self.year <= 9999
        &&& 1 <= self.month <= 12
        &&& 1 <= self.day <= days_in_month(self.year, self.month)
        &&& 0 <= self.hour < 24
        &&& 0 <= self.minute < 60
        &&& 0 <= self.second < 60
    }

    /// Days from 1 January of the year 0 to this date.
    pub open spec fn day_number(self) -> int {
        days_before_year(self.year) + days_before_month(self.year, self.month) + self.day - 1
    }

    /// Seconds from the start of this day.
    pub open spec fn second_of_day(self) -> int {
        self.hour * 3600 + self.minute * 60 + self.second
    }

    /// Seconds from 0000-01-01 00:00:00 to this moment.
    pub open spec fn seconds_since_year_zero(self) -> int {
        self.day_number() * 86400 + self.second_of_day()
    }

    /// `YYYY-MM-DD_HH-MM-SS`.
    pub open spec fn stamp(self) -> Seq<char> {
        four_digits(self.year) + (seq!['-'] + (two_digits(self.month) + (seq!['-'] + (two_digits(self.day)
            + (seq!['_'] + (two_digits(self.hour) + (seq!['-'] + (two_digits(self.minute) + (seq!['-']
            + two_digits(self.second))))))))))
    }

    /// This moment is not later than `other`, field by field from the year.
    pub open spec fn fields_le(self, other: Self) -> bool {
        if self.year != other.year {
            self.year < other.year
        } else if self.month != other.month {
            self.month < other.month
        } else if self.day != other.day {
            self.day < other.day
        } else if self.hour != other.hour {
            self.hour < other.hour
        } else if self.minute != other.minute {
            self.minute < other.minute
        } else {
            self.second <= other.second
        }
    }
}

/// The text of a moment `seconds_since_year_zero` seconds after
/// 0000-01-01 00:00:00 (for a moment of the years 0 to 9999).
pub open spec fn is_stamp_of(s: Seq<char>, seconds_since_year_zero: int) -> bool {
    exists|t: LocalDateTime|
        #![trigger t.stamp()]
        t.is_valid() && t.seconds_since_year_zero() == seconds_since_year_zero && s == t.stamp()
}

proof fn lemma_days_before_year_grows(a: int, b: int)
    requires
        0 <= a < b,
    ensures
        days_before_year(a) + days_in_year(a) <= days_before_year(b),
    decreases b - a,
{
    if b > a + 1 {
        lemma_days_before_year_grows(a, b - 1);
    }
}

proof fn lemma_day_within_year(t: LocalDateTime)
    requires
        t.is_valid(),
    ensures
        days_before_month(t.year, t.month) + t.day - 1 < days_in_year(t.year),
{
}

proof fn lemma_day_number_grows(t: LocalDateTime, u: LocalDateTime)
    requires
        t.is_valid(),
        u.is_valid(),
        t.year < u.year || (t.year == u.year && t.month < u.month) || (t.year == u.year && t.month
            == u.month && t.day < u.day),
    ensures
        t.day_number() < u.day_number(),
{
    if t.year < u.year {
        lemma_day_within_year(t);
        lemma_days_before_year_grows(t.year, u.year);
    }
}

/// Time moves on with the fields: of two moments, the one with the later
/// fields is the later moment.
proof fn lemma_later_fields_later_moment(t: LocalDateTime, u: LocalDateTime)
    requires
        t.is_valid(),
        u.is_valid(),
        !t.fields_le(u),
    ensures
        u.seconds_since_year_zero() < t.seconds_since_year_zero(),
{
    if u.year < t.year || (u.year == t.year && u.month < t.month) || (u.year == t.year && u.month
        == t.month && u.day < t.day) {
        lemma_day_number_grows(u, t);
    }
}

/// Stamps are in text order as their moments are in field order.
proof fn lemma_stamp_order(t: LocalDateTime, u: LocalDateTime)
    requires
        t.is_valid(),
        u.is_valid(),
        t.fields_le(u),
    ensures
        text_le(t.stamp(), u.stamp()),
{
    let d = seq!['-'];
    let us = seq!['_'];
    let s5 = two_digits(t.second);
    let v5 = two_digits(u.second);
    let s4 = two_digits(t.minute) + (d + s5);
    let v4 = two_digits(u.minute) + (d + v5);
    let s3 = two_digits(t.hour) + (d + s4);
    let v3 = two_digits(u.hour) + (d + v4);
    let s2 = two_digits(t.day) + (us + s3);
    let v2 = two_digits(u.day) + (us + v3);
    let s1 = two_digits(t.month) + (d + s2);
    let v1 = two_digits(u.month) + (d + v2);
    assert(t.stamp() == four_digits(t.year) + (d + s1));
    assert(u.stamp() == four_digits(u.year) + (d + v1));
    if t.year < u.year {
        lemma_four_digits_order(t.year, u.year);
        lemma_text_le_blocks(four_digits(t.year), four_digits(u.year), d + s1, d + v1);
        return;
    }
    if t.month < u.month {
        lemma_two_digits_order(t.month, u.month);
        lemma_text_le_blocks(two_digits(t.month), two_digits(u.month), d + s2, d + v2);
    } else if t.day < u.day {
        lemma_two_digits_order(t.day, u.day);
        lemma_text_le_blocks(two_digits(t.day), two_digits(u.day), us + s3, us + v3);
    } else if t.hour < u.hour {
        lemma_two_digits_order(t.hour, u.hour);
        lemma_text_le_blocks(two_digits(t.hour), two_digits(u.hour), d + s4, d + v4);
    } else if t.minute < u.minute {
        lemma_two_digits_order(t.minute, u.minute);
        lemma_text_le_blocks(two_digits(t.minute), two_digits(u.minute), d + s5, d + v5);
    } else {
        if t.second < u.second {
            lemma_two_digits_order(t.second, u.second);
        } else {
            lemma_text_le_reflexive(s5);
        }
        lemma_text_le_common_prefix(two_digits(t.minute), d + s5, d + v5);
        lemma_text_le_common_prefix(d, s5, v5);
    }
    if t.month == u.month && t.day == u.day && t.hour == u.hour {
        lemma_text_le_common_prefix(d, s4, v4);
        lemma_text_le_common_prefix(two_digits(t.hour), d + s4, d + v4);
    }
    if t.month == u.month && t.day == u.day {
        lemma_text_le_common_prefix(us, s3, v3);
        lemma_text_le_common_prefix(two_digits(t.day), us + s3, us + v3);
    }
    if t.month == u.month {
        lemma_text_le_common_prefix(d, s2, v2);
        lemma_text_le_common_prefix(two_digits(t.month), d + s2, d + v2);
    }
    lemma_text_le_common_prefix(d, s1, v1);
    lemma_text_le_common_prefix(four_digits(t.year), d + s1, d + v1);
}

/// Stamps sort by time: the stamp of a moment comes, in text order, no
/// later than the stamp of any moment not earlier than it.
pub proof fn lemma_stamps_sort_by_time(s1: Seq<char>, s2: Seq<char>, t1: int, t2: int)
    requires
        is_stamp_of(s1, t1),
        is_stamp_of(s2, t2),
        t1 <= t2,
    ensures
        text_le(s1, s2),
{
    let a = choose|t: LocalDateTime| #![trigger t.stamp()] t.is_valid() && t.seconds_since_year_zero() == t1 && s1 == t.stamp();
    let b = choose|t: LocalDateTime| #![trigger t.stamp()] t.is_valid() && t.seconds_since_year_zero() == t2 && s2 == t.stamp();
    if !a.fields_le(b) {
        lemma_later_fields_later_moment(a, b);
    }
    lemma_stamp_order(a, b);
}

/// Every stamp has 19 characters.
pub proof fn lemma_stamp_length(s: Seq<char>, seconds_since_year_zero: int)
    requires
        is_stamp_of(s, seconds_since_year_zero),
    ensures
        s.len() == 19,
{
    let t = choose|t: LocalDateTime|
        #![trigger t.stamp()]
        t.is_valid() && t.seconds_since_year_zero() == seconds_since_year_zero && s == t.stamp();
    lemma_stamp_of_moment_length(t);
}

proof fn lemma_stamp_of_moment_length(t: LocalDateTime)
    ensures
        t.stamp().len() == 19,
{
    let d = seq!['-'];
    let s5 = d + two_digits(t.second);
    let s4 = d + (two_digits(t.minute) + s5);
    let s3 = seq!['_'] + (two_digits(t.hour) + s4);
    let s2 = d + (two_digits(t.day) + s3);
    let s1 = d + (two_digits(t.month) + s2);
    assert(s5.len() == 3);
    assert(s4.len() == 6);
    assert(s3.len() == 9);
    assert(s2.len() == 12);
    assert(s1.len() == 15);
    assert(four_digits(t.year).len() == 4);
    assert(t.stamp() == four_digits(t.year) + s1);
}

} // verus!
