//! The name of the store file that one run of the tool writes to: the
//! moment the run started, to the millisecond.
use vstd::prelude::*;

verus! {

/// The chrono pattern of a store name's stem.
pub const STAMP_PATTERN: &'static str = "%Y-%m-%d_%H-%M-%S-%3f";

/// The extension of a store file.
pub const STORE_EXTENSION: &'static str = ".vmi";

/// A moment in UTC, as calendar date and time of day.
#[derive(Clone, Copy, Debug, PartialEq, Eq)]
pub struct Timestamp {
    pub year: i32,
    pub month: u32,
    pub day: u32,
    pub hour: u32,
    pub minute: u32,
    pub second: u32,
    pub millisecond: u32,
}

pub open spec fn is_leap_year(y: int) -> bool {
    (y % 4 == 0 && y % 100 != 0) || y % 400 == 0
}

pub open spec fn days_in_month(y: int, m: int) -> int {
    if m == 2 {
        if is_leap_year(y) {
            29
        } else {
            28
        }
    } else if m == 4 || m == 6 || m == 9 || m == 11 {
        30
    } else {
        31
    }
}

pub open spec fn decimal_digit(d: int) -> char {
    seq!['0', '1', '2', '3', '4', '5', '6', '7', '8', '9'][d]
}

/// The last `width` decimal digits of `n`, zero-padded on the left.
pub open spec fn padded(n: nat, width: nat) -> Seq<char>
    decreases width,
{
    if width == 0 {
        Seq::empty()
    } else {
        padded(n / 10, (width - 1) as nat).push(decimal_digit((n % 10) as int))
    }
}

/// `YYYY-MM-DD_hh-mm-ss-mmm`, every field zero-padded.
pub open spec fn stamp_text(t: Timestamp) -> Seq<char> {
    padded(t.year as nat, 4) + seq!['-'] + padded(t.month as nat, 2) + seq!['-'] + padded(
        t.day as nat,
        2,
    ) + seq!['_'] + padded(t.hour as nat, 2) + seq!['-'] + padded(t.minute as nat, 2) + seq!['-']
        + padded(t.second as nat, 2) + seq!['-'] + padded(t.millisecond as nat, 3)
}

impl Timestamp {
    /// A real calendar date with a four-digit year, and a time of day
    /// without leap second.
    pub open spec fn valid(self) -> bool {
        &&& 0 <= self.year <= 9999
        &&& 1 <= self.month <= 12
        &&& 1 <= self.day <= days_in_month(self.year as int, self.month as int)
        &&& self.hour < 24
        &&& self.minute < 60
        &&& self.second < 60
        &&& self.millisecond < 1000
    }

    pub fn is_valid(&self) -> (r: bool)
        ensures
            r == self.valid(),
    {
        if self.year < 0 || self.year > 9999 || self.month < 1 || self.month > 12 || self.day < 1 {
            return false;
        }
        let leap = (self.year % 4 == 0 && self.year % 100 != 0) || self.year % 400 == 0;
        let days: u32 = if self.month == 2 {
            if leap {
                29
            } else {
                28
            }
        } else if self.month == 4 || self.month == 6 || self.month == 9 || self.month == 11 {
            30
        } else {
            31
        };
        self.day <= days && self.hour < 24 && self.minute < 60 && self.second < 60
            && self.millisecond < 1000
    }
}

/// Relies on chrono's `NaiveDate::from_ymd_opt` and
/// `NaiveDate::and_hms_milli_opt`, which accept every valid timestamp, and on
/// `NaiveDateTime::format`, which writes `%Y` as four zero-padded digits for
/// the years 0 to 9999, `%m %d %H %M %S` as two zero-padded digits and `%3f`
/// as three zero-padded digits of the millisecond.
#[verifier::external_body]
fn format_stamp(t: &Timestamp, pattern: &str) -> (r: String)
    requires
        t.valid(),
        pattern@ == STAMP_PATTERN@,
    ensures
        r@ == stamp_text(*t),
{
    let date = chrono::NaiveDate::from_ymd_opt(t.year, t.month, t.day).unwrap();
    let moment = date.and_hms_milli_opt(t.hour, t.minute, t.second, t.millisecond).unwrap();
    moment.format(pattern).to_string()
}

/// The file name of the store of a run that started at `t`.
pub fn database_file_name(t: &Timestamp) -> (r: String)
    requires
        t.valid(),
    ensures
        r@ == stamp_text(*t) + STORE_EXTENSION@,
{
    let mut name = format_stamp(t, STAMP_PATTERN);
    name.append(STORE_EXTENSION);
    name
}

} // verus!
