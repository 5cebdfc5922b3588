use vstd::prelude::*;
use vstd::string::*;

verus! {

/// The three gridded quantities that supervise training.
#[derive(Debug, Clone, Copy, PartialEq, Eq, Hash, Structural)]
pub enum MeteorologicalType {
    UVert,
    UHori,
    Pressure,
}

/// The file-name prefix under which each quantity is stored.
pub open spec fn kind_prefix(kind: MeteorologicalType) -> Seq<char> {
    match kind {
        MeteorologicalType::UVert => "u_vert"@,
        MeteorologicalType::UHori => "u_hori"@,
        MeteorologicalType::Pressure => "pressure"@,
    }
}

impl MeteorologicalType {
    pub fn file_prefix(&self) -> (s: &'static str)
        ensures
            s@ == kind_prefix(*self),
    {
        match self {
            MeteorologicalType::UVert => "u_vert",
            MeteorologicalType::UHori => "u_hori",
            MeteorologicalType::Pressure => "pressure",
        }
    }
}

/// A whole hour of a UTC calendar day, the granularity at which data files
/// are keyed.
#[derive(Debug, Clone, Copy, PartialEq, Eq, Hash, Structural)]
pub struct HourStamp {
    pub year: i32,
    pub month: u32,
    pub day: u32,
    pub hour: u32,
}

pub open spec fn is_leap_year(year: int) -> bool {
    year % 4 == 0 && (year % 100 != 0 || year % 400 == 0)
}

pub open spec fn days_in_month(year: int, month: int) -> int {
    if month == 2 {
        if is_leap_year(year) {
            29
        } else {
            28
        }
    } else if month == 4 || month == 6 || month == 9 || month == 11 {
        30
    } else {
        31
    }
}

/// The last `width` decimal digits of `n`, zero-padded.
pub open spec fn decimal_digits(n: nat, width: nat) -> Seq<char>
    decreases width,
{
    if width == 0 {
        Seq::empty()
    } else {
        decimal_digits(n / 10, (width - 1) as nat).push(((n % 10) + ('0' as nat)) as char)
    }
}

/// `YYYYMMDDHH`: four digits of year, then two each of month, day and hour.
pub open spec fn stamp_text(year: int, month: int, day: int, hour: int) -> Seq<char> {
    decimal_digits(year as nat, 4) + decimal_digits(month as nat, 2) + decimal_digits(
        day as nat,
        2,
    ) + decimal_digits(hour as nat, 2)
}

impl HourStamp {
    /// A real hour of the proleptic Gregorian calendar, with a four-digit year.
    pub open spec fn valid(self) -> bool {
        &&& 0 <= self.year <= 9999
        &&& 1 <= self.month <= 12
        &&& 1 <= self.day <= days_in_month(self.year as int, self.month as int)
        &&& self.hour < 24
    }

    pub fn is_valid(&self) -> (b: bool)
        ensures
            b == self.valid(),
    {
        if self.year < 0 || self.year > 9999 || self.month < 1 || self.month > 12 || self.day < 1
            || self.hour >= 24 {
            return false;
        }
        let leap = self.year % 4 == 0 && (self.year % 100 != 0 || self.year % 400 == 0);
        let days: u32 = if self.month == 2 {
            if leap {
                29
            } else {
                28
            }
        } else if self.month == 4 || self.month == 6 || self.month == 9 || self.month == 11 {
            30
        } else {
            31
        };
        self.day <= days
    }
}

/// Relies on chrono: `NaiveDate::from_ymd_opt` and `NaiveDate::and_hms_opt`
/// accept every real date and hour of the proleptic Gregorian calendar, and
/// the `%Y%m%d%H` format writes a year in `0..=9999` as four zero-padded
/// digits and month, day and hour as two.
#[verifier::external_body]
fn hour_stamp_text(stamp: &HourStamp) -> (s: String)
    requires
        stamp.valid(),
    ensures
        s@ == stamp_text(stamp.year as int, stamp.month as int, stamp.day as int, stamp.hour as int),
{
    chrono::NaiveDate::from_ymd_opt(stamp.year, stamp.month, stamp.day)
        .unwrap()
        .and_hms_opt(stamp.hour, 0, 0)
        .unwrap()
        .format("%Y%m%d%H")
        .to_string()
}

/// The path of the data file that holds `kind` at `stamp`, under the data
/// directory `data_dir`.
pub open spec fn data_file_path(data_dir: Seq<char>, kind: MeteorologicalType, stamp: HourStamp) -> Seq<char> {
    data_dir + "npy/"@ + kind_prefix(kind) + "_"@ + stamp_text(
        stamp.year as int,
        stamp.month as int,
        stamp.day as int,
        stamp.hour as int,
    ) + ".npy"@
}

/// The data file of `kind` at `stamp` under `data_dir`
/// (`<data_dir>npy/<prefix>_<YYYYMMDDHH>.npy`); `None` when `stamp` is not a
/// real hour with a four-digit year.
pub fn data_file_name(data_dir: &str, kind: MeteorologicalType, stamp: &HourStamp) -> (r: Option<String>)
    ensures
        r is Some <==> stamp.valid(),
        r matches Some(s) ==> s@ == data_file_path(data_dir@, kind, *stamp),
{
    if !stamp.is_valid() {
        return None;
    }
    let text = hour_stamp_text(stamp);
    let mut s = String::from_str(data_dir);
    s.append("npy/");
    s.append(kind.file_prefix());
    s.append("_");
    s.append(text.as_str());
    s.append(".npy");
    Some(s)
}

} // verus!
