//! Cell values and column types.
//!
//! Temporal values are stored the way the data layer stores them: a `Date` as
//! days since the Unix epoch, a `Datetime` as microseconds since it. Their text
//! forms come from `chrono`.

use vstd::prelude::*;
use chrono::{DateTime, NaiveDate, NaiveDateTime};
use crate::text::{
    all_digits, char_pred, chars_of, find_char, first_where, is_digit, parse_i64, parsed_i64,
    signed_decimal, signed_decimal_of, slice_chars, string_of, trim, trim_chars,
};

verus! {

/// A single cell value.
///
/// A float is held as its decimal text, the shortest text that reads back to
/// the same `f64` (what Rust's `Display` for `f64` prints); the library does no
/// floating-point arithmetic, and this text is exactly what a cell shows.
#[derive(Debug, Clone, PartialEq)]
pub enum Value {
    Null,
    Bool(bool),
    Int(i64),
    Float(String),
    Str(String),
    /// Days since 1970-01-01.
    Date(i32),
    /// Microseconds since 1970-01-01T00:00:00 (treated as UTC/naive).
    Datetime(i64),
}

/// Logical column type.
#[derive(Debug, Clone, Copy, PartialEq, Eq, Structural)]
pub enum DType {
    Bool,
    Int,
    Float,
    Str,
    Date,
    Datetime,
    /// Anything not modelled (struct, list, ...); shown as text.
    Unknown,
}

/// The name a column type is shown under.
pub open spec fn dtype_label(d: DType) -> Seq<char> {
    match d {
        DType::Bool => "bool"@,
        DType::Int => "int"@,
        DType::Float => "float"@,
        DType::Str => "str"@,
        DType::Date => "date"@,
        DType::Datetime => "datetime"@,
        DType::Unknown => "?"@,
    }
}

impl DType {
    /// The name this type is shown under (`bool`, `int`, `float`, `str`,
    /// `date`, `datetime`, or `?`).
    pub fn label(self) -> (r: &'static str)
        ensures
            r@ == dtype_label(self),
    {
        match self {
            DType::Bool => "bool",
            DType::Int => "int",
            DType::Float => "float",
            DType::Str => "str",
            DType::Date => "date",
            DType::Datetime => "datetime",
            DType::Unknown => "?",
        }
    }

    /// Whether this is `Date` or `Datetime`.
    pub fn is_temporal(self) -> (r: bool)
        ensures
            r == (self == DType::Date || self == DType::Datetime),
    {
        matches!(self, DType::Date | DType::Datetime)
    }
}

/// The `strftime` pattern of a date.
pub open spec fn date_format() -> Seq<char> {
    "%Y-%m-%d"@
}

/// The `strftime` pattern that datetimes are shown with.
pub open spec fn datetime_format() -> Seq<char> {
    "%Y-%m-%d %H:%M:%S%.f"@
}

/// The patterns a typed datetime is read with, tried in this order.
pub open spec fn datetime_input_format(i: int) -> Seq<char> {
    if i == 0 {
        "%Y-%m-%d %H:%M:%S%.f"@
    } else if i == 1 {
        "%Y-%m-%dT%H:%M:%S%.f"@
    } else if i == 2 {
        "%Y-%m-%d %H:%M:%S"@
    } else {
        "%Y-%m-%dT%H:%M:%S"@
    }
}

/// What chrono prints for the date `days` after 1970-01-01 under the pattern
/// `fmt`, or `None` where the date lies outside chrono's range.
pub uninterp spec fn chrono_date_text(days: i32, fmt: Seq<char>) -> Option<Seq<char>>;

/// The date, in days after 1970-01-01, that chrono reads from `s` under the
/// pattern `fmt`, or `None` where it does not read one.
pub uninterp spec fn chrono_parsed_date(s: Seq<char>, fmt: Seq<char>) -> Option<i32>;

/// What chrono prints, under the pattern `fmt`, for the instant `micros`
/// microseconds after 1970-01-01T00:00:00 UTC, or `None` outside its range.
pub uninterp spec fn chrono_datetime_text(micros: i64, fmt: Seq<char>) -> Option<Seq<char>>;

/// The instant, in microseconds after 1970-01-01T00:00:00 UTC, that chrono
/// reads from `s` under the pattern `fmt`, or `None` where it does not read one.
pub uninterp spec fn chrono_parsed_datetime(s: Seq<char>, fmt: Seq<char>) -> Option<i64>;

/// `NaiveDate::from_epoch_days` followed by `format(fmt)`: the text of the
/// date `days` after 1970-01-01, `None` when chrono has no such date. The
/// contract claims only that the result is chrono's, named by
/// [`chrono_date_text`]. `to_string` panics on a malformed pattern; the only
/// pattern passed is the date pattern.
#[verifier::external_body]
fn chrono_format_epoch_date(days: i32, fmt: &str) -> (r: Option<String>)
    requires
        fmt@ == date_format(),
    ensures
        r matches Some(t) ==> chrono_date_text(days, fmt@) == Some(t@),
        r is None ==> chrono_date_text(days, fmt@) is None,
{
    NaiveDate::from_epoch_days(days).map(|d| d.format(fmt).to_string())
}

/// `NaiveDate::parse_from_str(s, fmt)`, with the date read turned into days
/// after 1970-01-01 (`to_epoch_days`). The contract claims only that the
/// result is chrono's, named by [`chrono_parsed_date`].
#[verifier::external_body]
fn chrono_parse_date(s: &str, fmt: &str) -> (r: Option<i32>)
    ensures
        r == chrono_parsed_date(s@, fmt@),
{
    NaiveDate::parse_from_str(s, fmt).ok().map(|d| d.to_epoch_days())
}

/// `DateTime::from_timestamp_micros` followed by `naive_utc().format(fmt)`:
/// the text of the instant `micros`, `None` when chrono has no such instant.
/// The contract claims only that the result is chrono's, named by
/// [`chrono_datetime_text`]. `to_string` panics on a malformed pattern; the
/// only pattern passed is the datetime display pattern.
#[verifier::external_body]
fn chrono_format_micros(micros: i64, fmt: &str) -> (r: Option<String>)
    requires
        fmt@ == datetime_format(),
    ensures
        r matches Some(t) ==> chrono_datetime_text(micros, fmt@) == Some(t@),
        r is None ==> chrono_datetime_text(micros, fmt@) is None,
{
    DateTime::from_timestamp_micros(micros).map(|dt| dt.naive_utc().format(fmt).to_string())
}

/// `NaiveDateTime::parse_from_str(s, fmt)`, with the instant read turned into
/// microseconds after the epoch (`and_utc().timestamp_micros()`). The contract
/// claims only that the result is chrono's, named by [`chrono_parsed_datetime`].
#[verifier::external_body]
fn chrono_parse_datetime(s: &str, fmt: &str) -> (r: Option<i64>)
    ensures
        r == chrono_parsed_datetime(s@, fmt@),
{
    NaiveDateTime::parse_from_str(s, fmt).ok().map(|dt| dt.and_utc().timestamp_micros())
}

/// The text of a date cell: `YYYY-MM-DD` as chrono prints it, empty outside
/// chrono's range.
pub open spec fn date_text(days: i32) -> Seq<char> {
    match chrono_date_text(days, date_format()) {
        Some(t) => t,
        None => Seq::empty(),
    }
}

/// The text of a datetime cell: `YYYY-MM-DD HH:MM:SS[.fff]` as chrono prints
/// it, empty outside chrono's range.
pub open spec fn datetime_text(micros: i64) -> Seq<char> {
    match chrono_datetime_text(micros, datetime_format()) {
        Some(t) => t,
        None => Seq::empty(),
    }
}

/// The date a text spells: chrono's reading of the trimmed text as `YYYY-MM-DD`.
pub open spec fn date_of_text(s: Seq<char>) -> Option<i32> {
    chrono_parsed_date(trim(s), date_format())
}

/// The datetime a text spells: the first of the input patterns under which
/// chrono reads the trimmed text.
pub open spec fn datetime_of_text(s: Seq<char>) -> Option<i64> {
    let t = trim(s);
    if chrono_parsed_datetime(t, datetime_input_format(0)) is Some {
        chrono_parsed_datetime(t, datetime_input_format(0))
    } else if chrono_parsed_datetime(t, datetime_input_format(1)) is Some {
        chrono_parsed_datetime(t, datetime_input_format(1))
    } else if chrono_parsed_datetime(t, datetime_input_format(2)) is Some {
        chrono_parsed_datetime(t, datetime_input_format(2))
    } else {
        chrono_parsed_datetime(t, datetime_input_format(3))
    }
}

/// Format days-since-epoch as `YYYY-MM-DD`; empty where chrono has no such date.
pub fn format_date(days: i32) -> (r: String)
    ensures
        r@ == date_text(days),
{
    match chrono_format_epoch_date(days, "%Y-%m-%d") {
        Some(t) => t,
        None => String::new(),
    }
}

/// Parse `YYYY-MM-DD` (surrounding white space ignored) into days since the epoch.
pub fn parse_date(s: &str) -> (r: Option<i32>)
    ensures
        r == date_of_text(s@),
{
    let t = string_of(&trim_chars(&chars_of(s)));
    chrono_parse_date(t.as_str(), "%Y-%m-%d")
}

/// Format microseconds-since-epoch as `YYYY-MM-DD HH:MM:SS[.ffffff]`; empty
/// where chrono has no such instant.
pub fn format_datetime(micros: i64) -> (r: String)
    ensures
        r@ == datetime_text(micros),
{
    match chrono_format_micros(micros, "%Y-%m-%d %H:%M:%S%.f") {
        Some(t) => t,
        None => String::new(),
    }
}

/// Parse a datetime (date with time, space- or `T`-separated, optional
/// fractional seconds; surrounding white space ignored) into microseconds since
/// the epoch.
pub fn parse_datetime(s: &str) -> (r: Option<i64>)
    ensures
        r == datetime_of_text(s@),
{
    let t = string_of(&trim_chars(&chars_of(s)));
    let ts = t.as_str();
    let a = chrono_parse_datetime(ts, "%Y-%m-%d %H:%M:%S%.f");
    if a.is_some() {
        return a;
    }
    let b = chrono_parse_datetime(ts, "%Y-%m-%dT%H:%M:%S%.f");
    if b.is_some() {
        return b;
    }
    let c = chrono_parse_datetime(ts, "%Y-%m-%d %H:%M:%S");
    if c.is_some() {
        return c;
    }
    chrono_parse_datetime(ts, "%Y-%m-%dT%H:%M:%S")
}

/// The unit a stored datetime counts in.
#[derive(Debug, Clone, Copy, PartialEq, Eq, Structural)]
pub enum TimeUnit {
    Nanoseconds,
    Microseconds,
    Milliseconds,
}

/// `value` counted in `unit`, in microseconds; nanoseconds are truncated
/// toward zero (as `i64` division does).
pub open spec fn micros_of(value: i64, unit: TimeUnit) -> int {
    match unit {
        TimeUnit::Nanoseconds => if value >= 0 {
            value as int / 1000
        } else {
            -((-(value as int)) / 1000)
        },
        TimeUnit::Microseconds => value as int,
        TimeUnit::Milliseconds => value * 1000,
    }
}

/// Convert a datetime `value` in `unit` to microseconds.
pub fn datetime_micros(value: i64, unit: TimeUnit) -> (r: i64)
    requires
        unit == TimeUnit::Milliseconds ==> i64::MIN <= value * 1000 <= i64::MAX,
    ensures
        r == micros_of(value, unit),
{
    match unit {
        TimeUnit::Nanoseconds => if value >= 0 {
            value / 1000
        } else if value == i64::MIN {
            -9223372036854775
        } else {
            -((-value) / 1000)
        },
        TimeUnit::Microseconds => value,
        TimeUnit::Milliseconds => value * 1000,
    }
}


/// The largest integer that an `f64` holds exactly, `2^53`.
pub const F64_EXACT: i64 = 9007199254740992;

/// Microseconds in a day.
pub const DAY_MICROS: i64 = 86400000000;

/// Whether `v` is a (non-null) value of a column of type `d`; a column of an
/// unmodelled type holds text.
pub open spec fn has_type(v: Value, d: DType) -> bool {
    match v {
        Value::Null => false,
        Value::Bool(_) => d == DType::Bool,
        Value::Int(_) => d == DType::Int,
        Value::Float(_) => d == DType::Float,
        Value::Str(_) => d == DType::Str || d == DType::Unknown,
        Value::Date(_) => d == DType::Date,
        Value::Datetime(_) => d == DType::Datetime,
    }
}

/// The integer part of a decimal text `[sign]digits[.digits]`, if it fits an
/// `i64` (what truncating the number it spells toward zero gives).
pub open spec fn integer_part(t: Seq<char>) -> Option<i64> {
    let k = first_where(t, char_pred('.'));
    if k < t.len() && !all_digits(t.subrange(k + 1, t.len() as int)) {
        None
    } else {
        parsed_i64(t.subrange(0, k))
    }
}

/// The day (since 1970-01-01) on which the instant `us` microseconds after
/// the epoch falls: the quotient rounded down.
pub open spec fn day_of_micros(us: i64) -> int {
    if us >= 0 {
        us as int / DAY_MICROS as int
    } else {
        -((-(us as int) - 1) / DAY_MICROS as int) - 1
    }
}

/// Whether casting `v` into a column of type `d` gives null: a null, or a
/// value that the column's type has no reading of.
pub open spec fn cast_null(v: Value, d: DType) -> bool {
    if v is Null {
        true
    } else if has_type(v, d) || d == DType::Str || d == DType::Unknown {
        false
    } else {
        match d {
            DType::Int => match v {
                Value::Float(t) => integer_part(t@) is None,
                Value::Str(s) => parsed_i64(s@) is None && integer_part(s@) is None,
                _ => false,
            },
            DType::Float => match v {
                Value::Bool(_) => false,
                Value::Date(_) => false,
                Value::Int(i) => !(-F64_EXACT <= i <= F64_EXACT),
                Value::Datetime(i) => !(-F64_EXACT <= i <= F64_EXACT),
                _ => true,
            },
            DType::Bool => !(v is Int || v is Float),
            DType::Date => match v {
                Value::Datetime(_) => false,
                Value::Int(i) => !(i32::MIN <= i <= i32::MAX),
                _ => true,
            },
            _ => match v {
                Value::Date(x) => !(i64::MIN <= x * DAY_MICROS <= i64::MAX),
                Value::Int(_) => false,
                _ => true,
            },
        }
    }
}

/// `out` is `v` cast into a column of type `d`, the way the data layer reads
/// a value of another type into a typed column: a null or a value of the
/// column's type is kept; a text column takes the value's display text; an
/// integer column reads a boolean as 0 or 1, a date or datetime as its day
/// or microsecond count, and a number or text by its integer part; a float
/// column reads a boolean as 0 or 1 and an integer (a day or microsecond
/// count) exactly where an `f64` holds it exactly; a boolean column reads a
/// number as whether it is non-zero; a date column reads a datetime as its
/// day and an integer in range as a day count; a datetime column reads a date
/// as its first instant and an integer as a microsecond count. Anything else
/// is null.
pub open spec fn cast_to_is(v: Value, d: DType, out: Value) -> bool {
    if cast_null(v, d) {
        out is Null
    } else if has_type(v, d) {
        out == v
    } else if d == DType::Str || d == DType::Unknown {
        out matches Value::Str(s) && s@ == display_text(v)
    } else {
        match d {
            DType::Int => out == Value::Int(
                match v {
                    Value::Bool(b) => if b {
                        1i64
                    } else {
                        0i64
                    },
                    Value::Date(x) => x as i64,
                    Value::Datetime(x) => x,
                    Value::Float(t) => integer_part(t@)->0,
                    Value::Str(s) => match parsed_i64(s@) {
                        Some(i) => i,
                        None => integer_part(s@)->0,
                    },
                    _ => 0i64,
                },
            ),
            DType::Float => out matches Value::Float(t) && t@ == match v {
                Value::Bool(b) => if b {
                    seq!['1']
                } else {
                    seq!['0']
                },
                Value::Int(i) => signed_decimal(i as int),
                Value::Datetime(i) => signed_decimal(i as int),
                Value::Date(x) => signed_decimal(x as int),
                _ => Seq::empty(),
            },
            DType::Bool => out == Value::Bool(
                match v {
                    Value::Int(i) => i != 0,
                    Value::Float(t) => !(t@ == seq!['0'] || t@ == seq!['-', '0']),
                    _ => false,
                },
            ),
            DType::Date => out == Value::Date(
                match v {
                    Value::Datetime(us) => day_of_micros(us) as i32,
                    Value::Int(i) => i as i32,
                    _ => 0i32,
                },
            ),
            _ => out == Value::Datetime(
                match v {
                    Value::Date(x) => (x * DAY_MICROS) as i64,
                    Value::Int(i) => i,
                    _ => 0i64,
                },
            ),
        }
    }
}

/// A cast result is null exactly where [`cast_null`] says so.
pub proof fn lemma_cast_null(v: Value, d: DType, out: Value)
    requires
        cast_to_is(v, d, out),
    ensures
        out is Null <==> cast_null(v, d),
{
}

fn all_digits_of(t: &Vec<char>) -> (r: bool)
    ensures
        r == all_digits(t@),
{
    let n = t.len();
    for i in 0..n
        invariant
            n == t@.len(),
            forall|j: int| 0 <= j < i ==> is_digit(#[trigger] t@[j]),
    {
        if !('0' <= t[i] && t[i] <= '9') {
            return false;
        }
    }
    true
}

/// The integer part of the decimal text `t` ([`integer_part`]).
fn integer_part_of(t: &Vec<char>) -> (r: Option<i64>)
    ensures
        r == integer_part(t@),
{
    let k = find_char(t, '.');
    if k < t.len() {
        let rest = slice_chars(t, k + 1, t.len());
        if !all_digits_of(&rest) {
            return None;
        }
    }
    parse_i64(&slice_chars(t, 0, k))
}

fn day_of(us: i64) -> (r: i32)
    ensures
        r == day_of_micros(us),
{
    if us >= 0 {
        let q = (us as u64) / (DAY_MICROS as u64);
        assert(q <= 106751991) by (nonlinear_arith)
            requires
                q == (us as u64) / 86400000000u64,
                us <= 9223372036854775807i64,
                us >= 0,
        ;
        q as i32
    } else {
        let m = (-(us + 1)) as u64;
        let q = m / (DAY_MICROS as u64);
        assert(q <= 106751991) by (nonlinear_arith)
            requires
                q == m / 86400000000u64,
                m <= 9223372036854775807u64,
        ;
        -(q as i32) - 1
    }
}

/// `v` cast into a column of type `d`, as [`cast_to_is`] states.
pub fn cast_value(v: &Value, d: DType) -> (r: Value)
    ensures
        cast_to_is(*v, d, r),
{
    if v.is_null() {
        return Value::Null;
    }
    let kept = match v {
        Value::Bool(_) => d == DType::Bool,
        Value::Int(_) => d == DType::Int,
        Value::Float(_) => d == DType::Float,
        Value::Str(_) => d == DType::Str || d == DType::Unknown,
        Value::Date(_) => d == DType::Date,
        Value::Datetime(_) => d == DType::Datetime,
        Value::Null => false,
    };
    if kept {
        return v.copied();
    }
    if d == DType::Str || d == DType::Unknown {
        return Value::Str(v.display());
    }
    match d {
        DType::Int => match v {
            Value::Bool(b) => Value::Int(if *b { 1 } else { 0 }),
            Value::Date(x) => Value::Int(*x as i64),
            Value::Datetime(x) => Value::Int(*x),
            Value::Float(t) => match integer_part_of(&chars_of(t.as_str())) {
                Some(i) => Value::Int(i),
                None => Value::Null,
            },
            Value::Str(s) => {
                let cs = chars_of(s.as_str());
                match parse_i64(&cs) {
                    Some(i) => Value::Int(i),
                    None => match integer_part_of(&cs) {
                        Some(i) => Value::Int(i),
                        None => Value::Null,
                    },
                }
            },
            _ => Value::Null,
        },
        DType::Float => match v {
            Value::Bool(b) => {
                let one = vec![if *b { '1' } else { '0' }];
                assert(one@ =~= if *b { seq!['1'] } else { seq!['0'] });
                Value::Float(string_of(&one))
            },
            Value::Date(x) => Value::Float(string_of(&signed_decimal_of(*x as i64))),
            Value::Int(i) => if -F64_EXACT <= *i && *i <= F64_EXACT {
                Value::Float(string_of(&signed_decimal_of(*i)))
            } else {
                Value::Null
            },
            Value::Datetime(i) => if -F64_EXACT <= *i && *i <= F64_EXACT {
                Value::Float(string_of(&signed_decimal_of(*i)))
            } else {
                Value::Null
            },
            _ => Value::Null,
        },
        DType::Bool => match v {
            Value::Int(i) => Value::Bool(*i != 0),
            Value::Float(t) => {
                let cs = chars_of(t.as_str());
                let zero = (cs.len() == 1 && cs[0] == '0') || (cs.len() == 2 && cs[0] == '-' && cs[1] == '0');
                proof {
                    if zero {
                        if cs@.len() == 1 {
                            assert(cs@ =~= seq!['0']);
                        } else {
                            assert(cs@ =~= seq!['-', '0']);
                        }
                    }
                }
                Value::Bool(!zero)
            },
            _ => Value::Null,
        },
        DType::Date => match v {
            Value::Datetime(us) => Value::Date(day_of(*us)),
            Value::Int(i) => if i32::MIN as i64 <= *i && *i <= i32::MAX as i64 {
                Value::Date(*i as i32)
            } else {
                Value::Null
            },
            _ => Value::Null,
        },
        _ => match v {
            Value::Date(x) => match (*x as i64).checked_mul(DAY_MICROS) {
                Some(us) => Value::Datetime(us),
                None => Value::Null,
            },
            Value::Int(i) => Value::Datetime(*i),
            _ => Value::Null,
        },
    }
}

/// The text a value is shown as in the grid (a null shows as empty text).
pub open spec fn display_text(v: Value) -> Seq<char> {
    match v {
        Value::Null => Seq::empty(),
        Value::Bool(b) => if b {
            "true"@
        } else {
            "false"@
        },
        Value::Int(i) => signed_decimal(i as int),
        Value::Float(t) => t@,
        Value::Str(s) => s@,
        Value::Date(d) => date_text(d),
        Value::Datetime(us) => datetime_text(us),
    }
}

impl Value {
    /// Whether this is `Null`.
    pub fn is_null(&self) -> (r: bool)
        ensures
            r == (*self is Null),
    {
        matches!(self, Value::Null)
    }

    /// A copy of this value.
    pub fn copied(&self) -> (r: Value)
        ensures
            r == *self,
    {
        match self {
            Value::Null => Value::Null,
            Value::Bool(b) => Value::Bool(*b),
            Value::Int(i) => Value::Int(*i),
            Value::Float(t) => Value::Float(t.clone()),
            Value::Str(s) => Value::Str(s.clone()),
            Value::Date(d) => Value::Date(*d),
            Value::Datetime(us) => Value::Datetime(*us),
        }
    }

    /// Display rendering for the grid. Nulls render as empty text (the grid
    /// shows its own sentinel for them).
    pub fn display(&self) -> (r: String)
        ensures
            r@ == display_text(*self),
    {
        match self {
            Value::Null => String::new(),
            Value::Bool(b) => if *b {
                String::from_str("true")
            } else {
                String::from_str("false")
            },
            Value::Int(i) => string_of(&signed_decimal_of(*i)),
            Value::Float(t) => t.clone(),
            Value::Str(s) => s.clone(),
            Value::Date(d) => format_date(*d),
            Value::Datetime(us) => format_datetime(*us),
        }
    }
}

} // verus!
