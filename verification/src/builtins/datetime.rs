//! Date and time: a moment as six fields, its formatting and its shifting.

use crate::errors::BuiltinExecutionError;
use crate::lua_values::{into_lua, value_table};
use crate::marshal::{
    entry_views, lemma_table_view, DynamicKey, DynamicValue, DynamicView, KeyView, MarshalError,
};
use crate::sandbox::{table_integer, LuaValue};
use chrono::{Datelike, Timelike};
use std::fmt::Write;
use crate::builtins::builtin::BuiltinFunction;
use vstd::prelude::*;

verus! {

/// A moment of the proleptic Gregorian calendar, without time zone.
#[derive(Debug, PartialEq, Eq, Structural, Clone, Copy)]
pub struct Moment {
    pub year: i32,
    /// 1 to 12.
    pub month: u32,
    /// 1 to the length of the month.
    pub day: u32,
    /// 0 to 23.
    pub hour: u32,
    /// 0 to 59.
    pub min: u32,
    /// 0 to 59.
    pub sec: u32,
}

/// The six fields of a moment as integers: year, month, day, hour, minute,
/// second.
pub open spec fn fields_of(moment: Moment) -> (int, int, int, int, int, int) {
    (
        moment.year as int,
        moment.month as int,
        moment.day as int,
        moment.hour as int,
        moment.min as int,
        moment.sec as int,
    )
}

/// The fields of a moment that may be absent.
pub open spec fn optional_fields(moment: Option<Moment>) -> Option<(int, int, int, int, int, int)> {
    match moment {
        Some(m) => Some(fields_of(m)),
        None => None,
    }
}

/// The characters of a text that may be absent.
pub open spec fn optional_text(text: Option<String>) -> Option<Seq<char>> {
    match text {
        Some(t) => Some(t@),
        None => None,
    }
}

/// The moment that lies `seconds` seconds after the moment with the given
/// fields; `None` where the fields name no date and time, or where the
/// result lies outside the dates that can be held.
pub uninterp spec fn shifted(fields: (int, int, int, int, int, int), seconds: int) -> Option<
    (int, int, int, int, int, int),
>;

/// The text of the moment with the given fields under a strftime-like
/// pattern; `None` where the fields name no date and time, or where the
/// pattern holds an unknown specifier.
pub uninterp spec fn formatted(fields: (int, int, int, int, int, int), pattern: Seq<char>) -> Option<
    Seq<char>,
>;

/// The number of seconds in the given weeks, days, hours, minutes and
/// seconds together.
pub open spec fn seconds_in(weeks: int, days: int, hours: int, minutes: int, seconds: int) -> int {
    weeks * 604800 + days * 86400 + hours * 3600 + minutes * 60 + seconds
}

/// The component, or 0 where it is absent.
pub open spec fn or_zero(component: Option<i64>) -> int {
    match component {
        Some(n) => n as int,
        None => 0,
    }
}

/// Builds the date and time with `chrono::NaiveDate::from_ymd_opt` and
/// `chrono::NaiveDate::and_hms_opt`, adds the seconds with
/// `chrono::NaiveDateTime::checked_add_signed` on a
/// `chrono::TimeDelta::try_seconds`, and reads the six fields of the sum.
/// Each of these returns `None` rather than panic. The result is named
/// [`shifted`].
#[verifier::external_body]
fn shift(moment: &Moment, seconds: i64) -> (then: Option<Moment>)
    ensures
        optional_fields(then) == shifted(fields_of(*moment), seconds as int),
{
    let at = chrono::NaiveDate::from_ymd_opt(moment.year, moment.month, moment.day)?
        .and_hms_opt(moment.hour, moment.min, moment.sec)?;
    let then = at.checked_add_signed(chrono::TimeDelta::try_seconds(seconds)?)?;
    Some(Moment {
        year: then.year(),
        month: then.month(),
        day: then.day(),
        hour: then.hour(),
        min: then.minute(),
        sec: then.second(),
    })
}

/// Builds the date and time as [`shift`] does and writes
/// `chrono::NaiveDateTime::format` of it, which fails on a pattern with an
/// unknown specifier. The result is named [`formatted`].
#[verifier::external_body]
fn format(moment: &Moment, pattern: &str) -> (text: Option<String>)
    ensures
        optional_text(text) == formatted(fields_of(*moment), pattern@),
{
    let at = chrono::NaiveDate::from_ymd_opt(moment.year, moment.month, moment.day)?
        .and_hms_opt(moment.hour, moment.min, moment.sec)?;
    let mut text = String::new();
    match write!(text, "{}", at.format(pattern)) {
        Ok(()) => Some(text),
        Err(_) => None,
    }
}

impl Moment {
    /// The moment with the given fields, each absent one taken from
    /// 1970-01-01 00:00:00.
    pub fn from_fields(
        year: Option<i32>,
        month: Option<u32>,
        day: Option<u32>,
        hour: Option<u32>,
        min: Option<u32>,
        sec: Option<u32>,
    ) -> (moment: Moment)
        ensures
            moment.year == (if year is Some { year->Some_0 } else { 1970i32 }),
            moment.month == (if month is Some { month->Some_0 } else { 1u32 }),
            moment.day == (if day is Some { day->Some_0 } else { 1u32 }),
            moment.hour == (if hour is Some { hour->Some_0 } else { 0u32 }),
            moment.min == (if min is Some { min->Some_0 } else { 0u32 }),
            moment.sec == (if sec is Some { sec->Some_0 } else { 0u32 }),
    {
        Moment {
            year: match year { Some(y) => y, None => 1970 },
            month: match month { Some(m) => m, None => 1 },
            day: match day { Some(d) => d, None => 1 },
            hour: match hour { Some(h) => h, None => 0 },
            min: match min { Some(m) => m, None => 0 },
            sec: match sec { Some(s) => s, None => 0 },
        }
    }
}

/// The component, or 0 where it is absent.
fn component(value: Option<i64>) -> (n: i128)
    ensures
        n == or_zero(value),
{
    match value {
        Some(n) => n as i128,
        None => 0,
    }
}

/// The signed sum, in seconds, of the given components, each absent one
/// counting 0; `None` where the sum does not fit 64 bits.
pub fn offset_seconds(
    weeks: Option<i64>,
    days: Option<i64>,
    hours: Option<i64>,
    minutes: Option<i64>,
    seconds: Option<i64>,
) -> (total: Option<i64>)
    ensures
        total == (if i64::MIN <= seconds_in(
            or_zero(weeks),
            or_zero(days),
            or_zero(hours),
            or_zero(minutes),
            or_zero(seconds),
        ) <= i64::MAX {
            Some(
                seconds_in(
                    or_zero(weeks),
                    or_zero(days),
                    or_zero(hours),
                    or_zero(minutes),
                    or_zero(seconds),
                ) as i64,
            )
        } else {
            None
        }),
{
    let sum: i128 = component(weeks) * 604800 + component(days) * 86400 + component(hours) * 3600
        + component(minutes) * 60 + component(seconds);
    if sum < -9223372036854775808i128 || sum > 9223372036854775807i128 {
        None
    } else {
        Some(sum as i64)
    }
}

/// The moment shifted by the signed sum of the given components, each
/// absent one counting 0.
pub fn datetime_offset(
    moment: &Moment,
    weeks: Option<i64>,
    days: Option<i64>,
    hours: Option<i64>,
    minutes: Option<i64>,
    seconds: Option<i64>,
) -> (then: Result<Moment, BuiltinExecutionError>)
    ensures
        ({
            let sum = seconds_in(
                or_zero(weeks),
                or_zero(days),
                or_zero(hours),
                or_zero(minutes),
                or_zero(seconds),
            );
            if !(i64::MIN <= sum <= i64::MAX) {
                then == Err::<Moment, BuiltinExecutionError>(BuiltinExecutionError::Overflow)
            } else {
                match shifted(fields_of(*moment), sum) {
                    Some(fields) => then is Ok && fields_of(then->Ok_0) == fields,
                    None => then == Err::<Moment, BuiltinExecutionError>(
                        BuiltinExecutionError::InvalidMoment,
                    ),
                }
            }
        }),
{
    match offset_seconds(weeks, days, hours, minutes, seconds) {
        None => Err(BuiltinExecutionError::Overflow),
        Some(total) => match shift(moment, total) {
            Some(then) => Ok(then),
            None => Err(BuiltinExecutionError::InvalidMoment),
        },
    }
}

/// The text of the moment under a strftime-like pattern. Where there is
/// none, the moment is at fault if it cannot even be shifted by nothing, and
/// the pattern otherwise.
pub fn datetime_format(moment: &Moment, pattern: &str) -> (text: Result<
    String,
    BuiltinExecutionError,
>)
    ensures
        match formatted(fields_of(*moment), pattern@) {
            Some(expected) => text is Ok && text->Ok_0@ == expected,
            None => text is Err && text->Err_0 == (if shifted(fields_of(*moment), 0) is Some {
                BuiltinExecutionError::InvalidPattern
            } else {
                BuiltinExecutionError::InvalidMoment
            }),
        },
{
    match format(moment, pattern) {
        Some(text) => Ok(text),
        None => match shift(moment, 0) {
            Some(_) => Err(BuiltinExecutionError::InvalidPattern),
            None => Err(BuiltinExecutionError::InvalidMoment),
        },
    }
}

/// The six fields of a moment as a table may hold them: each present or
/// absent.
#[derive(Debug, Clone, Copy, PartialEq)]
pub struct MomentFields {
    pub year: Option<i32>,
    pub month: Option<u32>,
    pub day: Option<u32>,
    pub hour: Option<u32>,
    pub min: Option<u32>,
    pub sec: Option<u32>,
}

impl MomentFields {
    /// The moment of the fields, each absent one taken from 1970-01-01
    /// 00:00:00.
    pub fn moment(&self) -> (moment: Moment)
        ensures
            moment.year == (if self.year is Some { self.year->Some_0 } else { 1970i32 }),
            moment.month == (if self.month is Some { self.month->Some_0 } else { 1u32 }),
            moment.day == (if self.day is Some { self.day->Some_0 } else { 1u32 }),
            moment.hour == (if self.hour is Some { self.hour->Some_0 } else { 0u32 }),
            moment.min == (if self.min is Some { self.min->Some_0 } else { 0u32 }),
            moment.sec == (if self.sec is Some { self.sec->Some_0 } else { 0u32 }),
    {
        Moment::from_fields(self.year, self.month, self.day, self.hour, self.min, self.sec)
    }
}

/// The callable `datetime_format`.
pub struct DateTimeFormat;

/// The callable `datetime_offset`.
pub struct DateTimeOffset;

/// The value as a signed field of 32 bits: the value where it fits, and
/// none where it does not or where there is no value.
pub open spec fn signed_field(value: Option<i64>) -> Option<i32> {
    match value {
        Some(v) => if i32::MIN <= v <= i32::MAX {
            Some(v as i32)
        } else {
            None
        },
        None => None,
    }
}

/// The value as an unsigned field of 32 bits: the value where it fits, and
/// none where it does not or where there is no value.
pub open spec fn unsigned_field(value: Option<i64>) -> Option<u32> {
    match value {
        Some(v) => if 0 <= v <= u32::MAX {
            Some(v as u32)
        } else {
            None
        },
        None => None,
    }
}

/// The value as a signed field of 32 bits.
pub fn narrow_signed(value: Option<i64>) -> (field: Option<i32>)
    ensures
        field == signed_field(value),
{
    match value {
        Some(v) => if -2147483648 <= v && v <= 2147483647 {
            Some(v as i32)
        } else {
            None
        },
        None => None,
    }
}

/// The value as an unsigned field of 32 bits.
pub fn narrow_unsigned(value: Option<i64>) -> (field: Option<u32>)
    ensures
        field == unsigned_field(value),
{
    match value {
        Some(v) => if 0 <= v && v <= 4294967295 {
            Some(v as u32)
        } else {
            None
        },
        None => None,
    }
}

/// The six fields of a moment as a table holds them, each read under its
/// name: `year`, `month`, `day`, `hour`, `min` and `sec`. A field that the
/// table lacks, or holds as something else than an integer that fits the
/// field, is absent.
pub fn read_fields(table: &LuaValue) -> (fields: MomentFields) {
    MomentFields {
        year: narrow_signed(table_integer(table, "year")),
        month: narrow_unsigned(table_integer(table, "month")),
        day: narrow_unsigned(table_integer(table, "day")),
        hour: narrow_unsigned(table_integer(table, "hour")),
        min: narrow_unsigned(table_integer(table, "min")),
        sec: narrow_unsigned(table_integer(table, "sec")),
    }
}

/// The text of the moment that a table holds, under a strftime-like
/// pattern: the result is that of [`datetime_format`] on that moment.
pub fn format_table(table: &LuaValue, pattern: &str) -> (text: Result<
    String,
    BuiltinExecutionError,
>)
    ensures
        exists|moment: Moment| #[trigger] is_format_of(text, moment, pattern@),
{
    let moment = read_fields(table).moment();
    let text = datetime_format(&moment, pattern);
    proof {
        assert(is_format_of(text, moment, pattern@));
    }
    text
}

/// Whether `text` is what formatting `moment` under `pattern` gives: the
/// text where there is one, and else the error that says whether the moment
/// or the pattern is at fault.
pub open spec fn is_format_of(
    text: Result<String, BuiltinExecutionError>,
    moment: Moment,
    pattern: Seq<char>,
) -> bool {
    match formatted(fields_of(moment), pattern) {
        Some(expected) => text is Ok && text->Ok_0@ == expected,
        None => text is Err && text->Err_0 == (if shifted(fields_of(moment), 0) is Some {
            BuiltinExecutionError::InvalidPattern
        } else {
            BuiltinExecutionError::InvalidMoment
        }),
    }
}

/// Whether `then` is what shifting `moment` by `sum` seconds gives: an
/// overflow where the sum does not fit 64 bits, else the shifted moment
/// where there is one, and else an invalid moment.
pub open spec fn is_offset_of(
    then: Result<Moment, BuiltinExecutionError>,
    moment: Moment,
    sum: int,
) -> bool {
    if !(i64::MIN <= sum <= i64::MAX) {
        then == Err::<Moment, BuiltinExecutionError>(BuiltinExecutionError::Overflow)
    } else {
        match shifted(fields_of(moment), sum) {
            Some(fields) => then is Ok && fields_of(then->Ok_0) == fields,
            None => then == Err::<Moment, BuiltinExecutionError>(
                BuiltinExecutionError::InvalidMoment,
            ),
        }
    }
}

/// The moment that a table holds, shifted by the signed sum of the given
/// components: the result is that of [`datetime_offset`] on that moment.
pub fn offset_table(
    table: &LuaValue,
    weeks: Option<i64>,
    days: Option<i64>,
    hours: Option<i64>,
    minutes: Option<i64>,
    seconds: Option<i64>,
) -> (then: Result<Moment, BuiltinExecutionError>)
    ensures
        exists|moment: Moment| #[trigger]
            is_offset_of(
                then,
                moment,
                seconds_in(
                    or_zero(weeks),
                    or_zero(days),
                    or_zero(hours),
                    or_zero(minutes),
                    or_zero(seconds),
                ),
            ),
{
    let moment = read_fields(table).moment();
    let then = datetime_offset(&moment, weeks, days, hours, minutes, seconds);
    proof {
        assert(is_offset_of(
            then,
            moment,
            seconds_in(
                or_zero(weeks),
                or_zero(days),
                or_zero(hours),
                or_zero(minutes),
                or_zero(seconds),
            ),
        ));
    }
    then
}

/// The table that stands for a moment: its six fields as integers under
/// their names, in the order year, month, day, hour, min, sec.
pub open spec fn moment_view(moment: Moment) -> DynamicView {
    DynamicView::Table(
        seq![
            (KeyView::Text("year"@), DynamicView::Integer(moment.year as int)),
            (KeyView::Text("month"@), DynamicView::Integer(moment.month as int)),
            (KeyView::Text("day"@), DynamicView::Integer(moment.day as int)),
            (KeyView::Text("hour"@), DynamicView::Integer(moment.hour as int)),
            (KeyView::Text("min"@), DynamicView::Integer(moment.min as int)),
            (KeyView::Text("sec"@), DynamicView::Integer(moment.sec as int)),
        ],
    )
}

/// The table that stands for a moment.
pub fn moment_value(moment: &Moment) -> (value: DynamicValue)
    ensures
        value@ == moment_view(*moment),
{
    let mut entries: Vec<(DynamicKey, DynamicValue)> = Vec::new();
    entries.push((DynamicKey::Text("year".to_owned()), DynamicValue::Integer(moment.year as i64)));
    entries.push(
        (DynamicKey::Text("month".to_owned()), DynamicValue::Integer(moment.month as i64)),
    );
    entries.push((DynamicKey::Text("day".to_owned()), DynamicValue::Integer(moment.day as i64)));
    entries.push((DynamicKey::Text("hour".to_owned()), DynamicValue::Integer(moment.hour as i64)));
    entries.push((DynamicKey::Text("min".to_owned()), DynamicValue::Integer(moment.min as i64)));
    entries.push((DynamicKey::Text("sec".to_owned()), DynamicValue::Integer(moment.sec as i64)));
    proof {
        lemma_table_view(entries);
        assert(entry_views(entries@) =~= moment_view(*moment)->Table_0);
    }
    DynamicValue::Table(entries)
}

/// The moment that a table holds, shifted by the signed sum of the given
/// components, as a table of the interpreter `lua`. A failure of the shift
/// is handed on; a shifted moment that the interpreter could not hold as a
/// table is reported as unsupported.
pub fn offset_table_in(
    lua: &mlua::Lua,
    table: &LuaValue,
    weeks: Option<i64>,
    days: Option<i64>,
    hours: Option<i64>,
    minutes: Option<i64>,
    seconds: Option<i64>,
) -> (then: Result<mlua::Table, BuiltinExecutionError>)
    ensures
        exists|moment: Moment, shift: Result<Moment, BuiltinExecutionError>| #[trigger]
            is_offset_of(
                shift,
                moment,
                seconds_in(
                    or_zero(weeks),
                    or_zero(days),
                    or_zero(hours),
                    or_zero(minutes),
                    or_zero(seconds),
                ),
            ) && match shift {
                Ok(_) => then is Err ==> then->Err_0 == BuiltinExecutionError::Marshal(
                    MarshalError::Unsupported,
                ),
                Err(e) => then is Err && then->Err_0 == e,
            },
{
    let shift = offset_table(table, weeks, days, hours, minutes, seconds);
    let ghost sum = seconds_in(
        or_zero(weeks),
        or_zero(days),
        or_zero(hours),
        or_zero(minutes),
        or_zero(seconds),
    );
    let ghost moment = choose|moment: Moment| #[trigger] is_offset_of(shift, moment, sum);
    let then = match &shift {
        Ok(shifted_to) => match into_lua(lua, &moment_value(shifted_to)) {
            Ok(built) => match value_table(built) {
                Some(built) => Ok(built),
                None => Err(BuiltinExecutionError::Marshal(MarshalError::Unsupported)),
            },
            Err(e) => Err(BuiltinExecutionError::Marshal(e)),
        },
        Err(e) => Err(*e),
    };
    proof {
        assert(is_offset_of(shift, moment, sum));
    }
    then
}

/// Calls `mlua::Lua::create_function` on a closure that holds the table it
/// is handed together with its interpreter, hands it and a pattern to
/// [`format_table`] and gives back the text, or the error by its message.
#[verifier::external_body]
fn datetime_format_function(lua: &mlua::Lua) -> mlua::Function {
    lua.create_function(|lua, (table, pattern): (mlua::Table, String)| {
        let held = LuaValue { lua: lua.clone(), value: mlua::Value::Table(table) };
        format_table(&held, &pattern).map_err(|e| mlua::Error::RuntimeError(e.message()))
    }).unwrap()
}

/// Calls `mlua::Lua::create_function` on a closure that holds the table it
/// is handed together with its interpreter, hands it and the five
/// components to [`offset_table_in`] and gives back the table, or the error
/// by its message.
#[verifier::external_body]
fn datetime_offset_function(lua: &mlua::Lua) -> mlua::Function {
    lua.create_function(|lua, (table, w, d, h, m, s): (mlua::Table, Option<i64>, Option<i64>, Option<i64>, Option<i64>, Option<i64>)| {
        let held = LuaValue { lua: lua.clone(), value: mlua::Value::Table(table) };
        offset_table_in(lua, &held, w, d, h, m, s)
            .map_err(|e| mlua::Error::RuntimeError(e.message()))
    }).unwrap()
}

impl BuiltinFunction for DateTimeFormat {
    fn get_name(&self) -> (name: &str)
        ensures
            name@ == "datetime_format"@,
    {
        "datetime_format"
    }

    fn get_function(&self, lua: &mlua::Lua) -> mlua::Function {
        datetime_format_function(lua)
    }
}

impl BuiltinFunction for DateTimeOffset {
    fn get_name(&self) -> (name: &str)
        ensures
            name@ == "datetime_offset"@,
    {
        "datetime_offset"
    }

    fn get_function(&self, lua: &mlua::Lua) -> mlua::Function {
        datetime_offset_function(lua)
    }
}

} // verus!
