//! Instants and calendar dates as plain values, and the few things that only
//! `chrono` knows how to do with them: the clock, the machine's time zone, and
//! the RFC 3339 / ISO 8601 text forms.

use chrono::{Datelike, TimeZone};
use vstd::prelude::*;

verus! {

/// An instant: seconds and nanoseconds since the Unix epoch, and the offset
/// from UTC (in seconds) under which it was taken or written.
///
/// Two instants are the same moment when `segundos` and `nanos` agree; the
/// offset only changes how the instant is written.
#[derive(Debug, Clone, Copy, PartialEq, Eq)]
pub struct Instante {
    pub segundos: i64,
    pub nanos: u32,
    pub desvio: i32,
}

/// A calendar date (year, month, day), as `chrono::NaiveDate` holds it.
#[derive(Debug, Clone, Copy, PartialEq, Eq)]
pub struct Data {
    pub ano: i32,
    pub mes: u32,
    pub dia: u32,
}

/// An instant that `chrono` can represent: the sub-second part leaves room
/// for a leap second and the offset is less than a day.
pub open spec fn instante_valido(i: Instante) -> bool {
    &&& i.nanos < 2_000_000_000
    &&& -86_400 < i.desvio < 86_400
}

/// The RFC 3339 text of an instant (`DateTime::to_rfc3339`), written with its
/// own offset; `None` when `chrono` cannot represent it.
pub uninterp spec fn rfc3339(i: Instante) -> Option<Seq<char>>;

/// The instant that `DateTime::parse_from_rfc3339` reads in `t`, with the
/// offset written in the text; `None` when `t` is not RFC 3339.
pub uninterp spec fn leitura_rfc3339(t: Seq<char>) -> Option<Instante>;

/// What `NaiveDate::parse_from_str(t, "%Y-%m-%d")` gives for `t`: the date,
/// or the text of the parse error.
pub uninterp spec fn leitura_data(t: Seq<char>) -> Result<Data, Seq<char>>;

/// `NaiveDate::format("%Y-%m-%d")` of a date; `None` when the date does not
/// exist in the calendar.
pub uninterp spec fn data_iso(d: Data) -> Option<Seq<char>>;

/// `Local::now()`: the current instant, with the machine's offset.
///
/// Depends on the clock, so nothing is said of the value beyond its range.
#[verifier::external_body]
pub fn agora() -> (r: Instante)
    ensures
        instante_valido(r),
{
    let t = chrono::Local::now();
    Instante {
        segundos: t.timestamp(),
        nanos: t.timestamp_subsec_nanos(),
        desvio: t.offset().local_minus_utc(),
    }
}

/// `DateTime::to_rfc3339` of the instant, taken in its own offset.
#[verifier::external_body]
pub fn escrever_rfc3339(i: &Instante) -> (r: Option<String>)
    ensures
        r matches Some(s) ==> rfc3339(*i) == Some(s@),
        r is None ==> rfc3339(*i) is None,
{
    let fuso = chrono::FixedOffset::east_opt(i.desvio)?;
    let t = fuso.timestamp_opt(i.segundos, i.nanos).single()?;
    Some(t.to_rfc3339())
}

/// `DateTime::parse_from_rfc3339`: the instant and the offset written in `t`.
#[verifier::external_body]
pub fn ler_rfc3339(t: &str) -> (r: Option<Instante>)
    ensures
        r == leitura_rfc3339(t@),
        r matches Some(i) ==> instante_valido(i),
{
    let lido = chrono::DateTime::parse_from_rfc3339(t).ok()?;
    Some(Instante {
        segundos: lido.timestamp(),
        nanos: lido.timestamp_subsec_nanos(),
        desvio: lido.offset().local_minus_utc(),
    })
}

/// `DateTime::with_timezone(&Local)`: the offset of the machine's time zone at
/// the instant `segundos`; `None` when `DateTime::from_timestamp` cannot
/// represent the instant.
///
/// Depends on the machine's time zone, so only the range is stated.
#[verifier::external_body]
pub fn desvio_local(segundos: i64, nanos: u32) -> (r: Option<i32>)
    ensures
        r matches Some(d) ==> -86_400 < d < 86_400,
{
    match chrono::DateTime::from_timestamp(segundos, nanos) {
        Some(t) => Some(t.with_timezone(&chrono::Local).offset().local_minus_utc()),
        None => None,
    }
}

/// A date read, or the text of the error.
pub open spec fn como_leitura(r: Result<Data, String>) -> Result<Data, Seq<char>> {
    match r {
        Ok(d) => Ok(d),
        Err(e) => Err(e@),
    }
}

/// `NaiveDate::parse_from_str(t, "%Y-%m-%d")`, with the error as text.
#[verifier::external_body]
pub fn ler_data(t: &str) -> (r: Result<Data, String>)
    ensures
        leitura_data(t@) == como_leitura(r),
{
    match chrono::NaiveDate::parse_from_str(t, "%Y-%m-%d") {
        Ok(d) => Ok(Data { ano: d.year(), mes: d.month(), dia: d.day() }),
        Err(e) => Err(e.to_string()),
    }
}

/// `NaiveDate::and_hms_opt(0, 0, 0)` then `and_local_timezone(Local).earliest()`:
/// local midnight of the date, in the machine's time zone.
///
/// Which instant that is depends on the machine's time zone, and a midnight
/// that the zone skips gives none; but an instant that comes back is the
/// start of the day `d` in the offset it carries, so its calendar date in
/// that offset is `d`.
#[verifier::external_body]
pub fn meia_noite_local(d: &Data) -> (r: Option<Instante>)
    ensures
        r matches Some(i) ==> instante_valido(i) && data_do_instante(i) == Some(*d),
{
    let data = chrono::NaiveDate::from_ymd_opt(d.ano, d.mes, d.dia)?;
    let t = data.and_hms_opt(0, 0, 0)?.and_local_timezone(chrono::Local).earliest()?;
    Some(Instante {
        segundos: t.timestamp(),
        nanos: t.timestamp_subsec_nanos(),
        desvio: t.offset().local_minus_utc(),
    })
}

/// `NaiveDate::format("%Y-%m-%d")`.
#[verifier::external_body]
pub fn escrever_data(d: &Data) -> (r: Option<String>)
    ensures
        r matches Some(s) ==> data_iso(*d) == Some(s@),
        r is None ==> data_iso(*d) is None,
{
    let data = chrono::NaiveDate::from_ymd_opt(d.ano, d.mes, d.dia)?;
    Some(data.format("%Y-%m-%d").to_string())
}

/// The calendar date of an instant in its own offset
/// (`DateTime::date_naive`); `None` when `chrono` cannot represent it.
pub uninterp spec fn data_do_instante(i: Instante) -> Option<Data>;

/// `DateTime::format("%Y-%m-%d %H:%M")` of an instant in its own offset;
/// `None` when `chrono` cannot represent it.
pub uninterp spec fn data_e_hora(i: Instante) -> Option<Seq<char>>;

/// `DateTime::date_naive` of the instant, taken in its own offset.
#[verifier::external_body]
pub fn data_de(i: &Instante) -> (r: Option<Data>)
    ensures
        r == data_do_instante(*i),
{
    let fuso = chrono::FixedOffset::east_opt(i.desvio)?;
    let d = fuso.timestamp_opt(i.segundos, i.nanos).single()?.date_naive();
    Some(Data { ano: d.year(), mes: d.month(), dia: d.day() })
}

/// `DateTime::format("%Y-%m-%d %H:%M")` of the instant, taken in its own
/// offset.
#[verifier::external_body]
pub fn escrever_data_e_hora(i: &Instante) -> (r: Option<String>)
    ensures
        r matches Some(s) ==> data_e_hora(*i) == Some(s@),
        r is None ==> data_e_hora(*i) is None,
{
    let fuso = chrono::FixedOffset::east_opt(i.desvio)?;
    let t = fuso.timestamp_opt(i.segundos, i.nanos).single()?;
    Some(t.format("%Y-%m-%d %H:%M").to_string())
}

/// Today's date on the machine's clock and time zone (`Local::now()`
/// then `date_naive`).
pub fn hoje() -> (r: Option<Data>)
    ensures
        exists|i: Instante| instante_valido(i) && r == data_do_instante(i),
{
    let i = agora();
    data_de(&i)
}

} // verus!
