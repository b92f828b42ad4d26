//! The wall clock, as milliseconds and seconds since the Unix epoch, and the
//! timestamps that records carry.

use vstd::prelude::*;

use std::time::{Duration, SystemTime, SystemTimeError};

use crate::text::told;

verus! {

/// The outside type `std::time::SystemTime`.
#[verifier::external_type_specification]
#[verifier::external_body]
pub struct ExSystemTime(SystemTime);

/// The outside type `std::time::SystemTimeError`.
#[verifier::external_type_specification]
#[verifier::external_body]
pub struct ExSystemTimeError(SystemTimeError);

/// The outside type `time::Error`.
#[verifier::external_type_specification]
#[verifier::external_body]
pub struct ExTimeError(time::Error);

/// The nanoseconds of a duration, all of them.
pub uninterp spec fn nanos_of(duration: Duration) -> nat;

/// The whole milliseconds of a duration.
pub open spec fn whole_millis(duration: Duration) -> nat {
    nanos_of(duration) / 1_000_000
}

/// The whole seconds of a duration.
pub open spec fn whole_seconds(duration: Duration) -> nat {
    nanos_of(duration) / 1_000_000_000
}

/// How records write a moment, as the `time` crate describes it:
/// `YYYY-MM-DDThh:mm:ss.mmmZ`.
pub const STAMP_LAYOUT: &'static str =
    "[year]-[month]-[day]T[hour]:[minute]:[second].[subsecond digits:3]Z";

/// The message of a clock that stands before the epoch.
pub uninterp spec fn clock_error_message(error: SystemTimeError) -> Seq<char>;

/// The time from the epoch to the moment `now`; or the message of the error,
/// where the moment is before the epoch.
pub uninterp spec fn elapsed_at(now: SystemTime) -> Result<Duration, Seq<char>>;

/// The message of an error of the `time` crate.
pub uninterp spec fn time_error_message(error: time::Error) -> Seq<char>;

/// The moment `nanos` nanoseconds after the epoch, in UTC, written by `layout`; or
/// the message of the error that stands in the way.
pub uninterp spec fn formatted_utc(nanos: int, layout: Seq<char>) -> Result<Seq<char>, Seq<char>>;

/// The moment `nanos` nanoseconds after the epoch, in UTC, as records write it; or
/// the message of the error that stands in the way.
pub open spec fn utc_text_of(nanos: int) -> Result<Seq<char>, Seq<char>> {
    formatted_utc(nanos, STAMP_LAYOUT@)
}

/// The largest number of whole milliseconds that a duration can have.
pub open spec fn max_millis() -> int {
    u64::MAX * 1000 + 999
}

/// The first nanosecond, counted from the epoch, of the year ten thousand.
pub open spec fn year_ten_thousand() -> int {
    253_402_300_800_000_000_000
}

/// `SystemTime::now`: the present moment, of which nothing is known beforehand.
#[verifier::external_body]
fn system_now() -> SystemTime {
    SystemTime::now()
}

/// `SystemTime::duration_since` the Unix epoch: the time that has passed, or an
/// error where the moment is before the epoch. Both go by the moment alone.
#[verifier::external_body]
fn since_epoch(now: SystemTime) -> (result: Result<Duration, SystemTimeError>)
    ensures
        match result {
            Ok(duration) => elapsed_at(now) == Ok::<Duration, Seq<char>>(duration),
            Err(error) => elapsed_at(now) == Err::<Duration, Seq<char>>(clock_error_message(error)),
        },
{
    now.duration_since(std::time::UNIX_EPOCH)
}

/// `Duration::as_millis`: the whole milliseconds. A duration has at most `u64::MAX`
/// seconds and a fraction.
#[verifier::external_body]
fn as_millis(duration: &Duration) -> (millis: u128)
    ensures
        millis == nanos_of(*duration) / 1_000_000,
        millis <= max_millis(),
{
    duration.as_millis()
}

/// `Duration::as_secs`: the whole seconds.
#[verifier::external_body]
fn as_secs(duration: &Duration) -> (seconds: u64)
    ensures
        seconds == nanos_of(*duration) / 1_000_000_000,
{
    duration.as_secs()
}

/// The `Display` text of a `SystemTimeError`.
#[verifier::external_body]
fn clock_error_text(error: &SystemTimeError) -> (text: String)
    ensures
        text@ == clock_error_message(*error),
{
    error.to_string()
}

/// The `Display` text of a `time::Error`.
#[verifier::external_body]
fn time_error_text(error: &time::Error) -> (text: String)
    ensures
        text@ == time_error_message(*error),
{
    error.to_string()
}

/// `OffsetDateTime::from_unix_timestamp_nanos`, formatted by
/// `OffsetDateTime::format` with the description that `parse_borrowed` reads in
/// `layout`. By the layout of records, both succeed in the years from 1970 to
/// 9999, and the text has 24 characters.
#[verifier::external_body]
fn utc_text(nanos: i128, layout: &str) -> (result: Result<String, time::Error>)
    ensures
        match result {
            Ok(text) => formatted_utc(nanos as int, layout@) == Ok::<Seq<char>, Seq<char>>(text@),
            Err(error) => formatted_utc(nanos as int, layout@) == Err::<Seq<char>, Seq<char>>(
                time_error_message(error),
            ),
        },
        0 <= nanos < year_ten_thousand() && layout@ == STAMP_LAYOUT@ ==> result is Ok
            && result->Ok_0@.len() == 24,
{
    let form = time::format_description::parse_borrowed::<1>(layout)?;
    Ok(time::OffsetDateTime::from_unix_timestamp_nanos(nanos)?.format(&form)?)
}

/// The milliseconds of the time that has passed since the epoch, or the message
/// of a clock that stands before it.
pub open spec fn millis_of(elapsed: Result<Duration, Seq<char>>) -> Result<i128, Seq<char>> {
    match elapsed {
        Ok(duration) => Ok(whole_millis(duration) as i128),
        Err(message) => Err(message),
    }
}

/// The seconds of the time that has passed since the epoch; none where the clock
/// stands before it.
pub open spec fn seconds_of(elapsed: Result<Duration, Seq<char>>) -> nat {
    match elapsed {
        Ok(duration) => whole_seconds(duration),
        Err(_) => 0,
    }
}

/// The milliseconds of the time that has passed since the epoch.
pub fn epoch_millis(elapsed: Result<Duration, String>) -> (result: Result<i128, String>)
    ensures
        told(result) == millis_of(told(elapsed)),
        result matches Ok(millis) ==> 0 <= millis <= max_millis() && millis == whole_millis(
            elapsed->Ok_0,
        ),
{
    match elapsed {
        Ok(duration) => Ok(as_millis(&duration) as i128),
        Err(message) => Err(message),
    }
}

/// The seconds of the time that has passed since the epoch; none where the
/// clock stands before it.
pub fn epoch_seconds(elapsed: Result<Duration, String>) -> (seconds: u64)
    ensures
        seconds == seconds_of(told(elapsed)),
{
    match elapsed {
        Ok(duration) => as_secs(&duration),
        Err(_) => 0,
    }
}

/// The time that has passed since the epoch, or the message of a clock that
/// stands before it, at the moment that the clock shows.
fn elapsed() -> (result: Result<Duration, String>)
    ensures
        exists|now: SystemTime| told(result) == #[trigger] elapsed_at(now),
{
    let now = system_now();
    match since_epoch(now) {
        Ok(duration) => Ok(duration),
        Err(error) => Err(clock_error_text(&error)),
    }
}

/// The present moment in milliseconds since the epoch, as the clock shows it, or
/// the message of a clock that stands before the epoch.
pub fn now_ms() -> (result: Result<i128, String>)
    ensures
        exists|now: SystemTime| told(result) == millis_of(#[trigger] elapsed_at(now)),
        result matches Ok(millis) ==> 0 <= millis <= max_millis(),
{
    epoch_millis(elapsed())
}

/// The present moment in seconds since the epoch, as the clock shows it; none
/// where the clock stands before the epoch.
pub fn unix_seconds() -> (seconds: u64)
    ensures
        exists|now: SystemTime| seconds == seconds_of(#[trigger] elapsed_at(now)),
{
    epoch_seconds(elapsed())
}

/// The moment `now` milliseconds after the epoch, as records write it.
pub fn timestamp(now: i128) -> (result: Result<String, String>)
    requires
        i128::MIN <= now * 1_000_000 <= i128::MAX,
    ensures
        match result {
            Ok(text) => utc_text_of(now * 1_000_000) == Ok::<Seq<char>, Seq<char>>(text@),
            Err(message) => utc_text_of(now * 1_000_000) == Err::<Seq<char>, Seq<char>>(message@),
        },
        0 <= now * 1_000_000 < year_ten_thousand() ==> result is Ok && result->Ok_0@.len() == 24,
{
    match utc_text(now * 1_000_000, STAMP_LAYOUT) {
        Ok(text) => Ok(text),
        Err(error) => Err(time_error_text(&error)),
    }
}

/// A moment is told in whole milliseconds and in whole seconds since the epoch, rounded
/// down; a clock that stands before the epoch has an error for milliseconds, and shows no
/// seconds.
pub proof fn law_moments_are_whole(duration: Duration, message: Seq<char>)
    requires
        nanos_of(duration) / 1_000_000 <= i128::MAX,
    ensures
        millis_of(Ok(duration)) matches Ok(millis) && millis * 1_000_000 <= nanos_of(duration) < (
        millis + 1) * 1_000_000,
        seconds_of(Ok(duration)) * 1_000_000_000 <= nanos_of(duration) < (seconds_of(Ok(duration))
            + 1) * 1_000_000_000,
        millis_of(Err(message)) == Err::<i128, Seq<char>>(message),
        seconds_of(Err(message)) == 0,
{
}

/// Records write a moment by year, month, day, hour, minute, second and three digits of
/// its fraction, in UTC.
pub proof fn law_records_write_moments_in_utc(nanos: int)
    ensures
        utc_text_of(nanos) == formatted_utc(
            nanos,
            "[year]-[month]-[day]T[hour]:[minute]:[second].[subsecond digits:3]Z"@,
        ),
{
}

} // verus!
