//! The watermark as it is kept in durable storage: a date and time in the
//! notation of RFC 3339, of which the task table reads the whole seconds since
//! the epoch.

use chrono::{DateTime, ParseError};
use vstd::prelude::*;

use crate::storage::StorageManagerError;

verus! {

/// Why a text is no date, as chrono's parser reports it.
#[verifier::external_type_specification]
#[verifier::external_body]
pub struct ExParseError(ParseError);

/// The seconds since the epoch of the date and time that
/// `chrono::DateTime::parse_from_rfc3339` reads in a text, or `None` where it
/// reads none.
pub uninterp spec fn rfc3339_seconds(text: Seq<char>) -> Option<i64>;

/// The text that `chrono::DateTime::to_rfc3339` writes for the time, in UTC,
/// that lies so many whole seconds after the epoch, or `None` where chrono
/// has no date for that time.
pub uninterp spec fn rfc3339_text(seconds: i64) -> Option<Seq<char>>;

/// Reads a date with `chrono::DateTime::parse_from_rfc3339` and takes its
/// `timestamp`. The contract gives the outcome its name: it is a function of
/// the text alone.
#[verifier::external_body]
fn parse_rfc3339(text: &str) -> (result: Result<i64, ParseError>)
    ensures
        match result {
            Ok(seconds) => rfc3339_seconds(text@) == Some(seconds),
            Err(_) => rfc3339_seconds(text@).is_none(),
        },
{
    match DateTime::parse_from_rfc3339(text) {
        Ok(date) => Ok(date.timestamp()),
        Err(error) => Err(error),
    }
}

/// Makes the date with `chrono::DateTime::from_timestamp` and writes it with
/// `to_rfc3339`. The contract gives the outcome its name: it is a function of
/// the seconds alone.
#[verifier::external_body]
fn format_rfc3339(seconds: i64) -> (text: Option<String>)
    ensures
        match text {
            Some(written) => rfc3339_text(seconds) == Some(written@),
            None => rfc3339_text(seconds).is_none(),
        },
{
    match DateTime::from_timestamp(seconds, 0) {
        Some(date) => Some(date.to_rfc3339()),
        None => None,
    }
}

/// What chrono's parser says of a text that is no date, through its
/// `Display`. Nothing is claimed of the wording.
#[verifier::external_body]
fn describe(error: &ParseError) -> String {
    error.to_string()
}

/// Reads a stored watermark: the whole seconds of the date that the text
/// holds, or a parsing error where it holds none.
pub fn decode_watermark(value: &str) -> (result: Result<i64, StorageManagerError>)
    ensures
        match rfc3339_seconds(value@) {
            Some(seconds) => result == Ok::<i64, StorageManagerError>(seconds),
            None => result matches Err(StorageManagerError::Chrono(_)),
        },
{
    match parse_rfc3339(value) {
        Ok(seconds) => Ok(seconds),
        Err(error) => Err(StorageManagerError::Chrono(describe(&error))),
    }
}

/// Writes a watermark for storing, if the calendar reaches that far.
pub fn encode_watermark(date: i64) -> (value: Option<String>)
    ensures
        match rfc3339_text(date) {
            Some(text) => value matches Some(written) && written@ == text,
            None => value.is_none(),
        },
{
    format_rfc3339(date)
}

} // verus!
