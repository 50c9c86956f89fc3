//! The time a downloaded file is given: the one its `Last-Modified` header
//! states.

use crate::error::{ArchiverError, ErrorView};
use vstd::prelude::*;

verus! {

/// A file's modification time: whole seconds since the start of 1970 in
/// universal time, and the nanoseconds behind them.
#[derive(Clone, Copy, Debug, PartialEq, Eq, Structural)]
pub struct ModificationTime {
    pub seconds: i64,
    pub nanoseconds: u32,
}

/// Declares `chrono::ParseError`, what the date reader returns for a text
/// that is no date.
#[verifier::external_type_specification]
#[verifier::external_body]
pub struct ExParseError(chrono::ParseError);

/// The moment that `chrono::DateTime::parse_from_rfc2822` reads in `text`,
/// counted as `chrono::DateTime::timestamp` counts it: in seconds since the
/// start of 1970 in universal time, leap seconds left out. Nothing where the
/// call reports an error.
pub uninterp spec fn rfc2822_seconds(text: Seq<char>) -> Option<i64>;

/// `chrono::DateTime::parse_from_rfc2822`, and `chrono::DateTime::timestamp`
/// on what it returns. The first reads a date and time with its offset as
/// RFC 2822 writes them and reports an error for any other text; neither
/// panics, and neither looks at anything but its argument, so the result
/// goes by the name `rfc2822_seconds`.
#[verifier::external_body]
fn read_rfc2822(text: &str) -> (read: Result<i64, chrono::ParseError>)
    ensures
        match read {
            Ok(seconds) => rfc2822_seconds(text@) == Some(seconds),
            Err(_) => rfc2822_seconds(text@) is None,
        },
{
    match chrono::DateTime::parse_from_rfc2822(text) {
        Ok(moment) => Ok(moment.timestamp()),
        Err(error) => Err(error),
    }
}

/// The words in which a `chrono::ParseError` reports itself, as its
/// `Display` writes them.
#[verifier::external_body]
fn words_of(error: &chrono::ParseError) -> String {
    error.to_string()
}

/// The modification time that a `Last-Modified` header states. The header
/// knows no part of a second: the nanoseconds are zero. A response without
/// the header is `MissingLastModified`, a header that is no RFC 2822 date
/// `InvalidLastModified`.
pub open spec fn stamp_of(header: Option<Seq<char>>) -> Result<ModificationTime, ErrorView> {
    match header {
        None => Err(ErrorView::MissingLastModified),
        Some(text) => match rfc2822_seconds(text) {
            Some(seconds) => Ok(ModificationTime { seconds, nanoseconds: 0 }),
            None => Err(ErrorView::InvalidLastModified),
        },
    }
}

/// The text of a header, where there is one.
pub open spec fn header_text(header: Option<&str>) -> Option<Seq<char>> {
    match header {
        Some(text) => Some(text@),
        None => None,
    }
}

/// The modification time that a `Last-Modified` header states.
pub fn modification_time(header: Option<&str>) -> (stamp: Result<ModificationTime, ArchiverError>)
    ensures
        match stamp {
            Ok(stamp) => stamp_of(header_text(header)) == Ok::<ModificationTime, ErrorView>(stamp),
            Err(error) => stamp_of(header_text(header)) == Err::<ModificationTime, ErrorView>(
                error@,
            ),
        },
{
    match header {
        None => Err(ArchiverError::MissingLastModified),
        Some(text) => match read_rfc2822(text) {
            Ok(seconds) => Ok(ModificationTime { seconds, nanoseconds: 0 }),
            Err(error) => Err(ArchiverError::InvalidLastModified(words_of(&error))),
        },
    }
}

} // verus!
