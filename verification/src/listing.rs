//! Listing: the address of a tweet's own page, one line for each video tweet.

use crate::error::{ArchiverError, ErrorView};
use crate::json::{member, Json, JsonView, Number, NumberView};
use crate::text::{decimal, push_decimal, push_signed_decimal, push_str, signed_decimal, string_of};
use vstd::prelude::*;

verus! {

/// The handle of the tweet's author: what the tweet holds under `user`,
/// `screen_name`, where that is a text.
pub open spec fn author_of(record: JsonView) -> Option<Seq<char>> {
    match member(member(record, "user"@), "screen_name"@) {
        JsonView::Text(handle) => Some(handle),
        _ => None,
    }
}

/// A number as JSON writes it: an integer in decimal digits, any other number
/// by its own text.
pub open spec fn number_text(number: NumberView) -> Seq<char> {
    match number {
        NumberView::Unsigned(n) => decimal(n as nat),
        NumberView::Negative(n) => signed_decimal(n as int),
        NumberView::Fraction(text) => text,
    }
}

/// The tweet's identifier as it is written: what the tweet holds under `id`,
/// where that is a number.
pub open spec fn id_text_of(record: JsonView) -> Option<Seq<char>> {
    match member(record, "id"@) {
        JsonView::Number(number) => Some(number_text(number)),
        _ => None,
    }
}

/// The address of the tweet's own page. A tweet without an author's handle
/// that is a text, or without an identifier that is a number, has none.
pub open spec fn status_url_of(record: JsonView) -> Result<Seq<char>, ErrorView> {
    match (author_of(record), id_text_of(record)) {
        (Some(handle), Some(id)) => Ok("https://twitter.com/"@ + handle + "/status/"@ + id),
        _ => Err(ErrorView::MalformedRecord),
    }
}

/// Appends `number` to `out` as JSON writes it.
pub fn push_number(out: &mut Vec<char>, number: &Number)
    ensures
        final(out)@ == old(out)@ + number_text(number@),
{
    match number {
        Number::Unsigned(n) => push_decimal(out, *n),
        Number::Negative(n) => push_signed_decimal(out, *n),
        Number::Fraction(text) => push_str(out, text.as_str()),
    }
}

/// The address of the tweet's own page:
/// `https://twitter.com/`, the author's handle, `/status/`, the identifier.
pub fn status_url(record: &Json) -> (url: Result<String, ArchiverError>)
    ensures
        match url {
            Ok(url) => status_url_of(record@) == Ok::<Seq<char>, ErrorView>(url@),
            Err(error) => status_url_of(record@) == Err::<Seq<char>, ErrorView>(error@),
        },
{
    let handle = match record.get("user") {
        Some(user) => match user.get("screen_name") {
            Some(name) => name.as_text(),
            None => None,
        },
        None => None,
    };
    let id = match record.get("id") {
        Some(id) => id.as_number(),
        None => None,
    };
    match (handle, id) {
        (Some(handle), Some(id)) => {
            let mut line: Vec<char> = Vec::new();
            push_str(&mut line, "https://twitter.com/");
            push_str(&mut line, handle.as_str());
            push_str(&mut line, "/status/");
            push_number(&mut line, id);
            Ok(string_of(line.as_slice()))
        },
        _ => Err(ArchiverError::MalformedRecord),
    }
}

} // verus!
