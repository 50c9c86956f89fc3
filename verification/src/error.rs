//! What can stop a run, and how it is reported.

use crate::text::joined;
use vstd::prelude::*;
use vstd::string::*;

verus! {

/// Why a run stopped before its end.
#[derive(Debug, Clone, PartialEq, Eq)]
pub enum ArchiverError {
    /// No tweet data file lies under the archive root that the variant names.
    MissingTweetData(String),
    /// What follows the first line of a data file is no JSON document. The
    /// variant holds the JSON reader's own words.
    InvalidJson(String),
    /// The JSON document of a data file is not an array.
    NotAnArray,
    /// A record holds a field that was needed in a shape that cannot be used.
    MalformedRecord,
    /// A response came without a `Last-Modified` header that reads as text.
    MissingLastModified,
    /// The `Last-Modified` header is no RFC 2822 date. The variant holds the
    /// date reader's own words.
    InvalidLastModified(String),
    /// An event came in that the run was not waiting for.
    UnexpectedEvent,
}

/// The kind of an [`ArchiverError`], without the words of an outside reader.
pub enum ErrorView {
    MissingTweetData(Seq<char>),
    InvalidJson,
    NotAnArray,
    MalformedRecord,
    MissingLastModified,
    InvalidLastModified,
    UnexpectedEvent,
}

impl View for ArchiverError {
    type V = ErrorView;

    open spec fn view(&self) -> ErrorView {
        match self {
            ArchiverError::MissingTweetData(root) => ErrorView::MissingTweetData(root@),
            ArchiverError::InvalidJson(_) => ErrorView::InvalidJson,
            ArchiverError::NotAnArray => ErrorView::NotAnArray,
            ArchiverError::MalformedRecord => ErrorView::MalformedRecord,
            ArchiverError::MissingLastModified => ErrorView::MissingLastModified,
            ArchiverError::InvalidLastModified(_) => ErrorView::InvalidLastModified,
            ArchiverError::UnexpectedEvent => ErrorView::UnexpectedEvent,
        }
    }
}

/// The line that reports `error`. An error that holds the words of an outside
/// reader is reported in those words.
pub open spec fn message_of(error: ArchiverError) -> Seq<char> {
    match error {
        ArchiverError::MissingTweetData(root) => "Tweet data was not found in "@ + root@
            + ", is it an actual archive?"@,
        ArchiverError::InvalidJson(words) => words@,
        ArchiverError::NotAnArray => "Tweet data is not a JSON array"@,
        ArchiverError::MalformedRecord => "A tweet holds a field of an unexpected shape"@,
        ArchiverError::MissingLastModified => "The response carries no Last-Modified header"@,
        ArchiverError::InvalidLastModified(words) => words@,
        ArchiverError::UnexpectedEvent => "An event arrived that the run was not waiting for"@,
    }
}

impl ArchiverError {
    /// The line that reports this error.
    pub fn message(&self) -> (line: String)
        ensures
            line@ == message_of(*self),
    {
        match self {
            ArchiverError::MissingTweetData(root) => {
                let mut line = String::from_str("Tweet data was not found in ");
                line.append(root.as_str());
                line.append(", is it an actual archive?");
                line
            },
            ArchiverError::InvalidJson(words) => words.clone(),
            ArchiverError::NotAnArray => String::from_str("Tweet data is not a JSON array"),
            ArchiverError::MalformedRecord => String::from_str(
                "A tweet holds a field of an unexpected shape",
            ),
            ArchiverError::MissingLastModified => String::from_str(
                "The response carries no Last-Modified header",
            ),
            ArchiverError::InvalidLastModified(words) => words.clone(),
            ArchiverError::UnexpectedEvent => String::from_str(
                "An event arrived that the run was not waiting for",
            ),
        }
    }
}

/// The texts that `lines` hold.
pub open spec fn texts_of(lines: Seq<String>) -> Seq<Seq<char>> {
    lines.map_values(|line: String| line@)
}

/// One line for an error and what caused it: the messages of `chain`, the
/// error's own first and each cause behind it, with `": "` between them.
pub fn pretty_error(chain: &Vec<String>) -> (pretty: String)
    ensures
        pretty@ == joined(texts_of(chain@), ": "@),
{
    let mut pretty = String::new();
    let mut i: usize = 0;
    while i < chain.len()
        invariant
            i <= chain.len(),
            pretty@ == joined(texts_of(chain@).take(i as int), ": "@),
        decreases chain.len() - i,
    {
        let ghost before = texts_of(chain@).take(i as int);
        let ghost now = texts_of(chain@).take(i + 1);
        assert(now.drop_last() == before);
        assert(now.last() == chain@[i as int]@);
        if i > 0 {
            pretty.append(": ");
        }
        pretty.append(chain[i].as_str());
        i += 1;
    }
    assert(texts_of(chain@).take(chain.len() as int) == texts_of(chain@));
    pretty
}

} // verus!
