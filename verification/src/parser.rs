//! The data files of an archive: a first line that belongs to no document,
//! and behind it a JSON array of tweets, broken into lines at will.

use crate::error::{ArchiverError, ErrorView};
use crate::json::{json_document, parse, views_of, Json, JsonView};
use crate::text::{chars_of, string_of};
use vstd::prelude::*;
use vstd::slice::slice_subrange;

verus! {

/// What follows the first line feed of `text`; nothing where it holds none.
pub open spec fn after_first_line(text: Seq<char>) -> Seq<char>
    decreases text.len(),
{
    if text.len() == 0 {
        text
    } else if text[0] == '\n' {
        text.drop_first()
    } else {
        after_first_line(text.drop_first())
    }
}

/// The character at `at` belongs to a line ending: it is a line feed, or a
/// carriage return with a line feed right behind it.
pub open spec fn ends_line_at(text: Seq<char>, at: int) -> bool {
    &&& 0 <= at < text.len()
    &&& (text[at] == '\n' || (text[at] == '\r' && at + 1 < text.len() && text[at + 1] == '\n'))
}

/// The first `n` characters of `text` without those that belong to a line
/// ending.
pub open spec fn unbroken_upto(text: Seq<char>, n: nat) -> Seq<char>
    decreases n,
{
    if n == 0 || n > text.len() {
        Seq::empty()
    } else if ends_line_at(text, n - 1) {
        unbroken_upto(text, (n - 1) as nat)
    } else {
        unbroken_upto(text, (n - 1) as nat).push(text[n - 1])
    }
}

/// The lines of `text` put end to end: `text` without its line endings. A
/// carriage return that no line feed follows stays.
pub open spec fn unbroken(text: Seq<char>) -> Seq<char> {
    unbroken_upto(text, text.len())
}

/// The JSON text of a data file: its lines but the first, put end to end.
pub open spec fn payload_of(content: Seq<char>) -> Seq<char> {
    unbroken(after_first_line(content))
}

/// Where the first line feed of `text` stands at `at`, the rest of `text`
/// begins right behind it.
pub proof fn lemma_after_first_line_at(text: Seq<char>, at: int)
    requires
        0 <= at < text.len(),
        text[at] == '\n',
        forall|k: int| 0 <= k < at ==> text[k] != '\n',
    ensures
        after_first_line(text) == text.subrange(at + 1, text.len() as int),
    decreases text.len(),
{
    if at == 0 {
        assert(text.drop_first() == text.subrange(1, text.len() as int));
    } else {
        let rest = text.drop_first();
        lemma_after_first_line_at(rest, at - 1);
        assert(rest.subrange(at, rest.len() as int) == text.subrange(
            at + 1,
            text.len() as int,
        ));
    }
}

/// A text without a line feed has nothing behind its first line.
pub proof fn lemma_after_first_line_none(text: Seq<char>)
    requires
        forall|k: int| 0 <= k < text.len() ==> text[k] != '\n',
    ensures
        after_first_line(text) == Seq::<char>::empty(),
    decreases text.len(),
{
    if text.len() > 0 {
        lemma_after_first_line_none(text.drop_first());
    }
}

/// Nothing that belongs to a line ending is left: no line feed, and no
/// carriage return that had a line feed right behind it.
pub proof fn lemma_unbroken_holds_no_line_feed(text: Seq<char>, n: nat)
    requires
        n <= text.len(),
    ensures
        forall|i: int|
            0 <= i < unbroken_upto(text, n).len() ==> unbroken_upto(text, n)[i] != '\n',
    decreases n,
{
    if n > 0 {
        lemma_unbroken_holds_no_line_feed(text, (n - 1) as nat);
        let shorter = unbroken_upto(text, (n - 1) as nat);
        assert forall|i: int| 0 <= i < unbroken_upto(text, n).len() implies unbroken_upto(
            text,
            n,
        )[i] != '\n' by {
            if i < shorter.len() {
                assert(unbroken_upto(text, n)[i] == shorter[i]);
            }
        }
    }
}

/// A text without a line feed is all one line: it stays as it is.
pub proof fn lemma_unbroken_keeps_one_line(text: Seq<char>, n: nat)
    requires
        n <= text.len(),
        forall|i: int| 0 <= i < text.len() ==> text[i] != '\n',
    ensures
        unbroken_upto(text, n) == text.take(n as int),
    decreases n,
{
    if n > 0 {
        lemma_unbroken_keeps_one_line(text, (n - 1) as nat);
        assert(text.take(n as int) == text.take(n - 1).push(text[n - 1]));
    }
}

/// What follows the first line of `chars`.
pub fn skip_first_line(chars: &[char]) -> (rest: &[char])
    ensures
        rest@ == after_first_line(chars@),
{
    let mut at: usize = 0;
    while at < chars.len() && chars[at] != '\n'
        invariant
            at <= chars.len(),
            forall|k: int| 0 <= k < at ==> chars@[k] != '\n',
        decreases chars.len() - at,
    {
        at += 1;
    }
    if at < chars.len() {
        proof {
            lemma_after_first_line_at(chars@, at as int);
        }
        slice_subrange(chars, at + 1, chars.len())
    } else {
        proof {
            lemma_after_first_line_none(chars@);
        }
        slice_subrange(chars, at, chars.len())
    }
}

/// The lines of `chars` put end to end.
pub fn join_lines(chars: &[char]) -> (joined: Vec<char>)
    ensures
        joined@ == unbroken(chars@),
{
    let mut joined: Vec<char> = Vec::new();
    let mut at: usize = 0;
    while at < chars.len()
        invariant
            at <= chars.len(),
            joined@ == unbroken_upto(chars@, at as nat),
        decreases chars.len() - at,
    {
        let c = chars[at];
        let ends_line = c == '\n' || (c == '\r' && at + 1 < chars.len() && chars[at + 1] == '\n');
        if !ends_line {
            joined.push(c);
        }
        at += 1;
    }
    joined
}

/// The JSON text of a data file: its lines but the first, put end to end.
pub fn strip_preamble(content: &str) -> (payload: String)
    ensures
        payload@ == payload_of(content@),
{
    let chars = chars_of(content);
    let joined = join_lines(skip_first_line(chars.as_slice()));
    string_of(joined.as_slice())
}

/// The records of a document: its items where it is an array.
pub open spec fn records_in(document: JsonView) -> Result<Seq<JsonView>, ErrorView> {
    match document {
        JsonView::Array(items) => Ok(items),
        _ => Err(ErrorView::NotAnArray),
    }
}

/// The records of `document`: its items where it is an array, `NotAnArray`
/// where it is anything else.
pub fn records_of(document: Json) -> (records: Result<Vec<Json>, ArchiverError>)
    ensures
        match records {
            Ok(items) => records_in(document@) == Ok::<Seq<JsonView>, ErrorView>(views_of(items@)),
            Err(error) => records_in(document@) == Err::<Seq<JsonView>, ErrorView>(error@),
        },
{
    match document {
        Json::Array(items) => {
            proof {
                crate::json::lemma_array_view(items);
            }
            Ok(items)
        },
        _ => Err(ArchiverError::NotAnArray),
    }
}

/// The records that the content of a data file holds, in order: the items of
/// the array that its payload writes down. A payload that is no JSON document
/// is `InvalidJson`, a document that is no array `NotAnArray`.
pub open spec fn records_read(content: Seq<char>) -> Result<Seq<JsonView>, ErrorView> {
    match json_document(payload_of(content)) {
        Some(document) => records_in(document),
        None => Err(ErrorView::InvalidJson),
    }
}

/// The records that the content of one data file holds, in order.
pub fn parse_records(content: &str) -> (records: Result<Vec<Json>, ArchiverError>)
    ensures
        match records {
            Ok(items) => records_read(content@) == Ok::<Seq<JsonView>, ErrorView>(
                views_of(items@),
            ),
            Err(error) => records_read(content@) == Err::<Seq<JsonView>, ErrorView>(error@),
        },
{
    let payload = strip_preamble(content);
    match parse(payload.as_str()) {
        Ok(document) => records_of(document),
        Err(error) => Err(error),
    }
}

} // verus!
