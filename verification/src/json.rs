//! JSON documents as plain data, and the reading of a text into one.

use crate::error::{ArchiverError, ErrorView};
use vstd::prelude::*;
use vstd::string::*;

verus! {

/// A JSON number.
#[derive(Debug, Clone, PartialEq, Eq)]
pub enum Number {
    /// An integer from zero up.
    Unsigned(u64),
    /// An integer below zero.
    Negative(i64),
    /// Any other number, by its text.
    Fraction(String),
}

/// A JSON value.
#[derive(Debug, PartialEq, Eq)]
pub enum Json {
    Null,
    Bool(bool),
    Number(Number),
    /// A string.
    Text(String),
    Array(Vec<Json>),
    /// An object: its members, each a name and a value. Where a name stands
    /// more than once, the first member of that name counts.
    Object(Vec<(String, Json)>),
}

/// What a [`Number`] stands for.
pub enum NumberView {
    Unsigned(u64),
    Negative(i64),
    Fraction(Seq<char>),
}

/// What a [`Json`] stands for.
pub enum JsonView {
    Null,
    Bool(bool),
    Number(NumberView),
    Text(Seq<char>),
    Array(Seq<JsonView>),
    Object(Seq<(Seq<char>, JsonView)>),
}

impl View for Number {
    type V = NumberView;

    open spec fn view(&self) -> NumberView {
        match self {
            Number::Unsigned(n) => NumberView::Unsigned(*n),
            Number::Negative(n) => NumberView::Negative(*n),
            Number::Fraction(t) => NumberView::Fraction(t@),
        }
    }
}

impl View for Json {
    type V = JsonView;

    open spec fn view(&self) -> JsonView {
        value_view(*self)
    }
}

/// What `value` stands for.
pub open spec fn value_view(value: Json) -> JsonView
    decreases value, 0nat,
{
    match value {
        Json::Null => JsonView::Null,
        Json::Bool(b) => JsonView::Bool(b),
        Json::Number(n) => JsonView::Number(n@),
        Json::Text(t) => JsonView::Text(t@),
        Json::Array(items) => JsonView::Array(item_views(items@, items@.len())),
        Json::Object(members) => JsonView::Object(member_views(members@, members@.len())),
    }
}

/// What the first `n` of `items` stand for, in order.
pub open spec fn item_views(items: Seq<Json>, n: nat) -> Seq<JsonView>
    decreases items, n,
{
    if n == 0 || n > items.len() {
        Seq::empty()
    } else {
        item_views(items, (n - 1) as nat).push(value_view(items[n - 1]))
    }
}

/// What the first `n` of `members` stand for, in order.
pub open spec fn member_views(members: Seq<(String, Json)>, n: nat) -> Seq<(Seq<char>, JsonView)>
    decreases members, n,
{
    if n == 0 || n > members.len() {
        Seq::empty()
    } else {
        member_views(members, (n - 1) as nat).push(
            (members[n - 1].0@, value_view(members[n - 1].1)),
        )
    }
}

/// The values that `items` stand for, in order.
pub open spec fn views_of(items: Seq<Json>) -> Seq<JsonView> {
    items.map_values(|item: Json| item@)
}

/// The members that `members` stand for, in order.
pub open spec fn member_views_of(members: Seq<(String, Json)>) -> Seq<(Seq<char>, JsonView)> {
    members.map_values(|member: (String, Json)| (member.0@, member.1@))
}

/// The first `n` of `items` stand for `n` values, each for its own.
proof fn lemma_item_views(items: Seq<Json>, n: nat)
    requires
        n <= items.len(),
    ensures
        item_views(items, n).len() == n,
        forall|i: int| 0 <= i < n ==> item_views(items, n)[i] == items[i]@,
    decreases n,
{
    if n > 0 {
        lemma_item_views(items, (n - 1) as nat);
    }
}

/// The first `n` of `members` stand for `n` members, each for its own.
proof fn lemma_member_views(members: Seq<(String, Json)>, n: nat)
    requires
        n <= members.len(),
    ensures
        member_views(members, n).len() == n,
        forall|i: int|
            0 <= i < n ==> member_views(members, n)[i] == (members[i].0@, members[i].1@),
    decreases n,
{
    if n > 0 {
        lemma_member_views(members, (n - 1) as nat);
    }
}

/// An array stands for the values that its items stand for.
pub proof fn lemma_array_view(items: Vec<Json>)
    ensures
        Json::Array(items)@ == JsonView::Array(views_of(items@)),
{
    lemma_item_views(items@, items@.len());
    assert(item_views(items@, items@.len()) =~= views_of(items@));
}

/// An object stands for the members that its members stand for.
pub proof fn lemma_object_view(members: Vec<(String, Json)>)
    ensures
        Json::Object(members)@ == JsonView::Object(member_views_of(members@)),
{
    lemma_member_views(members@, members@.len());
    assert(member_views(members@, members@.len()) =~= member_views_of(members@));
}

/// The value of the first of `members` that goes by `name`.
pub open spec fn value_named(members: Seq<(Seq<char>, JsonView)>, name: Seq<char>) -> Option<
    JsonView,
>
    decreases members.len(),
{
    if members.len() == 0 {
        None
    } else if members[0].0 == name {
        Some(members[0].1)
    } else {
        value_named(members.drop_first(), name)
    }
}

/// What stands under `name` in `value`: the member's value where `value` is
/// an object that has such a member, and null in every other case.
pub open spec fn member(value: JsonView, name: Seq<char>) -> JsonView {
    match value {
        JsonView::Object(members) => match value_named(members, name) {
            Some(found) => found,
            None => JsonView::Null,
        },
        _ => JsonView::Null,
    }
}

impl Json {
    /// Whether this value is null.
    pub fn is_null(&self) -> (null: bool)
        ensures
            null == (self@ is Null),
    {
        match self {
            Json::Null => true,
            _ => false,
        }
    }

    /// The items of this value where it is an array.
    pub fn as_array(&self) -> (found: Option<&Vec<Json>>)
        ensures
            match found {
                Some(items) => self@ == JsonView::Array(views_of(items@)),
                None => !(self@ is Array),
            },
    {
        match self {
            Json::Array(items) => {
                proof {
                    lemma_array_view(*items);
                }
                Some(items)
            },
            _ => None,
        }
    }

    /// The text of this value where it is a string.
    pub fn as_text(&self) -> (found: Option<&String>)
        ensures
            match found {
                Some(text) => self@ == JsonView::Text(text@),
                None => !(self@ is Text),
            },
    {
        match self {
            Json::Text(text) => Some(text),
            _ => None,
        }
    }

    /// This value where it is a number.
    pub fn as_number(&self) -> (found: Option<&Number>)
        ensures
            match found {
                Some(number) => self@ == JsonView::Number(number@),
                None => !(self@ is Number),
            },
    {
        match self {
            Json::Number(number) => Some(number),
            _ => None,
        }
    }

    /// What stands under `name` in this value, where it is an object that
    /// has such a member.
    pub fn get(&self, name: &str) -> (found: Option<&Json>)
        ensures
            match found {
                Some(value) => self@ is Object && value_named(self@->Object_0, name@) == Some(
                    value@,
                ),
                None => !(self@ is Object) || value_named(self@->Object_0, name@) is None,
            },
            match found {
                Some(value) => value@ == member(self@, name@),
                None => member(self@, name@) is Null,
            },
    {
        match self {
            Json::Object(members) => {
                let wanted = String::from_str(name);
                let ghost all = member_views_of(members@);
                proof {
                    lemma_object_view(*members);
                    assert(all.subrange(0, all.len() as int) == all);
                }
                let mut i: usize = 0;
                while i < members.len()
                    invariant
                        i <= members.len(),
                        wanted@ == name@,
                        self@ == JsonView::Object(all),
                        all.len() == members@.len(),
                        forall|k: int|
                            0 <= k < all.len() ==> all[k] == (members@[k].0@, members@[k].1@),
                        value_named(all, name@) == value_named(
                            all.subrange(i as int, all.len() as int),
                            name@,
                        ),
                    decreases members.len() - i,
                {
                    let ghost rest = all.subrange(i as int, all.len() as int);
                    assert(rest[0] == all[i as int]);
                    assert(rest.drop_first() == all.subrange(i + 1, all.len() as int));
                    if members[i].0 == wanted {
                        return Some(&members[i].1);
                    }
                    i += 1;
                }
                assert(all.subrange(i as int, all.len() as int).len() == 0);
                None
            },
            _ => None,
        }
    }
}

/// Declares `serde_json::Value`, the crate's JSON value. Nothing is read in
/// it here: it is only handed from the reader to the conversion.
#[verifier::external_type_specification]
#[verifier::external_body]
pub struct ExValue(serde_json::Value);

/// Declares `serde_json::Error`, what the reader returns for a text that is
/// no JSON document.
#[verifier::external_type_specification]
#[verifier::external_body]
pub struct ExJsonError(serde_json::Error);

/// What `serde_json::from_str` makes of `text` when asked for a
/// `serde_json::Value`: the document that the text writes down, or nothing
/// where the call reports an error.
pub uninterp spec fn json_document(text: Seq<char>) -> Option<JsonView>;

/// Rebuilds a `serde_json::Value` as a [`Json`], variant by variant: an
/// array item by item, an object member by member in the order in which
/// `serde_json::Map` hands them out, a number by `Number::as_u64` and
/// `Number::as_i64`, and where both decline by the text that the number's
/// `Display` writes. Nothing is promised of the result.
#[verifier::external_body]
fn json_of(value: serde_json::Value) -> Json {
    match value {
        serde_json::Value::Null => Json::Null,
        serde_json::Value::Bool(b) => Json::Bool(b),
        serde_json::Value::Number(n) => Json::Number(match (n.as_u64(), n.as_i64()) {
            (Some(u), _) => Number::Unsigned(u),
            (None, Some(i)) => Number::Negative(i),
            (None, None) => Number::Fraction(n.to_string()),
        }),
        serde_json::Value::String(s) => Json::Text(s),
        serde_json::Value::Array(items) => Json::Array(items.into_iter().map(json_of).collect()),
        serde_json::Value::Object(members) => Json::Object(
            members.into_iter().map(|(name, v)| (name, json_of(v))).collect(),
        ),
    }
}

/// `serde_json::from_str::<serde_json::Value>`: reads `text` as one JSON
/// document. The call reports an error for a text that holds no document,
/// more than one, or one nested deeper than the reader follows; it does not
/// panic. What it returns depends on the text alone, so the result goes by
/// the name `json_document`.
#[verifier::external_body]
fn read_document(text: &str) -> (read: Result<Json, serde_json::Error>)
    ensures
        match read {
            Ok(document) => json_document(text@) == Some(document@),
            Err(_) => json_document(text@) is None,
        },
{
    match serde_json::from_str::<serde_json::Value>(text) {
        Ok(value) => Ok(json_of(value)),
        Err(error) => Err(error),
    }
}

/// The words in which a `serde_json::Error` reports itself, as its `Display`
/// writes them.
#[verifier::external_body]
fn words_of(error: &serde_json::Error) -> String {
    error.to_string()
}

/// Reads `text` as one JSON document.
pub fn parse(text: &str) -> (parsed: Result<Json, ArchiverError>)
    ensures
        match parsed {
            Ok(document) => json_document(text@) == Some(document@),
            Err(error) => json_document(text@) is None && error@ == ErrorView::InvalidJson,
        },
{
    match read_document(text) {
        Ok(document) => Ok(document),
        Err(error) => Err(ArchiverError::InvalidJson(words_of(&error))),
    }
}

} // verus!
