//! JSON values, and the reading of JSON text.
//!
//! The text is read by `serde_json`. What it yields is copied into `Json`, a
//! tree of this library's own, on which the decoding of a coverage export is
//! verified. Numbers stay as the reader holds them: the library asks a number
//! for its unsigned value and for its text with one fractional digit, and
//! believes both answers.

use vstd::prelude::*;

use crate::views::views;

verus! {

/// `serde_json::Value`, carried from the reader to `json_of_value` and not
/// looked into.
#[verifier::external_type_specification]
#[verifier::external_body]
pub struct ExValue(serde_json::Value);

/// `serde_json::Number`, kept in the tree as it came. What is inside is not
/// looked into: a number is asked through `as_u64` and `one_decimal`, and
/// `number_view` names what the two answer.
#[verifier::external_type_specification]
#[verifier::external_body]
pub struct ExNumber(serde_json::Number);

/// A JSON value.
#[derive(Debug)]
pub enum Json {
    /// `null`.
    Null,
    /// `true` or `false`.
    Bool(bool),
    /// A number, as the reader holds it.
    Number(serde_json::Number),
    /// A string.
    Text(String),
    /// An array.
    Array(Vec<Json>),
    /// An object: its members, in the order in which the reader hands them
    /// out.
    Object(Vec<Member>),
}

/// A member of a JSON object.
#[derive(Debug)]
pub struct Member {
    /// The member's name.
    pub name: String,
    /// The member's value.
    pub value: Json,
}

/// The view of `Json`.
pub ghost enum JsonView {
    Null,
    Bool(bool),
    Number(NumberView),
    Text(Seq<char>),
    Array(Seq<JsonView>),
    Object(Seq<MemberView>),
}

/// What the library reads off a JSON number.
pub ghost struct NumberView {
    /// The number's value, if it is an unsigned integer of 64 bits.
    pub unsigned: Option<u64>,
    /// The number taken as a double and printed with one digit after the
    /// point.
    pub one_decimal: Option<Seq<char>>,
}

/// The view of `Member`.
pub ghost struct MemberView {
    pub name: Seq<char>,
    pub value: JsonView,
}

impl View for Json {
    type V = JsonView;

    open spec fn view(&self) -> JsonView {
        json_view(*self)
    }
}

/// The view of a JSON value.
pub open spec fn json_view(json: Json) -> JsonView
    decreases json, 0nat,
{
    match json {
        Json::Null => JsonView::Null,
        Json::Bool(value) => JsonView::Bool(value),
        Json::Number(number) => JsonView::Number(number_view(number)),
        Json::Text(text) => JsonView::Text(text@),
        Json::Array(items) => JsonView::Array(item_views(items@, items@.len())),
        Json::Object(members) => JsonView::Object(member_views(members@, members@.len())),
    }
}

/// The views of the first `count` items.
pub open spec fn item_views(items: Seq<Json>, count: nat) -> Seq<JsonView>
    decreases items, count,
{
    if count == 0 || count > items.len() {
        Seq::empty()
    } else {
        item_views(items, (count - 1) as nat).push(json_view(items[count - 1]))
    }
}

/// The views of the first `count` members.
pub open spec fn member_views(members: Seq<Member>, count: nat) -> Seq<MemberView>
    decreases members, count,
{
    if count == 0 || count > members.len() {
        Seq::empty()
    } else {
        member_views(members, (count - 1) as nat).push(
            MemberView {
                name: members[count - 1].name@,
                value: json_view(members[count - 1].value),
            },
        )
    }
}

/// The views of the first items are the first of the items' views.
pub proof fn lemma_item_views(items: Seq<Json>, count: nat)
    requires
        count <= items.len(),
    ensures
        item_views(items, count) == views(items).take(count as int),
    decreases count,
{
    if count > 0 {
        lemma_item_views(items, (count - 1) as nat);
        assert(views(items).take(count as int) == views(items).take(count - 1).push(
            items[count - 1]@,
        ));
    } else {
        assert(views(items).take(0) == Seq::<JsonView>::empty());
    }
}

/// The views of the first members hold, one by one, the name and the view
/// of the value of each.
pub proof fn lemma_member_views(members: Seq<Member>, count: nat)
    requires
        count <= members.len(),
    ensures
        member_views(members, count).len() == count,
        forall|i: int|
            0 <= i < count ==> #[trigger] member_views(members, count)[i] == (MemberView {
                name: members[i].name@,
                value: members[i].value@,
            }),
    decreases count,
{
    if count > 0 {
        lemma_member_views(members, (count - 1) as nat);
    }
}

impl JsonView {
    /// The value of the first member called `name`, if this is an object
    /// that has one.
    pub open spec fn member(self, name: Seq<char>) -> Option<JsonView> {
        match self {
            JsonView::Object(members) => first_named(members, name),
            _ => None,
        }
    }

    /// The number's value, if this is a number that is an unsigned integer of
    /// 64 bits.
    pub open spec fn unsigned(self) -> Option<u64> {
        match self {
            JsonView::Number(number) => number.unsigned,
            _ => None,
        }
    }

    /// The truth value, if this is one.
    pub open spec fn truth(self) -> Option<bool> {
        match self {
            JsonView::Bool(value) => Some(value),
            _ => None,
        }
    }

    /// The text, if this is a string.
    pub open spec fn text(self) -> Option<Seq<char>> {
        match self {
            JsonView::Text(text) => Some(text),
            _ => None,
        }
    }

    /// The items, if this is an array.
    pub open spec fn items(self) -> Option<Seq<JsonView>> {
        match self {
            JsonView::Array(items) => Some(items),
            _ => None,
        }
    }

    /// The number printed with one digit after the point, if this is a
    /// number.
    pub open spec fn one_decimal(self) -> Option<Seq<char>> {
        match self {
            JsonView::Number(number) => number.one_decimal,
            _ => None,
        }
    }
}

/// The value of the first of `members` that is called `name`.
pub open spec fn first_named(members: Seq<MemberView>, name: Seq<char>) -> Option<JsonView>
    decreases members.len(),
{
    if members.len() == 0 {
        None
    } else if members[0].name == name {
        Some(members[0].value)
    } else {
        first_named(members.drop_first(), name)
    }
}

/// What `serde_json` reads from a text: the value, or the words of its error.
pub uninterp spec fn json_read(text: Seq<char>) -> Result<JsonView, Seq<char>>;

/// What a value of `serde_json` holds.
pub uninterp spec fn value_view(value: serde_json::Value) -> JsonView;

/// What a number of `serde_json` holds, as far as the library asks.
pub uninterp spec fn number_view(number: serde_json::Number) -> NumberView;

/// Calls `serde_json::from_str` for a `serde_json::Value`, and `to_string` on
/// the error it may return. Claims that the outcome depends on the text
/// alone: the same text reads as the same value, or fails with the same
/// words.
#[verifier::external_body]
fn read_value(text: &str) -> (outcome: Result<serde_json::Value, String>)
    ensures
        match outcome {
            Ok(value) => json_read(text@) == Ok::<JsonView, Seq<char>>(value_view(value)),
            Err(message) => json_read(text@) == Err::<JsonView, Seq<char>>(message@),
        },
{
    serde_json::from_str::<serde_json::Value>(text).map_err(|error| error.to_string())
}

/// Takes a `serde_json::Value` apart, variant by variant, and builds the same
/// tree as a `Json`; the members of an object come in the order in which its
/// map hands them out. Claims that the tree's view is what the value holds.
#[verifier::external_body]
fn json_of_value(value: serde_json::Value) -> (json: Json)
    ensures
        json@ == value_view(value),
{
    match value {
        serde_json::Value::Null => Json::Null,
        serde_json::Value::Bool(truth) => Json::Bool(truth),
        serde_json::Value::Number(number) => Json::Number(number),
        serde_json::Value::String(text) => Json::Text(text),
        serde_json::Value::Array(items) => Json::Array(
            items.into_iter().map(json_of_value).collect(),
        ),
        serde_json::Value::Object(members) => Json::Object(
            members.into_iter().map(
                |(name, value)| Member { name, value: json_of_value(value) },
            ).collect(),
        ),
    }
}

/// `serde_json::Number::as_u64`: the number's value where it is an unsigned
/// integer of 64 bits. Claims that the answer depends on the number alone.
pub assume_specification[ serde_json::Number::as_u64 ](number: &serde_json::Number) -> (value:
    Option<u64>)
    ensures
        value == number_view(*number).unsigned,
;

/// Calls `serde_json::Number::as_f64` and has std format the double with
/// precision one. Claims that the text depends on the number alone.
#[verifier::external_body]
pub(crate) fn one_decimal(number: &serde_json::Number) -> (text: Option<String>)
    ensures
        match text {
            Some(text) => number_view(*number).one_decimal == Some(text@),
            None => number_view(*number).one_decimal is None,
        },
{
    number.as_f64().map(|value| format!("{value:.1}"))
}

/// Reads a JSON text.
///
/// # Errors
///
/// Returns the reader's words if the text is not JSON.
pub fn parse_json(text: &str) -> (outcome: Result<Json, String>)
    ensures
        match outcome {
            Ok(json) => json_read(text@) == Ok::<JsonView, Seq<char>>(json@),
            Err(message) => json_read(text@) == Err::<JsonView, Seq<char>>(message@),
        },
{
    match read_value(text) {
        Ok(value) => Ok(json_of_value(value)),
        Err(message) => Err(message),
    }
}

impl Json {
    /// The value of the first member called `name`, if this is an object
    /// that has one.
    pub fn member(&self, name: &str) -> (found: Option<&Json>)
        ensures
            match found {
                Some(json) => self@.member(name@) == Some(json@),
                None => self@.member(name@) is None,
            },
    {
        match self {
            Json::Object(members) => {
                let wanted = name.to_owned();
                let ghost all = self@->Object_0;
                proof {
                    lemma_member_views(members@, members@.len());
                    assert(all.skip(0) == all);
                }
                let mut i: usize = 0;
                while i < members.len()
                    invariant
                        i <= members.len(),
                        wanted@ == name@,
                        self@ == JsonView::Object(all),
                        all.len() == members@.len(),
                        forall|k: int|
                            0 <= k < all.len() ==> all[k] == (MemberView {
                                name: members@[k].name@,
                                value: members@[k].value@,
                            }),
                        first_named(all, name@) == first_named(all.skip(i as int), name@),
                    decreases members.len() - i,
                {
                    proof {
                        assert(all.skip(i as int).drop_first() == all.skip(i + 1));
                    }
                    if members[i].name == wanted {
                        return Some(&members[i].value);
                    }
                    i = i + 1;
                }
                None
            },
            _ => None,
        }
    }

    /// The number's value, if this is a number that is an unsigned integer of
    /// 64 bits.
    pub fn unsigned(&self) -> (value: Option<u64>)
        ensures
            value == self@.unsigned(),
    {
        match self {
            Json::Number(number) => number.as_u64(),
            _ => None,
        }
    }

    /// The truth value, if this is one.
    pub fn truth(&self) -> (value: Option<bool>)
        ensures
            value == self@.truth(),
    {
        match self {
            Json::Bool(value) => Some(*value),
            _ => None,
        }
    }

    /// The text, if this is a string.
    pub fn text(&self) -> (text: Option<&String>)
        ensures
            match text {
                Some(text) => self@.text() == Some(text@),
                None => self@.text() is None,
            },
    {
        match self {
            Json::Text(text) => Some(text),
            _ => None,
        }
    }

    /// The items, if this is an array.
    pub fn items(&self) -> (items: Option<&Vec<Json>>)
        ensures
            match items {
                Some(items) => self@.items() == Some(views(items@)),
                None => self@.items() is None,
            },
    {
        match self {
            Json::Array(items) => {
                proof {
                    lemma_item_views(items@, items@.len());
                    assert(views(items@).take(items@.len() as int) == views(items@));
                }
                Some(items)
            },
            _ => None,
        }
    }
}

} // verus!
