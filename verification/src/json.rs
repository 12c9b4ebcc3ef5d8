//! JSON documents as the frames of the exchanges carry them.
use vstd::prelude::*;
use crate::binary64::Binary64;
use crate::decimal;
use crate::decimal::read;
use crate::text;
use crate::text::{parse_u64, same};

verus! {

/// A JSON value. A number keeps the text of its shortest form.
#[derive(Debug)]
pub enum Json {
    Null,
    Bool(bool),
    Number(String),
    Text(String),
    List(Vec<Json>),
    Object(Vec<(String, Json)>),
}

/// The decoded value of `serde_json`.
#[verifier::external_type_specification]
#[verifier::external_body]
pub struct ExValue(serde_json::Value);

/// The decoding error of `serde_json`.
#[verifier::external_type_specification]
#[verifier::external_body]
pub struct ExError(serde_json::Error);

/// What a value of `serde_json` holds.
pub uninterp spec fn json_tree(value: serde_json::Value) -> Json;

/// What `serde_json::from_str` makes of a text: the document, or the message of
/// the error.
pub uninterp spec fn decoded_json(source: Seq<char>) -> Result<Json, Seq<char>>;

/// The message of a decoding error.
pub uninterp spec fn json_error_text(error: serde_json::Error) -> Seq<char>;

/// The value of `serde_json` that holds a document.
pub uninterp spec fn json_value(tree: Json) -> serde_json::Value;

/// The compact text that `serde_json` writes for a value.
pub uninterp spec fn json_value_text(value: serde_json::Value) -> Seq<char>;

/// Calls `serde_json::from_str`. The outcome depends on the text alone: either
/// the text is accepted, and the value holds the document of that text, or the
/// error of that text comes back. Which texts are accepted is not stated.
#[verifier::external_body]
fn decode_value(source: &str) -> (r: Result<serde_json::Value, serde_json::Error>)
    ensures
        match r {
            Ok(value) => decoded_json(source@) == Ok::<Json, Seq<char>>(json_tree(value)),
            Err(error) => decoded_json(source@) == Err::<Json, Seq<char>>(json_error_text(error)),
        },
{
    serde_json::from_str(source)
}

/// Hands the contents of a `serde_json::Value` out, variant by variant. The
/// entries of an object come in the order in which its map is walked, which is
/// that of its keys, and a number comes as the text that `Number` displays.
#[verifier::external_body]
fn tree(value: &serde_json::Value) -> (r: Json)
    ensures
        r == json_tree(*value),
{
    match value {
        serde_json::Value::Null => Json::Null,
        serde_json::Value::Bool(flag) => Json::Bool(*flag),
        serde_json::Value::Number(number) => Json::Number(number.to_string()),
        serde_json::Value::String(inner) => Json::Text(inner.clone()),
        serde_json::Value::Array(items) => Json::List(items.iter().map(tree).collect()),
        serde_json::Value::Object(entries) => {
            Json::Object(entries.iter().map(|(key, inner)| (key.clone(), tree(inner))).collect())
        },
    }
}

/// The message of a `serde_json::Error`, as it displays itself.
#[verifier::external_body]
pub(crate) fn error_text(error: &serde_json::Error) -> (r: String)
    ensures
        r@ == json_error_text(*error),
{
    error.to_string()
}

/// The digits of a number that fits in `u64`, without a sign and without leading
/// zeros.
pub open spec fn is_plain_whole(number: Seq<char>) -> bool {
    text::whole(number) is Some && number == text::digits(text::whole(number)->0 as nat)
}

/// Builds the `serde_json::Value` that holds a document, variant by variant. A
/// number whose text `serde_json::Number` does not accept becomes null. The digits
/// of a number that fits in `u64` are accepted, and the value writes them again.
#[verifier::external_body]
fn value_of(document: &Json) -> (r: serde_json::Value)
    ensures
        r == json_value(*document),
        document is Number && is_plain_whole(document->Number_0@) ==> json_value_text(r)
            == document->Number_0@,
{
    match document {
        Json::Null => serde_json::Value::Null,
        Json::Bool(flag) => serde_json::Value::Bool(*flag),
        Json::Number(number) => number.parse().map_or(
            serde_json::Value::Null,
            serde_json::Value::Number,
        ),
        Json::Text(inner) => serde_json::Value::String(inner.clone()),
        Json::List(items) => serde_json::Value::Array(items.iter().map(value_of).collect()),
        Json::Object(entries) => serde_json::Value::Object(
            entries.iter().map(|(key, inner)| (key.clone(), value_of(inner))).collect(),
        ),
    }
}

/// The compact text of a `serde_json::Value`, as it displays itself.
#[verifier::external_body]
fn value_text(value: &serde_json::Value) -> (r: String)
    ensures
        r@ == json_value_text(*value),
{
    value.to_string()
}

/// The document of a text, or the message that says why there is none.
pub fn decode(source: &str) -> (r: Result<Json, String>)
    ensures
        match r {
            Ok(document) => decoded_json(source@) == Ok::<Json, Seq<char>>(document),
            Err(message) => decoded_json(source@) == Err::<Json, Seq<char>>(message@),
        },
{
    match decode_value(source) {
        Ok(value) => Ok(tree(&value)),
        Err(error) => Err(error_text(&error)),
    }
}

/// The compact text of a document.
pub open spec fn compact_text(document: Json) -> Seq<char> {
    json_value_text(json_value(document))
}

/// The compact text of a document.
pub fn compact(document: &Json) -> (r: String)
    ensures
        r@ == compact_text(*document),
        document is Number && is_plain_whole(document->Number_0@) ==> r@ == document->Number_0@,
{
    value_text(&value_of(document))
}

/// The value of the first entry with the given name.
pub open spec fn entry_named(entries: Seq<(String, Json)>, name: Seq<char>) -> Option<Json>
    decreases entries.len(),
{
    if entries.len() == 0 {
        None
    } else if entries[0].0@ == name {
        Some(entries[0].1)
    } else {
        entry_named(entries.skip(1), name)
    }
}

/// The index that a path token stands for: decimal digits without a sign and
/// without a leading zero.
pub open spec fn path_index(token: Seq<char>) -> Option<u64> {
    if token.len() > 0 && (token[0] == '+' || (token[0] == '0' && token.len() != 1)) {
        None
    } else {
        text::whole(token)
    }
}

/// An element found at an optional reference.
pub open spec fn is_found(r: Option<&Json>, expected: Option<Json>) -> bool {
    match r {
        Some(value) => expected == Some(*value),
        None => expected is None,
    }
}

impl Json {
    /// The entry of an object.
    pub open spec fn entry(self, name: Seq<char>) -> Option<Json> {
        match self {
            Json::Object(entries) => entry_named(entries@, name),
            _ => None,
        }
    }

    /// The item of a list.
    pub open spec fn item(self, index: int) -> Option<Json> {
        match self {
            Json::List(items) => if 0 <= index < items@.len() {
                Some(items@[index])
            } else {
                None
            },
            _ => None,
        }
    }

    /// One step of a path: the entry of an object, or the item of a list.
    pub open spec fn step(self, token: Seq<char>) -> Option<Json> {
        match self {
            Json::Object(entries) => entry_named(entries@, token),
            Json::List(items) => match path_index(token) {
                Some(index) => self.item(index as int),
                None => None,
            },
            _ => None,
        }
    }

    /// Two steps of a path.
    pub open spec fn path2(self, a: Seq<char>, b: Seq<char>) -> Option<Json> {
        match self.step(a) {
            Some(inner) => inner.step(b),
            None => None,
        }
    }

    /// Three steps of a path.
    pub open spec fn path3(self, a: Seq<char>, b: Seq<char>, c: Seq<char>) -> Option<Json> {
        match self.path2(a, b) {
            Some(inner) => inner.step(c),
            None => None,
        }
    }

    /// The characters of a text.
    pub open spec fn characters(self) -> Option<Seq<char>> {
        match self {
            Json::Text(inner) => Some(inner@),
            _ => None,
        }
    }

    /// The items of a list.
    pub open spec fn items(self) -> Option<Seq<Json>> {
        match self {
            Json::List(items) => Some(items@),
            _ => None,
        }
    }

    /// The characters of a text entry.
    pub open spec fn entry_text(self, name: Seq<char>) -> Option<Seq<char>> {
        match self.entry(name) {
            Some(inner) => inner.characters(),
            None => None,
        }
    }

    /// A number without sign and fraction, or a text that holds one.
    pub open spec fn as_whole(self) -> Option<u64> {
        match self {
            Json::Number(number) => text::whole(number@),
            Json::Text(inner) => text::whole(inner@),
            _ => None,
        }
    }

    /// A finite number, or a text that holds one.
    pub open spec fn as_real(self) -> Option<Binary64> {
        let number = match self {
            Json::Number(number) => decimal::reading(number@),
            Json::Text(inner) => decimal::reading(inner@),
            _ => None,
        };
        match number {
            Some(x) => if x.finite() {
                Some(x)
            } else {
                None
            },
            None => None,
        }
    }

    /// A whole number among the entries.
    pub open spec fn entry_whole(self, name: Seq<char>) -> Option<u64> {
        match self.entry(name) {
            Some(inner) => inner.as_whole(),
            None => None,
        }
    }

    /// A finite number among the entries.
    pub open spec fn entry_real(self, name: Seq<char>) -> Option<Binary64> {
        match self.entry(name) {
            Some(inner) => inner.as_real(),
            None => None,
        }
    }

    /// The entry of an object.
    pub fn get(&self, name: &str) -> (r: Option<&Json>)
        ensures
            is_found(r, self.entry(name@)),
    {
        match self {
            Json::Object(entries) => {
                let mut i: usize = 0;
                proof {
                    assert(entries@.skip(0) =~= entries@);
                }
                while i < entries.len()
                    invariant
                        i <= entries@.len(),
                        self.entry(name@) == entry_named(entries@.skip(i as int), name@),
                    decreases entries@.len() - i,
                {
                    if same(entries[i].0.as_str(), name) {
                        return Some(&entries[i].1);
                    }
                    proof {
                        assert(entries@.skip(i as int).skip(1) =~= entries@.skip(i as int + 1));
                    }
                    i = i + 1;
                }
                None
            },
            _ => None,
        }
    }

    /// The item of a list.
    pub fn at(&self, index: usize) -> (r: Option<&Json>)
        ensures
            is_found(r, self.item(index as int)),
    {
        match self {
            Json::List(items) => if index < items.len() {
                Some(&items[index])
            } else {
                None
            },
            _ => None,
        }
    }

    /// One step of a path.
    pub fn follow(&self, token: &str) -> (r: Option<&Json>)
        ensures
            is_found(r, self.step(token@)),
    {
        match self {
            Json::Object(_) => self.get(token),
            Json::List(items) => {
                let chars = text::characters(token);
                if chars.len() > 0 && (chars[0] == '+' || (chars[0] == '0' && chars.len() != 1)) {
                    return None;
                }
                match parse_u64(token) {
                    Some(index) => if index < items.len() as u64 {
                        Some(&items[index as usize])
                    } else {
                        None
                    },
                    None => None,
                }
            },
            _ => None,
        }
    }

    /// Two steps of a path.
    pub fn follow2(&self, a: &str, b: &str) -> (r: Option<&Json>)
        ensures
            is_found(r, self.path2(a@, b@)),
    {
        match self.follow(a) {
            Some(inner) => inner.follow(b),
            None => None,
        }
    }

    /// Three steps of a path.
    pub fn follow3(&self, a: &str, b: &str, c: &str) -> (r: Option<&Json>)
        ensures
            is_found(r, self.path3(a@, b@, c@)),
    {
        match self.follow2(a, b) {
            Some(inner) => inner.follow(c),
            None => None,
        }
    }

    /// The characters of a text.
    pub fn as_str(&self) -> (r: Option<&str>)
        ensures
            match r {
                Some(inner) => self.characters() == Some(inner@),
                None => self.characters() is None,
            },
    {
        match self {
            Json::Text(inner) => Some(inner.as_str()),
            _ => None,
        }
    }

    /// The items of a list.
    pub fn as_array(&self) -> (r: Option<&Vec<Json>>)
        ensures
            match r {
                Some(items) => self.items() == Some(items@),
                None => self.items() is None,
            },
    {
        match self {
            Json::List(items) => Some(items),
            _ => None,
        }
    }

    /// The characters of a text entry.
    pub fn get_str(&self, name: &str) -> (r: Option<&str>)
        ensures
            match r {
                Some(inner) => self.entry_text(name@) == Some(inner@),
                None => self.entry_text(name@) is None,
            },
    {
        match self.get(name) {
            Some(inner) => inner.as_str(),
            None => None,
        }
    }

    /// Whether the entry is a text with the given characters.
    pub fn has_text(&self, name: &str, wanted: &str) -> (r: bool)
        ensures
            r == (self.entry_text(name@) == Some(wanted@)),
    {
        match self.get_str(name) {
            Some(inner) => same(inner, wanted),
            None => false,
        }
    }
}

/// A number without sign and fraction, or a text that holds one.
pub fn json_u64(value: &Json) -> (r: Option<u64>)
    ensures
        r == value.as_whole(),
{
    match value {
        Json::Number(number) => parse_u64(number.as_str()),
        Json::Text(inner) => parse_u64(inner.as_str()),
        _ => None,
    }
}

/// A finite number, or a text that holds one.
pub fn json_f64(value: &Json) -> (r: Option<Binary64>)
    ensures
        r == value.as_real(),
{
    let number = match value {
        Json::Number(number) => read(number.as_str()),
        Json::Text(inner) => read(inner.as_str()),
        _ => None,
    };
    match number {
        Some(x) => if x.is_finite() {
            Some(x)
        } else {
            None
        },
        None => None,
    }
}

/// A whole number among the entries.
pub fn entry_u64(value: &Json, name: &str) -> (r: Option<u64>)
    ensures
        r == value.entry_whole(name@),
{
    match value.get(name) {
        Some(inner) => json_u64(inner),
        None => None,
    }
}

/// A finite number among the entries.
pub fn entry_f64(value: &Json, name: &str) -> (r: Option<Binary64>)
    ensures
        r == value.entry_real(name@),
{
    match value.get(name) {
        Some(inner) => json_f64(inner),
        None => None,
    }
}

/// An entry is found by its name, the first one where there are several; an item by
/// its index.
pub proof fn law_entries_are_found_by_name(
    name: String,
    value: Json,
    rest: Seq<(String, Json)>,
    wanted: Seq<char>,
)
    ensures
        entry_named(Seq::empty(), wanted) is None,
        name@ == wanted ==> entry_named(seq![(name, value)] + rest, wanted) == Some(value),
        name@ != wanted ==> entry_named(seq![(name, value)] + rest, wanted) == entry_named(
            rest,
            wanted,
        ),
{
    assert((seq![(name, value)] + rest).skip(1) =~= rest);
}

/// Digits are read as the number that they write, in a number as in a text; what is
/// no number, or not a finite one, is not read.
pub proof fn law_numbers_are_read_in_either_form(digits: String, n: u64)
    requires
        digits@ == text::digits(n as nat),
    ensures
        Json::Number(digits).as_whole() == Some(n),
        Json::Text(digits).as_whole() == Some(n),
        Json::Null.as_whole() is None,
        Json::Null.as_real() is None,
        Json::Number(digits).as_real() == Json::Text(digits).as_real(),
        Json::Text(digits).as_real() is Some ==> Json::Text(digits).as_real()->0.finite(),
{
    text::lemma_digits(n as nat);
    assert(text::is_digit(digits@[0]));
    assert(digits@[0] != '+');
}

} // verus!
