//! JSON documents: the model that contracts speak of, and the calls into the
//! `json` crate, whose contracts are stated here and not proved.

use vstd::prelude::*;
use vstd::utf8::encode_utf8;
use json::JsonValue;

verus! {

/// A JSON value as contracts see it.
pub enum Json {
    Null,
    Bool(bool),
    /// A decimal number: sign, digits and power of ten.
    Number { positive: bool, mantissa: u64, exponent: i16 },
    /// The result of a conversion from a float that was no number.
    NotANumber,
    Text(Seq<char>),
    Array(Seq<Json>),
    /// The entries in the order of their insertion.
    Object(Seq<(Seq<char>, Json)>),
}

impl Json {
    /// The number `n` as a document.
    pub open spec fn unsigned(n: u64) -> Json {
        Json::Number { positive: true, mantissa: n, exponent: 0 }
    }

    /// An object has an entry under `key`.
    pub open spec fn has_key(self, key: Seq<char>) -> bool {
        match self {
            Json::Object(entries) => exists|i: int| 0 <= i < entries.len() && entries[i].0 == key,
            _ => false,
        }
    }

    /// The position of an entry under `key`.
    pub open spec fn key_position(self, key: Seq<char>) -> int {
        match self {
            Json::Object(entries) => choose|i: int| 0 <= i < entries.len() && entries[i].0 == key,
            _ => 0,
        }
    }

    /// The value that an object holds under `key`; `Null` where there is no
    /// such entry or no object.
    pub open spec fn member(self, key: Seq<char>) -> Json {
        match self {
            Json::Object(entries) => if self.has_key(key) {
                entries[self.key_position(key)].1
            } else {
                Json::Null
            },
            _ => Json::Null,
        }
    }

    /// The element of an array at `index`; `Null` where there is no such
    /// element or no array.
    pub open spec fn item(self, index: int) -> Json {
        match self {
            Json::Array(items) => if 0 <= index < items.len() {
                items[index]
            } else {
                Json::Null
            },
            _ => Json::Null,
        }
    }

    /// The number of elements of an array or of entries of an object; zero
    /// for every other value.
    pub open spec fn length(self) -> nat {
        match self {
            Json::Array(items) => items.len(),
            Json::Object(entries) => entries.len(),
            _ => 0,
        }
    }

    /// The value as an unsigned integer: a positive number without a power
    /// of ten.
    pub open spec fn as_unsigned(self) -> Option<u64> {
        match self {
            Json::Number { positive: true, mantissa, exponent: 0 } => Some(mantissa),
            _ => None,
        }
    }

    /// An array with `value` appended; every other value as it is.
    pub open spec fn with_item(self, value: Json) -> Json {
        match self {
            Json::Array(items) => Json::Array(items.push(value)),
            _ => self,
        }
    }

    /// An object with `value` under `key`: in the place of the entry that
    /// was there, or else appended. Every other value as it is.
    pub open spec fn with_entry(self, key: Seq<char>, value: Json) -> Json {
        match self {
            Json::Object(entries) => if self.has_key(key) {
                Json::Object(entries.update(self.key_position(key), (key, value)))
            } else {
                Json::Object(entries.push((key, value)))
            },
            _ => self,
        }
    }
}

/// The type `json::JsonValue`, of which Verus sees nothing but what the
/// items below state.
#[verifier::external_type_specification]
#[verifier::external_body]
pub struct ExJsonValue(json::JsonValue);

/// The type `json::Error`.
#[verifier::external_type_specification]
#[verifier::external_body]
pub struct ExJsonError(json::Error);

/// The document that a `json::JsonValue` holds. Short and heap strings are
/// both `Text`; the entries of an object stand in the order in which the
/// value keeps and writes them.
pub uninterp spec fn contents(value: JsonValue) -> Json;

/// What `json::parse` makes of a text: the document, or the message of the
/// error that it reports.
pub uninterp spec fn parsed(text: Seq<char>) -> Result<Json, Seq<char>>;

/// The text that `json::stringify` writes for a document.
pub uninterp spec fn rendered(document: Json) -> Seq<char>;

/// The text that the `Display` of a `json::Error` writes.
pub uninterp spec fn message_of(error: json::Error) -> Seq<char>;

/// The most digits that a number may have behind its decimal point.
pub const FRACTION_LIMIT: usize = 32767;

/// The byte `"`, which opens and closes a string.
pub const QUOTE: u8 = 34;

/// The byte `\`, which escapes the next byte of a string.
pub const BACKSLASH: u8 = 92;

/// The byte `.`, the decimal point.
pub const POINT: u8 = 46;

/// Where a byte of a JSON text stands: outside the strings, inside one, or
/// behind a backslash inside one.
#[derive(Debug, Clone, Copy, PartialEq, Eq, Structural)]
pub enum Lexer {
    Plain,
    Text,
    Escape,
}

/// A decimal digit.
pub open spec fn is_digit(byte: u8) -> bool {
    48 <= byte <= 57
}

/// Where the next byte stands, after `byte` was read in `state`.
pub open spec fn lexer_step(state: Lexer, byte: u8) -> Lexer {
    match state {
        Lexer::Plain => if byte == QUOTE {
            Lexer::Text
        } else {
            Lexer::Plain
        },
        Lexer::Text => if byte == QUOTE {
            Lexer::Plain
        } else if byte == BACKSLASH {
            Lexer::Escape
        } else {
            Lexer::Text
        },
        Lexer::Escape => Lexer::Text,
    }
}

/// Where the byte at `position` stands, after all the bytes before it.
pub open spec fn lexer_at(bytes: Seq<u8>, position: int) -> Lexer
    decreases position,
{
    if position <= 0 {
        Lexer::Plain
    } else {
        lexer_step(lexer_at(bytes, position - 1), bytes[position - 1])
    }
}

/// At `point` stands a decimal point outside the strings, with more than
/// `FRACTION_LIMIT` digits right behind it.
pub open spec fn long_fraction_at(bytes: Seq<u8>, point: int) -> bool {
    &&& 0 <= point < bytes.len()
    &&& bytes[point] == POINT
    &&& lexer_at(bytes, point) == Lexer::Plain
    &&& point + FRACTION_LIMIT + 1 < bytes.len()
    &&& forall|k: int| point < k <= point + FRACTION_LIMIT + 1 ==> is_digit(#[trigger] bytes[k])
}

/// Some number of the text has more than `FRACTION_LIMIT` digits behind its
/// decimal point.
pub open spec fn has_long_fraction(text: Seq<char>) -> bool {
    exists|point: int| long_fraction_at(encode_utf8(text), point)
}

/// `json::parse`. The result depends on the text alone: `Ok` with the
/// document, or `Err` with the error whose message `parsed` names.
///
/// The parser counts the digits behind a decimal point downwards in 16 bits,
/// without a guard, for as long as the digits read so far make a small
/// number, and zeros never make a large one. So a text with more than
/// `FRACTION_LIMIT` digits behind a point is left out. A point inside a
/// string is not read as one: up to the place where it reports an error, the
/// parser tells the strings as `lexer_at` does, by the quote that opens and
/// closes and the backslash that takes the next byte.
#[verifier::external_body]
pub(crate) fn parse(text: &str) -> (result: Result<JsonValue, json::Error>)
    requires
        !has_long_fraction(text@),
    ensures
        match result {
            Ok(value) => parsed(text@) == Ok::<Json, Seq<char>>(contents(value)),
            Err(error) => parsed(text@) == Err::<Json, Seq<char>>(message_of(error)),
        },
{
    json::parse(text)
}

/// `json::stringify` on a `JsonValue`. The text depends on the document
/// alone and is the one that `rendered` names.
#[verifier::external_body]
pub(crate) fn stringify(value: JsonValue) -> (text: String)
    ensures
        text@ == rendered(contents(value)),
{
    json::stringify(value)
}

/// The `Display` of `json::Error`: the message of the error, which depends
/// on the error alone.
#[verifier::external_body]
pub(crate) fn describe(error: &json::Error) -> (message: String)
    ensures
        message@ == message_of(*error),
{
    format!("{}", error)
}

/// `Index<&str>` of `JsonValue`: a reference to the value under `key`, or to
/// a `Null` where the value is no object or has no such entry.
#[verifier::external_body]
pub(crate) fn member<'a>(value: &'a JsonValue, key: &str) -> (found: &'a JsonValue)
    ensures
        contents(*found) == contents(*value).member(key@),
{
    &value[key]
}

/// `Index<usize>` of `JsonValue`: a reference to the element at `index`, or
/// to a `Null` where the value is no array or is shorter.
#[verifier::external_body]
pub(crate) fn item<'a>(value: &'a JsonValue, index: usize) -> (found: &'a JsonValue)
    ensures
        contents(*found) == contents(*value).item(index as int),
{
    &value[index]
}

/// `JsonValue::is_array`.
#[verifier::external_body]
pub(crate) fn is_array(value: &JsonValue) -> (yes: bool)
    ensures
        yes == (contents(*value) is Array),
{
    value.is_array()
}

/// `JsonValue::len`: the number of elements of an array, of entries of an
/// object, and zero for every other value.
#[verifier::external_body]
pub(crate) fn length(value: &JsonValue) -> (n: usize)
    ensures
        n == contents(*value).length(),
{
    value.len()
}

/// `JsonValue::as_u64`: the digits of a positive number without a power of
/// ten, `None` for every other value.
#[verifier::external_body]
pub(crate) fn as_u64(value: &JsonValue) -> (n: Option<u64>)
    ensures
        n == contents(*value).as_unsigned(),
{
    value.as_u64()
}

/// `JsonValue::as_usize`: as `as_u64`, and `None` as well where the number
/// does not fit.
#[verifier::external_body]
pub(crate) fn as_usize(value: &JsonValue) -> (n: Option<usize>)
    ensures
        match contents(*value).as_unsigned() {
            Some(m) if m <= usize::MAX => n == Some(m as usize),
            _ => n.is_none(),
        },
{
    value.as_usize()
}

/// `JsonValue::as_str`: the characters of a string, `None` for every other
/// value.
#[verifier::external_body]
pub(crate) fn as_str(value: &JsonValue) -> (text: Option<&str>)
    ensures
        match contents(*value) {
            Json::Text(s) => text.is_some() && text.unwrap()@ == s,
            _ => text.is_none(),
        },
{
    value.as_str()
}

/// `JsonValue::as_bool`: the value of a boolean, `None` for every other
/// value.
#[verifier::external_body]
pub(crate) fn as_bool(value: &JsonValue) -> (flag: Option<bool>)
    ensures
        match contents(*value) {
            Json::Bool(b) => flag == Some(b),
            _ => flag.is_none(),
        },
{
    value.as_bool()
}

/// `JsonValue::new_object`: an object without entries.
#[verifier::external_body]
pub(crate) fn new_object() -> (value: JsonValue)
    ensures
        contents(value) == Json::Object(Seq::empty()),
{
    JsonValue::new_object()
}

/// `JsonValue::new_array`: an array without elements.
#[verifier::external_body]
pub(crate) fn new_array() -> (value: JsonValue)
    ensures
        contents(value) == Json::Array(Seq::empty()),
{
    JsonValue::new_array()
}

/// `From<u64>` of `JsonValue`: the positive number with these digits and no
/// power of ten.
#[verifier::external_body]
pub(crate) fn from_u64(n: u64) -> (value: JsonValue)
    ensures
        contents(value) == Json::unsigned(n),
{
    JsonValue::from(n)
}

/// `From<bool>` of `JsonValue`.
#[verifier::external_body]
pub(crate) fn from_bool(flag: bool) -> (value: JsonValue)
    ensures
        contents(value) == Json::Bool(flag),
{
    JsonValue::from(flag)
}

/// `From<&str>` of `JsonValue`: a string with the same characters.
#[verifier::external_body]
pub(crate) fn from_str(text: &str) -> (value: JsonValue)
    ensures
        contents(value) == Json::Text(text@),
{
    JsonValue::from(text)
}

/// `JsonValue::push`: appends to an array and returns `Ok`; leaves every
/// other value as it is and returns an error.
#[verifier::external_body]
pub(crate) fn push(target: &mut JsonValue, value: JsonValue) -> (result: Result<(), json::Error>)
    ensures
        result.is_ok() == (contents(*old(target)) is Array),
        contents(*final(target)) == contents(*old(target)).with_item(contents(value)),
{
    target.push(value)
}

/// `JsonValue::insert`: puts the value under the key of an object, in the
/// place of the entry that was there or else at the end, and returns `Ok`;
/// leaves every other value as it is and returns an error.
#[verifier::external_body]
pub(crate) fn insert(target: &mut JsonValue, key: &str, value: JsonValue) -> (result: Result<
    (),
    json::Error,
>)
    ensures
        result.is_ok() == (contents(*old(target)) is Object),
        contents(*final(target)) == contents(*old(target)).with_entry(key@, contents(value)),
{
    target.insert(key, value)
}

/// Looks for a number with more than `FRACTION_LIMIT` digits behind its
/// decimal point. A decimal point inside a string is none.
pub fn find_long_fraction(text: &str) -> (found: bool)
    ensures
        found == has_long_fraction(text@),
{
    let bytes = text.as_bytes();
    let n = bytes.len();
    let mut state = Lexer::Plain;
    let mut i: usize = 0;
    while i < n
        invariant
            i <= n,
            n == bytes@.len(),
            bytes@ == encode_utf8(text@),
            state == lexer_at(bytes@, i as int),
            forall|point: int| 0 <= point < i ==> !long_fraction_at(bytes@, point),
        decreases n - i,
    {
        let byte = bytes[i];
        if byte == POINT && state == Lexer::Plain {
            let mut count: usize = 0;
            while count <= FRACTION_LIMIT && count < n - 1 - i && digit(bytes[i + 1 + count])
                invariant
                    i < n,
                    n == bytes@.len(),
                    count <= FRACTION_LIMIT + 1,
                    count <= n - 1 - i,
                    forall|k: int| i < k <= i + count ==> is_digit(#[trigger] bytes@[k]),
                decreases FRACTION_LIMIT + 1 - count,
            {
                count += 1;
            }
            if count > FRACTION_LIMIT {
                assert(long_fraction_at(bytes@, i as int));
                return true;
            }
            assert(!long_fraction_at(bytes@, i as int)) by {
                if i + 1 + count < n {
                    assert(!is_digit(bytes@[i + 1 + count]));
                }
            }
        }
        state = next_state(state, byte);
        i += 1;
    }
    false
}

/// Whether the byte is a decimal digit.
fn digit(byte: u8) -> (yes: bool)
    ensures
        yes == is_digit(byte),
{
    48 <= byte && byte <= 57
}

/// Where the next byte stands, after `byte` was read in `state`.
fn next_state(state: Lexer, byte: u8) -> (next: Lexer)
    ensures
        next == lexer_step(state, byte),
{
    match state {
        Lexer::Plain => if byte == QUOTE {
            Lexer::Text
        } else {
            Lexer::Plain
        },
        Lexer::Text => if byte == QUOTE {
            Lexer::Plain
        } else if byte == BACKSLASH {
            Lexer::Escape
        } else {
            Lexer::Text
        },
        Lexer::Escape => Lexer::Text,
    }
}

} // verus!
