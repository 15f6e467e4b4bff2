//! JSON values as the runtime carries them: configuration blobs and schemas
//! travel through the library unread.

use crate::text::{
    decimal_text, is_digit, lemma_decimal_text_digits, lemma_decimal_text_injective,
};
use serde_json::Value;
use vstd::prelude::*;

verus! {

/// `serde_json::Value`, opaque to the verifier: the runtime hands such
/// values on and never looks inside.
#[verifier::external_type_specification]
#[verifier::external_body]
pub struct ExJsonValue(serde_json::Value);

/// `<serde_json::Value as Clone>::clone`: the copy is the same JSON value.
#[verifier::external_body]
pub(crate) fn clone_value(value: &Value) -> (copy: Value)
    ensures
        copy == *value,
{
    value.clone()
}

/// `serde_json::Map::new` inside `Value::Object`: the JSON object `{}`.
#[verifier::external_body]
pub(crate) fn empty_object() -> Value {
    Value::Object(serde_json::Map::new())
}

/// `<serde_json::Value as Default>::default`: the JSON value `null`.
#[verifier::external_body]
pub(crate) fn null_value() -> Value {
    Value::default()
}

/// The character is white space in JSON: a space, a line feed, a tab or a
/// carriage return.
pub open spec fn is_json_space(c: char) -> bool {
    c == ' ' || c == '\n' || c == '\t' || c == '\r'
}

/// Every character of the text is JSON white space.
pub open spec fn all_json_space(text: Seq<char>) -> bool {
    forall|i: int| 0 <= i < text.len() ==> is_json_space(#[trigger] text[i])
}

/// The text is the decimal numeral of `number` between two runs of white
/// space.
pub open spec fn is_framed(text: Seq<char>, before: Seq<char>, number: u8, after: Seq<char>) -> bool {
    &&& all_json_space(before)
    &&& all_json_space(after)
    &&& text == before + decimal_text(number as nat) + after
}

/// The text is a JSON document that holds the integer `number` and nothing
/// else: its decimal numeral, without sign, leading zero, fraction or
/// exponent, with white space allowed before and behind.
pub open spec fn denotes_u8(text: Seq<char>, number: u8) -> bool {
    exists|before: Seq<char>, after: Seq<char>| #[trigger] is_framed(text, before, number, after)
}

/// The number from 0 to 255 that the text denotes as a JSON document, if
/// it denotes one.
pub open spec fn json_u8(text: Seq<char>) -> Option<u8> {
    if exists|number: u8| denotes_u8(text, number) {
        Some(choose|number: u8| denotes_u8(text, number))
    } else {
        None
    }
}

/// `serde_json::from_str::<u8>`: reads `text` as a JSON document that holds
/// one integer from 0 to 255. It succeeds exactly on a decimal numeral of
/// such a number that has no sign, no leading zero, no fraction and no
/// exponent, with JSON white space allowed around it, and gives that
/// number.
#[verifier::external_body]
fn read_u8(text: &str) -> (number: Option<u8>)
    ensures
        number matches Some(read) ==> denotes_u8(text@, read),
        number.is_none() ==> forall|other: u8| !denotes_u8(text@, other),
{
    serde_json::from_str::<u8>(text).ok()
}

/// A text denotes at most one number.
pub proof fn lemma_denotes_one_number(text: Seq<char>, a: u8, b: u8)
    requires
        denotes_u8(text, a),
        denotes_u8(text, b),
    ensures
        a == b,
{
    let (before_a, after_a) = choose|before: Seq<char>, after: Seq<char>|
        #[trigger] is_framed(text, before, a, after);
    let (before_b, after_b) = choose|before: Seq<char>, after: Seq<char>|
        #[trigger] is_framed(text, before, b, after);
    let numeral_a = decimal_text(a as nat);
    let numeral_b = decimal_text(b as nat);
    lemma_decimal_text_digits(a as nat);
    lemma_decimal_text_digits(b as nat);
    lemma_digits_are_no_space();
    if before_a.len() < before_b.len() {
        assert(text[before_a.len() as int] == numeral_a[0]);
        assert(text[before_a.len() as int] == before_b[before_a.len() as int]);
    }
    if before_b.len() < before_a.len() {
        assert(text[before_b.len() as int] == numeral_b[0]);
        assert(text[before_b.len() as int] == before_a[before_b.len() as int]);
    }
    let start = before_a.len() as int;
    if numeral_a.len() < numeral_b.len() {
        let at = start + numeral_a.len();
        assert(text[at] == numeral_b[at - start]);
        assert(text[at] == after_a[0]);
    }
    if numeral_b.len() < numeral_a.len() {
        let at = start + numeral_b.len();
        assert(text[at] == numeral_a[at - start]);
        assert(text[at] == after_b[0]);
    }
    assert forall|i: int| 0 <= i < numeral_a.len() implies numeral_a[i] == numeral_b[i] by {
        assert(text[start + i] == numeral_a[i]);
        assert(text[start + i] == numeral_b[i]);
    }
    assert(numeral_a =~= numeral_b);
    lemma_decimal_text_injective(a as nat, b as nat);
}

/// No digit is JSON white space.
pub proof fn lemma_digits_are_no_space()
    ensures
        forall|c: char| is_digit(c) ==> !is_json_space(c),
{
}

/// Reads `text` as a JSON document that holds one integer from 0 to 255.
pub(crate) fn parse_u8(text: &str) -> (number: Option<u8>)
    ensures
        number == json_u8(text@),
{
    let number = read_u8(text);
    proof {
        match number {
            Some(read) => {
                lemma_denotes_one_number(text@, read, choose|other: u8| denotes_u8(text@, other));
            },
            None => {},
        }
    }
    number
}

} // verus!
