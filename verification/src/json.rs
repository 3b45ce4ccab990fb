//! JSON text for the bodies that this crate answers with.

use vstd::prelude::*;
use vstd::string::StringExecFns;

verus! {

/// A text as a JSON string: in double quotes, with the characters escaped
/// that JSON does not take as they are.
pub uninterp spec fn json_string_of(text: Seq<char>) -> Seq<char>;

/// Whether a character stands in a JSON string as it is: it is no control
/// character, no double quote and no backslash.
pub open spec fn is_plain_char(c: char) -> bool {
    c != '"' && c != '\\' && ' ' <= c
}

/// Whether a text holds no character that a JSON string escapes.
pub open spec fn is_plain(text: Seq<char>) -> bool {
    forall|i: int| 0 <= i < text.len() ==> is_plain_char(#[trigger] text[i])
}

/// A text between double quotes.
pub open spec fn quoted(text: Seq<char>) -> Seq<char> {
    seq!['"'] + text + seq!['"']
}

/// `serde_json::to_string` on a string slice, which has no way to fail: the
/// text is written into a vector, quoted and escaped. The result is given its
/// name, and one fact is claimed of it, which the escape table of the source
/// shows: a text without control characters, double quotes and backslashes is
/// written as it is, between double quotes.
#[verifier::external_body]
pub(crate) fn json_string(text: &str) -> (r: String)
    ensures
        r@ == json_string_of(text@),
        is_plain(text@) ==> r@ == quoted(text@),
{
    serde_json::to_string(text).unwrap()
}

/// A JSON object with one member whose value is a string.
pub open spec fn object_of_one(key: Seq<char>, value: Seq<char>) -> Seq<char> {
    "{"@ + json_string_of(key) + ":"@ + json_string_of(value) + "}"@
}

/// A JSON object with two members whose values are strings.
pub open spec fn object_of_two(
    first_key: Seq<char>,
    first_value: Seq<char>,
    second_key: Seq<char>,
    second_value: Seq<char>,
) -> Seq<char> {
    "{"@ + json_string_of(first_key) + ":"@ + json_string_of(first_value) + ","@ + json_string_of(
        second_key,
    ) + ":"@ + json_string_of(second_value) + "}"@
}

/// `object_of_one` for a key and a value that need no escape.
pub open spec fn plain_object_of_one(key: Seq<char>, value: Seq<char>) -> Seq<char> {
    seq!['{'] + quoted(key) + seq![':'] + quoted(value) + seq!['}']
}

/// `object_of_two` for keys and values that need no escape.
pub open spec fn plain_object_of_two(
    first_key: Seq<char>,
    first_value: Seq<char>,
    second_key: Seq<char>,
    second_value: Seq<char>,
) -> Seq<char> {
    seq!['{'] + quoted(first_key) + seq![':'] + quoted(first_value) + seq![','] + quoted(
        second_key,
    ) + seq![':'] + quoted(second_value) + seq!['}']
}

/// Writes a JSON object with one member.
pub fn write_object_of_one(key: &str, value: &str) -> (r: String)
    ensures
        r@ == object_of_one(key@, value@),
        is_plain(key@) && is_plain(value@) ==> r@ == plain_object_of_one(key@, value@),
{
    proof {
        reveal_strlit("{");
        reveal_strlit(":");
        reveal_strlit("}");
        assert("{"@ =~= seq!['{']);
        assert(":"@ =~= seq![':']);
        assert("}"@ =~= seq!['}']);
    }
    let mut out = String::from_str("{");
    out.append(json_string(key).as_str());
    out.append(":");
    out.append(json_string(value).as_str());
    out.append("}");
    out
}

/// Writes a JSON object with two members.
pub fn write_object_of_two(first_key: &str, first_value: &str, second_key: &str, second_value: &str) -> (r:
    String)
    ensures
        r@ == object_of_two(first_key@, first_value@, second_key@, second_value@),
        is_plain(first_key@) && is_plain(first_value@) && is_plain(second_key@) && is_plain(
            second_value@,
        ) ==> r@ == plain_object_of_two(first_key@, first_value@, second_key@, second_value@),
{
    proof {
        reveal_strlit("{");
        reveal_strlit(":");
        reveal_strlit(",");
        reveal_strlit("}");
        assert("{"@ =~= seq!['{']);
        assert(":"@ =~= seq![':']);
        assert(","@ =~= seq![',']);
        assert("}"@ =~= seq!['}']);
    }
    let mut out = String::from_str("{");
    out.append(json_string(first_key).as_str());
    out.append(":");
    out.append(json_string(first_value).as_str());
    out.append(",");
    out.append(json_string(second_key).as_str());
    out.append(":");
    out.append(json_string(second_value).as_str());
    out.append("}");
    out
}

} // verus!
