//! The calls into other crates and into the standard library whose results are not proved here.
use vstd::prelude::*;

verus! {

/// The digit for a number below 16, in lower case.
pub open spec fn hex_digit(number: int) -> char {
    if number < 10 {
        ('0' as int + number) as char
    } else {
        ('a' as int + number - 10) as char
    }
}

/// The JSON text of one character inside a string: an escape for the quotation mark, the backslash
/// and the characters below `U+0020`, and else the character itself.
pub open spec fn json_char(c: char) -> Seq<char> {
    if c == '"' {
        seq!['\\', '"']
    } else if c == '\\' {
        seq!['\\', '\\']
    } else if c == '\n' {
        seq!['\\', 'n']
    } else if c == '\r' {
        seq!['\\', 'r']
    } else if c == '\t' {
        seq!['\\', 't']
    } else if c as int == 0x08 {
        seq!['\\', 'b']
    } else if c as int == 0x0c {
        seq!['\\', 'f']
    } else if (c as int) < 0x20 {
        seq!['\\', 'u', '0', '0', hex_digit(c as int / 16), hex_digit(c as int % 16)]
    } else {
        seq![c]
    }
}

/// The JSON text of a string between its quotation marks.
pub open spec fn json_chars(text: Seq<char>) -> Seq<char>
    decreases text.len(),
{
    if text.len() == 0 {
        Seq::empty()
    } else {
        json_chars(text.drop_last()) + json_char(text.last())
    }
}

/// The JSON text of a string.
pub open spec fn json_string(text: Seq<char>) -> Seq<char> {
    seq!['"'] + json_chars(text) + seq!['"']
}

/// Calls `serde_json::to_string` on a string.
///
/// Believed without proof: the call succeeds on every string and returns its JSON text, between
/// quotation marks and with each character written as [`json_char`] says.
#[verifier::external_body]
pub(crate) fn write_json_string(text: &str) -> (result: String)
    ensures
        result@ == json_string(text@),
{
    serde_json::to_string(text).expect("a string has a JSON text")
}

/// The number of a status code and its reason phrase, as `reqwest` shows them.
pub uninterp spec fn status_text(code: u16) -> Seq<char>;

/// Calls `to_string` on the `reqwest::StatusCode` with the number `code`.
///
/// Believed without proof: there is a status code for every number of three digits, and the text
/// depends on the number alone.
#[verifier::external_body]
pub(crate) fn write_status(code: u16) -> (result: String)
    requires
        100 <= code <= 999,
    ensures
        result@ == status_text(code),
{
    reqwest::StatusCode::from_u16(code).expect("a number of three digits").to_string()
}

/// The text of a string between quotation marks, as `std::fmt::Debug` writes it.
pub uninterp spec fn debug_string(text: Seq<char>) -> Seq<char>;

/// Formats a string with `std::fmt::Debug`.
///
/// Believed without proof: the text depends on the string alone.
#[verifier::external_body]
pub(crate) fn write_debug_string(text: &str) -> (result: String)
    ensures
        result@ == debug_string(text@),
{
    format!("{:?}", text)
}

} // verus!
