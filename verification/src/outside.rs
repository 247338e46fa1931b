//! Calls into std and into other crates, each with what is claimed of it.

use crate::model;
use chrono::Datelike;
use vstd::prelude::*;

verus! {

/// `String::push` appends one character.
pub assume_specification[ String::push ](s: &mut String, c: char)
    ensures
        final(s)@ == old(s)@.push(c),
;

/// The answer of `char::is_alphanumeric`.
pub uninterp spec fn unicode_alphanumeric(c: char) -> bool;

/// `char::is_alphanumeric`: a Unicode letter or number. Among the ASCII
/// characters these are the letters and the digits.
#[verifier::external_body]
pub(crate) fn is_alphanumeric(c: char) -> (r: bool)
    ensures
        r == unicode_alphanumeric(c),
        c <= '\u{7f}' ==> r == model::is_alnum(c),
{
    c.is_alphanumeric()
}

/// The answer of `str::to_lowercase`.
pub uninterp spec fn unicode_lowercase(s: Seq<char>) -> Seq<char>;

/// `str::to_lowercase`: the Unicode lower-case form. On ASCII text it is the
/// ASCII one.
#[verifier::external_body]
pub(crate) fn to_lowercase(s: &str) -> (r: String)
    ensures
        r@ == unicode_lowercase(s@),
        (forall|i: int| 0 <= i < s@.len() ==> s@[i] <= '\u{7f}') ==> r@ == model::lowered(s@),
{
    s.to_lowercase()
}

/// The answer of `format!("{:?}")` on a string.
pub uninterp spec fn debug_form(s: Seq<char>) -> Seq<char>;

/// A character that stands for itself in the debug form of a string.
pub open spec fn plain(c: char) -> bool {
    model::is_alnum(c) || c == '-' || c == '_' || c == '.'
}

/// The `Debug` form of a string: quoted, with what needs it escaped. Letters,
/// digits, `-`, `_` and `.` need no escape.
#[verifier::external_body]
pub(crate) fn debug_text(s: &str) -> (r: String)
    ensures
        r@ == debug_form(s@),
        (forall|i: int| 0 <= i < s@.len() ==> plain(#[trigger] s@[i])) ==> r@ == seq!['"'] + s@
            + seq!['"'],
{
    format!("{s:?}")
}

/// How `form_urlencoded` writes one byte.
pub open spec fn form_byte(b: u8) -> Seq<char> {
    let c = b as char;
    if model::is_alnum(c) || c == '*' || c == '-' || c == '.' || c == '_' {
        seq![c]
    } else if c == ' ' {
        seq!['+']
    } else {
        seq!['%'] + model::hex2(b as nat)
    }
}

/// How `form_urlencoded` writes a byte string.
pub open spec fn form_bytes(bytes: Seq<u8>) -> Seq<char>
    decreases bytes.len(),
{
    if bytes.len() == 0 {
        Seq::<char>::empty()
    } else {
        form_bytes(bytes.drop_last()) + form_byte(bytes.last())
    }
}

/// `form_urlencoded::byte_serialize`: letters, digits and `*-._` stand for
/// themselves, a space becomes `+`, any other byte `%XX`.
#[verifier::external_body]
pub(crate) fn byte_serialize(bytes: &[u8]) -> (r: String)
    ensures
        r@ == form_bytes(bytes@),
{
    form_urlencoded::byte_serialize(bytes).collect()
}

/// The answer of `percent_decode_str(..).decode_utf8_lossy()`.
pub uninterp spec fn percent_decoded(s: Seq<char>) -> Seq<char>;

/// `percent_encoding::percent_decode_str` with `decode_utf8_lossy`: every `%XX`
/// becomes its byte and the bytes are read as UTF-8. Text without `%` stays.
#[verifier::external_body]
pub(crate) fn percent_decode(s: &str) -> (r: String)
    ensures
        r@ == percent_decoded(s@),
        !s@.contains('%') ==> r@ == s@,
{
    percent_encoding::percent_decode_str(s).decode_utf8_lossy().into_owned()
}

/// The answer of `UnicodeWidthStr::width`.
pub uninterp spec fn columns(s: Seq<char>) -> nat;

/// `UnicodeWidthStr::width` of the `unicode-width` crate: the terminal columns
/// that a string takes. A printable ASCII character takes one.
#[verifier::external_body]
pub(crate) fn width(s: &str) -> (r: usize)
    ensures
        r == columns(s@),
        (forall|i: int| 0 <= i < s@.len() ==> ' ' <= #[trigger] s@[i] && s@[i] <= '~') ==> r
            == s@.len(),
{
    unicode_width::UnicodeWidthStr::width(s)
}

/// The answer of `NaiveDate::parse_from_str`: year, month and day.
pub uninterp spec fn calendar_date(s: Seq<char>, fmt: Seq<char>) -> Option<(int, int, int)>;

/// `chrono::NaiveDate::parse_from_str`: the date that `s` spells in the format
/// `fmt`, as year, month and day of the month; `None` where it spells none.
#[verifier::external_body]
pub(crate) fn parse_from_str(s: &str, fmt: &str) -> (r: Option<(i32, u32, u32)>)
    ensures
        (match r {
            Some(d) => Some((d.0 as int, d.1 as int, d.2 as int)),
            None => None,
        }) == calendar_date(s@, fmt@),
        r matches Some(d) ==> 1 <= d.1 <= 12 && 1 <= d.2 <= 31,
{
    match chrono::NaiveDate::parse_from_str(s, fmt) {
        Ok(d) => Some((d.year(), d.month(), d.day())),
        Err(_) => None,
    }
}

/// A JSON value, as far as the parsers look into it.
pub enum Json {
    /// A string.
    Text(Seq<char>),
    /// An array.
    List(Seq<Json>),
    /// An object.
    Table(Map<Seq<char>, Json>),
    /// A number, a boolean or null.
    Other,
}

/// A JSON value of the `serde_json` crate.
#[verifier::external_type_specification]
#[verifier::external_body]
pub struct ExValue(serde_json::Value);

/// What a `serde_json::Value` holds.
pub uninterp spec fn json_of(v: serde_json::Value) -> Json;

/// The answer of `serde_json::from_str`: the value, or the text of the error.
pub uninterp spec fn json_parsed(s: Seq<char>) -> Result<Json, Seq<char>>;

/// `serde_json::from_str::<Value>`: the value that `s` spells, or why it spells none.
#[verifier::external_body]
pub(crate) fn json_parse(s: &str) -> (r: Result<serde_json::Value, String>)
    ensures
        (match r {
            Ok(v) => Ok(json_of(v)),
            Err(e) => Err(e@),
        }) == json_parsed(s@),
{
    serde_json::from_str(s).map_err(|e: serde_json::Error| e.to_string())
}

/// `Value::get` with a string key: the member of that name of an object.
#[verifier::external_body]
pub(crate) fn json_get<'a>(v: &'a serde_json::Value, key: &str) -> (r: Option<
    &'a serde_json::Value,
>)
    ensures
        (match r {
            Some(m) => Some(json_of(*m)),
            None => None,
        }) == json_member(json_of(*v), key@),
{
    v.get(key)
}

/// The member `key` of a JSON object.
pub open spec fn json_member(v: Json, key: Seq<char>) -> Option<Json> {
    match v {
        Json::Table(m) => if m.contains_key(key) {
            Some(m[key])
        } else {
            None
        },
        _ => None,
    }
}

/// `Value::as_array`: the items of an array.
#[verifier::external_body]
pub(crate) fn json_items(v: &serde_json::Value) -> (r: Option<&Vec<serde_json::Value>>)
    ensures
        (match r {
            Some(items) => Some(Seq::new(items@.len(), |i: int| json_of(items@[i]))),
            None => None,
        }) == json_list(json_of(*v)),
{
    v.as_array()
}

/// The items of a JSON array.
pub open spec fn json_list(v: Json) -> Option<Seq<Json>> {
    match v {
        Json::List(items) => Some(items),
        _ => None,
    }
}

/// `Value::as_str`: the text of a string.
#[verifier::external_body]
pub(crate) fn json_str(v: &serde_json::Value) -> (r: Option<String>)
    ensures
        model::opt(r) == json_text(json_of(*v)),
{
    v.as_str().map(str::to_string)
}

/// The text of a JSON string.
pub open spec fn json_text(v: Json) -> Option<Seq<char>> {
    match v {
        Json::Text(t) => Some(t),
        _ => None,
    }
}

} // verus!
