//! What the library needs of JSON.
use vstd::prelude::*;

use crate::text::opt;

verus! {

/// The number of elements of the array that a text is the JSON notation of, as
/// `serde_json::from_str` reads it; `None` where the text is no JSON or no array.
pub uninterp spec fn json_array_len(text: Seq<char>) -> Option<nat>;

/// `serde_json::from_str`: reads a text as JSON. Whether that gives an array, and of how
/// many elements, depends on the text alone.
#[verifier::external_body]
pub(crate) fn array_len(text: &str) -> (r: Option<usize>)
    ensures
        match r {
            Some(n) => json_array_len(text@) == Some(n as nat),
            None => json_array_len(text@) is None,
        },
{
    match serde_json::from_str::<serde_json::Value>(text) {
        Ok(serde_json::Value::Array(items)) => Some(items.len()),
        _ => None,
    }
}

/// A text of JSON, laid out by lines, as `serde_json` reads and writes it; `None` where
/// the text is no JSON.
pub uninterp spec fn pretty_json(text: Seq<char>) -> Option<Seq<char>>;

/// `serde_json::from_str` and `serde_json::to_string_pretty`: reads a text as JSON and
/// writes the value by lines. What comes out depends on the text alone.
#[verifier::external_body]
pub(crate) fn pretty(text: &str) -> (r: Option<String>)
    ensures
        opt(r) == pretty_json(text@),
{
    let value: serde_json::Value = serde_json::from_str(text).ok()?;
    serde_json::to_string_pretty(&value).ok()
}

/// Three texts of an object, each of which may be missing.
#[derive(Debug)]
pub struct Record {
    pub first: Option<String>,
    pub second: Option<String>,
    pub third: Option<String>,
}

/// Some records, as mathematical values.
pub open spec fn record_texts(v: Seq<Record>) -> Seq<
    (Option<Seq<char>>, Option<Seq<char>>, Option<Seq<char>>),
> {
    Seq::new(v.len(), |i: int| (opt(v[i].first), opt(v[i].second), opt(v[i].third)))
}

/// What `serde_json` reads of a text of JSON: of each element of the array that stands
/// under two keys, the texts that stand under three keys. No elements where no array
/// stands there; `None` where the text is no JSON.
pub uninterp spec fn json_records(
    text: Seq<char>,
    outer: Seq<char>,
    inner: Seq<char>,
    first: Seq<char>,
    second: Seq<char>,
    third: Seq<char>,
) -> Option<Seq<(Option<Seq<char>>, Option<Seq<char>>, Option<Seq<char>>)>>;

/// `serde_json::from_str`, then `Value::index`, `Value::as_array` and `Value::as_str`: the
/// texts of an array of objects. What comes out depends on the text and the keys alone.
#[verifier::external_body]
pub(crate) fn records(
    text: &str,
    outer: &str,
    inner: &str,
    first: &str,
    second: &str,
    third: &str,
) -> (r: Option<Vec<Record>>)
    ensures
        match r {
            Some(v) => json_records(text@, outer@, inner@, first@, second@, third@) == Some(
                record_texts(v@),
            ),
            None => json_records(text@, outer@, inner@, first@, second@, third@) is None,
        },
{
    let value: serde_json::Value = serde_json::from_str(text).ok()?;
    let mut all: Vec<Record> = Vec::new();
    for row in value[outer][inner].as_array().into_iter().flatten() {
        all.push(Record {
            first: row[first].as_str().map(str::to_owned),
            second: row[second].as_str().map(str::to_owned),
            third: row[third].as_str().map(str::to_owned),
        });
    }
    Some(all)
}

/// Some fields of an object, as mathematical values: their names, and the JSON of their
/// values.
pub open spec fn field_texts(v: Seq<(String, String)>) -> Seq<(Seq<char>, Seq<char>)> {
    Seq::new(v.len(), |i: int| (v[i].0@, v[i].1@))
}

/// The fields of the object that a text is the JSON notation of, as `serde_json` reads
/// them and writes their values; `None` where the text is no JSON or no object.
pub uninterp spec fn json_fields(text: Seq<char>) -> Option<Seq<(Seq<char>, Seq<char>)>>;

/// `serde_json::from_str`, then `Value::to_string` of each field: the fields of an
/// object. What comes out depends on the text alone.
#[verifier::external_body]
pub(crate) fn fields(text: &str) -> (r: Option<Vec<(String, String)>>)
    ensures
        match r {
            Some(v) => json_fields(text@) == Some(field_texts(v@)),
            None => json_fields(text@) is None,
        },
{
    match serde_json::from_str::<serde_json::Value>(text) {
        Ok(serde_json::Value::Object(map)) => {
            Some(map.into_iter().map(|f| (f.0, f.1.to_string())).collect())
        },
        _ => None,
    }
}

/// A hexadecimal digit.
pub open spec fn hex_small(n: int) -> char {
    if n < 10 {
        ('0' as int + n) as char
    } else {
        ('a' as int + n - 10) as char
    }
}

/// A character as it stands in a string of JSON.
pub open spec fn json_char(c: char) -> Seq<char> {
    if c == '"' {
        seq!['\\', '"']
    } else if c == '\\' {
        seq!['\\', '\\']
    } else if c as u32 == 8 {
        seq!['\\', 'b']
    } else if c as u32 == 9 {
        seq!['\\', 't']
    } else if c as u32 == 10 {
        seq!['\\', 'n']
    } else if c as u32 == 12 {
        seq!['\\', 'f']
    } else if c as u32 == 13 {
        seq!['\\', 'r']
    } else if (c as u32) < 32 {
        seq!['\\', 'u', '0', '0', hex_small(c as int / 16), hex_small(c as int % 16)]
    } else {
        seq![c]
    }
}

/// The characters of a text as they stand in a string of JSON.
pub open spec fn json_chars(s: Seq<char>) -> Seq<char>
    decreases s.len(),
{
    if s.len() == 0 {
        seq![]
    } else {
        json_chars(s.drop_last()) + json_char(s.last())
    }
}

/// A text as a string of JSON.
pub open spec fn quoted(s: Seq<char>) -> Seq<char> {
    seq!['"'] + json_chars(s) + seq!['"']
}

/// `serde_json::Value::to_string` of a text: a string of JSON. Quotation marks,
/// backslashes and control characters are escaped, and anything else stands for itself.
#[verifier::external_body]
pub(crate) fn quote(s: &str) -> (r: String)
    ensures
        r@ == quoted(s@),
{
    serde_json::Value::from(s).to_string()
}

} // verus!
