//! JSON documents in their compact notation.
//!
//! A document is held as the text that `serde_json` writes for it: keys in
//! order, no white space. What a document looks like is decided by that
//! crate; this module only says which of its results goes where.

use crate::identity::uuid_display;
use crate::instant::{is_named, FIRST_INSTANT, LAST_INSTANT, NANOS_PER_SECOND};
use crate::text::{copy, decimal, decimal_text};
use vstd::prelude::*;
use vstd::string::*;

verus! {

/// A JSON document in compact notation.
#[derive(Debug)]
pub struct Json {
    pub text: String,
}

/// The text `serde_json::to_string` writes for a string.
pub uninterp spec fn json_string_text(s: Seq<char>) -> Seq<char>;

/// The text `serde_json::to_string` writes for an object with these keys and
/// values, a later value for the same key replacing an earlier one.
pub uninterp spec fn json_object_text(
    keys: Seq<Seq<char>>,
    values: Seq<Seq<char>>,
) -> Seq<char>;

/// The text `serde_json::to_string` writes for an array of these values.
pub uninterp spec fn json_array_text(values: Seq<Seq<char>>) -> Seq<char>;

/// The text `serde_json::to_string` writes for a `chrono::DateTime<Utc>`, given
/// in whole seconds since the Unix epoch and nanoseconds.
pub uninterp spec fn json_time_text(seconds: int, nanos: int) -> Seq<char>;

/// The text of an instant in a document. There is none, and so null stands
/// there, for an instant that no date can name.
pub open spec fn json_instant_text(t: int) -> Seq<char> {
    if is_named(t) {
        json_time_text(t / 1_000_000_000, t % 1_000_000_000)
    } else {
        "null"@
    }
}

/// The text of a UUID in a document: its hyphenated text in quotes.
pub open spec fn json_uuid_text(id: u128) -> Seq<char> {
    "\""@ + uuid_display(id) + "\""@
}

/// The texts of a list of strings.
pub open spec fn texts(v: Seq<String>) -> Seq<Seq<char>> {
    Seq::new(v.len(), |i: int| v[i]@)
}

/// `serde_json::to_string` on a string slice: its quoted and escaped form.
/// Writing a string never fails.
#[verifier::external_body]
fn quote(s: &str) -> (r: String)
    ensures
        r@ == json_string_text(s@),
{
    serde_json::to_string(s).unwrap_or_default()
}

/// Where both lists hold a string's text at the same place, it is the same
/// string.
pub open spec fn agreeing(x: Seq<Seq<char>>, y: Seq<Seq<char>>) -> bool {
    forall|i: int, a: Seq<char>, b: Seq<char>|
        0 <= i < x.len() && #[trigger] x[i] == #[trigger] json_string_text(a) && y[i]
            == #[trigger] json_string_text(b) ==> a == b
}

/// No other values of strings under these keys are written as `text`.
pub open spec fn tells_strings_apart(
    text: Seq<char>,
    keys: Seq<Seq<char>>,
    values: Seq<Seq<char>>,
) -> bool {
    forall|other: Seq<Seq<char>>|
        other.len() == values.len() && #[trigger] json_object_text(keys, other) == text
            ==> agreeing(values, other)
}

/// `serde_json::to_string` on a `serde_json::Map` of the given keys, each with
/// the value that its compact text is parsed to. Objects with the same keys, no
/// two of which are equal, are written alike only if they hold equal strings
/// under equal keys. Nothing of the kind is stated of values that are no strings.
#[verifier::external_body]
fn write_object(keys: &Vec<String>, values: &Vec<String>) -> (r: String)
    requires
        keys@.len() == values@.len(),
    ensures
        r@ == json_object_text(texts(keys@), texts(values@)),
        texts(keys@).no_duplicates() ==> tells_strings_apart(
            r@,
            texts(keys@),
            texts(values@),
        ),
{
    let fields: serde_json::Map<String, serde_json::Value> = keys.iter().zip(values.iter()).map(
        |(k, v)| (k.clone(), serde_json::from_str(v).unwrap_or_default()),
    ).collect();
    serde_json::to_string(&fields).unwrap_or_default()
}

/// `serde_json::to_string` on an array of the values that the given compact
/// texts are parsed to.
#[verifier::external_body]
fn write_array(values: &Vec<String>) -> (r: String)
    ensures
        r@ == json_array_text(texts(values@)),
{
    let items: Vec<serde_json::Value> = values.iter().map(
        |v| serde_json::from_str(v).unwrap_or_default(),
    ).collect();
    serde_json::to_string(&items).unwrap_or_default()
}

/// `serde_json::to_string` on what `chrono::DateTime::from_timestamp` gives.
#[verifier::external_body]
fn write_instant(seconds: i64, nanos: u32) -> (r: String)
    ensures
        r@ == json_time_text(seconds as int, nanos as int),
{
    serde_json::to_string(&chrono::DateTime::from_timestamp(seconds, nanos)).unwrap_or_default()
}

/// `serde_json::to_string` on `uuid::Uuid::from_u128`: the hyphenated text in
/// quotes, of which nothing needs an escape.
#[verifier::external_body]
fn write_uuid(id: u128) -> (r: String)
    ensures
        r@ == json_uuid_text(id),
{
    serde_json::to_string(&uuid::Uuid::from_u128(id)).unwrap_or_default()
}

impl Json {
    /// The compact text of this document.
    pub open spec fn view(&self) -> Seq<char> {
        self.text@
    }

    /// The document whose compact text is `text`.
    pub fn from_compact(text: String) -> (j: Json)
        ensures
            j@ == text@,
    {
        Json { text }
    }

    pub fn null() -> (j: Json)
        ensures
            j@ == "null"@,
    {
        Json { text: copy("null") }
    }

    pub fn boolean(b: bool) -> (j: Json)
        ensures
            j@ == if b {
                "true"@
            } else {
                "false"@
            },
    {
        if b {
            Json { text: copy("true") }
        } else {
            Json { text: copy("false") }
        }
    }

    pub fn number(n: u64) -> (j: Json)
        ensures
            j@ == decimal(n as nat),
    {
        Json { text: decimal_text(n) }
    }

    pub fn string(s: &str) -> (j: Json)
        ensures
            j@ == json_string_text(s@),
    {
        Json { text: quote(s) }
    }

    /// A point in time, in nanoseconds since the Unix epoch.
    pub fn instant(t: i128) -> (j: Json)
        ensures
            j@ == json_instant_text(t as int),
    {
        if t < FIRST_INSTANT || t > LAST_INSTANT {
            return Json { text: copy("null") };
        }
        let since: i128 = t - FIRST_INSTANT;
        let seconds: i128 = since / NANOS_PER_SECOND + FIRST_INSTANT / NANOS_PER_SECOND;
        let nanos: i128 = since % NANOS_PER_SECOND;
        proof {
            assert(seconds == t as int / 1_000_000_000);
            assert(nanos == t as int % 1_000_000_000);
        }
        Json { text: write_instant(seconds as i64, nanos as u32) }
    }

    /// A UUID.
    pub fn uuid(id: u128) -> (j: Json)
        ensures
            j@ == json_uuid_text(id),
    {
        Json { text: write_uuid(id) }
    }

    /// An array of documents.
    pub fn array(items: Vec<Json>) -> (j: Json)
        ensures
            j@ == json_array_text(views(items@)),
    {
        let mut values: Vec<String> = Vec::new();
        let mut i: usize = 0;
        while i < items.len()
            invariant
                i <= items.len(),
                values@.len() == i,
                forall|j: int| 0 <= j < i ==> (#[trigger] values@[j])@ == items@[j]@,
            decreases items.len() - i,
        {
            values.push(items[i].text.clone());
            i = i + 1;
        }
        proof {
            assert(texts(values@) =~= views(items@));
        }
        Json { text: write_array(&values) }
    }

    /// An object with these fields.
    pub fn object(fields: Vec<(String, Json)>) -> (j: Json)
        ensures
            j@ == object_text(fields@),
            field_keys(fields@).no_duplicates() ==> tells_strings_apart(
                j@,
                field_keys(fields@),
                field_values(fields@),
            ),
    {
        let mut keys: Vec<String> = Vec::new();
        let mut values: Vec<String> = Vec::new();
        let mut i: usize = 0;
        while i < fields.len()
            invariant
                i <= fields.len(),
                keys@.len() == i,
                values@.len() == i,
                forall|j: int| 0 <= j < i ==> (#[trigger] keys@[j])@ == fields@[j].0@,
                forall|j: int| 0 <= j < i ==> (#[trigger] values@[j])@ == fields@[j].1@,
            decreases fields.len() - i,
        {
            keys.push(fields[i].0.clone());
            values.push(fields[i].1.text.clone());
            i = i + 1;
        }
        proof {
            assert(texts(keys@) =~= field_keys(fields@));
            assert(texts(values@) =~= field_values(fields@));
        }
        Json { text: write_object(&keys, &values) }
    }
}

impl Clone for Json {
    fn clone(&self) -> (j: Json)
        ensures
            j == *self,
    {
        Json { text: self.text.clone() }
    }
}

pub open spec fn views(items: Seq<Json>) -> Seq<Seq<char>> {
    Seq::new(items.len(), |i: int| items[i]@)
}

pub open spec fn field_keys(fields: Seq<(String, Json)>) -> Seq<Seq<char>> {
    Seq::new(fields.len(), |i: int| fields[i].0@)
}

pub open spec fn field_values(fields: Seq<(String, Json)>) -> Seq<Seq<char>> {
    Seq::new(fields.len(), |i: int| fields[i].1@)
}

/// The text of an object with these fields.
pub open spec fn object_text(fields: Seq<(String, Json)>) -> Seq<char> {
    json_object_text(field_keys(fields), field_values(fields))
}

/// One field of an object.
pub fn field(key: &str, value: Json) -> (f: (String, Json))
    ensures
        f.0@ == key@,
        f.1 == value,
{
    (copy(key), value)
}

} // verus!
