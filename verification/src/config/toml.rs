//! A TOML document as plain values, read through the `toml` crate, and the
//! lookups that the configuration decoding makes on it.

use vstd::prelude::*;

verus! {

/// A TOML value. Floats and dates are kept only as `Other`: no setting or
/// job field takes one.
#[derive(Debug)]
pub enum TomlValue {
    Str(String),
    Int(i64),
    Bool(bool),
    Array(Vec<TomlValue>),
    Table(Vec<(String, TomlValue)>),
    Other,
}

/// The value type of `toml`, carried through opaque.
#[verifier::external_type_specification]
#[verifier::external_body]
pub struct ExTomlValue(toml::Value);

/// What the `toml` crate reads from `content`: the document as plain
/// values, or the text of its error when the text is not TOML.
pub uninterp spec fn toml_parse(content: Seq<char>) -> Result<TomlValue, Seq<char>>;

/// The document that the `toml` crate reads from `content`, if it is TOML.
pub open spec fn toml_document(content: Seq<char>) -> Option<TomlValue> {
    match toml_parse(content) {
        Ok(v) => Some(v),
        Err(_) => None,
    }
}

/// Converts a value of the `toml` crate, variant by variant (floats and
/// dates become `Other`). Nothing is claimed: the input is opaque here.
#[verifier::external_body]
fn tree_of(v: &toml::Value) -> TomlValue {
    match v {
        toml::Value::String(s) => TomlValue::Str(s.clone()),
        toml::Value::Integer(i) => TomlValue::Int(*i),
        toml::Value::Boolean(b) => TomlValue::Bool(*b),
        toml::Value::Array(a) => TomlValue::Array(a.iter().map(tree_of).collect()),
        toml::Value::Table(t) => TomlValue::Table(
            t.iter().map(|(k, x)| (k.clone(), tree_of(x))).collect(),
        ),
        _ => TomlValue::Other,
    }
}

/// No two entries of a table share a key.
pub open spec fn keys_distinct(t: Seq<(String, TomlValue)>) -> bool {
    forall|a: int, b: int|
        0 <= a < t.len() && 0 <= b < t.len() && a != b ==> #[trigger] t[a].0@ != #[trigger] t[b].0@
}

/// No two entries share a key, in a document's table and in each table
/// directly in it.
pub open spec fn outer_keys_distinct(doc: TomlValue) -> bool {
    match doc {
        TomlValue::Table(t) => keys_distinct(t@) && forall|i: int|
            0 <= i < t@.len() ==> (#[trigger] t@[i].1 matches TomlValue::Table(u) ==> keys_distinct(
                u@,
            )),
        _ => true,
    }
}

/// `toml::from_str::<toml::Value>`: reads a TOML document. Claimed: the
/// result, and the crate's message when the text is not TOML, are a
/// function of the text; a document is a table; and the crate's tables
/// are maps, so no two entries of a table share a key.
#[verifier::external_body]
pub fn parse_toml(content: &str) -> (r: Result<TomlValue, String>)
    ensures
        match r {
            Ok(v) => toml_parse(content@) == Ok::<TomlValue, Seq<char>>(v),
            Err(m) => toml_parse(content@) == Err::<TomlValue, Seq<char>>(m@),
        },
        r matches Ok(v) ==> v is Table,
        r matches Ok(v) ==> outer_keys_distinct(v),
{
    match toml::from_str::<toml::Value>(content) {
        Ok(v) => Ok(tree_of(&v)),
        Err(e) => Err(e.to_string()),
    }
}

/// The value of the first entry of a table with the given key.
pub open spec fn get(t: Seq<(String, TomlValue)>, key: Seq<char>) -> Option<TomlValue>
    decreases t.len(),
{
    if t.len() == 0 {
        None
    } else if t[0].0@ == key {
        Some(t[0].1)
    } else {
        get(t.drop_first(), key)
    }
}

/// A value found under a key is the value of one of the table's entries.
pub proof fn lemma_get_in(t: Seq<(String, TomlValue)>, key: Seq<char>)
    ensures
        get(t, key) matches Some(v) ==> exists|i: int| 0 <= i < t.len() && #[trigger] t[i].1 == v,
    decreases t.len(),
{
    if t.len() > 0 {
        if t[0].0@ != key {
            lemma_get_in(t.drop_first(), key);
            if let Some(v) = get(t, key) {
                let i = choose|i: int|
                    0 <= i < t.drop_first().len() && #[trigger] t.drop_first()[i].1 == v;
                assert(t[i + 1].1 == v);
            }
        } else {
            assert(t[0].1 == get(t, key)->0);
        }
    }
}

/// The value of the first entry of `t` with the given key.
pub fn lookup<'a>(t: &'a Vec<(String, TomlValue)>, key: &str) -> (r: Option<&'a TomlValue>)
    ensures
        r == match get(t@, key@) {
            Some(v) => Some(&v),
            None => None::<&TomlValue>,
        },
{
    let mut i: usize = 0;
    assert(t@.skip(0) == t@);
    while i < t.len()
        invariant
            i <= t@.len(),
            get(t@, key@) == get(t@.skip(i as int), key@),
        decreases t@.len() - i,
    {
        assert(t@.skip(i as int)[0] == t@[i as int]);
        if crate::text::str_eq(t[i].0.as_str(), key) {
            return Some(&t[i].1);
        }
        assert(t@.skip(i as int).drop_first() == t@.skip(i + 1));
        i = i + 1;
    }
    None
}

} // verus!
