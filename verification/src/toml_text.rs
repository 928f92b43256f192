//! TOML text: read into values by the `toml` crate, and edited in place,
//! keeping its layout, by `toml_edit`.
use vstd::prelude::*;
use crate::assoc::{assoc_get, assoc_set};
use crate::toml_tree::{scalars_view, table_of, TomlScalar, TomlV, TomlValue};

verus! {

#[verifier::external_type_specification]
#[verifier::external_body]
pub struct ExTomlValue(toml::Value);

#[verifier::external_type_specification]
#[verifier::external_body]
pub struct ExTomlDocument(toml_edit::DocumentMut);

/// What `toml` makes of `text` parsed as a `toml::Value`: the document's
/// value, or the message of its error.
pub uninterp spec fn toml_parse_outcome(text: Seq<char>) -> Result<TomlV, Seq<char>>;

/// The top-level items of a `toml_edit` document, in order, each by its value
/// (a table item, an inline table and an array of tables all as tables).
pub uninterp spec fn toml_doc_items(d: toml_edit::DocumentMut) -> Seq<(Seq<char>, TomlV)>;

/// The top-level keys of a `toml_edit` document whose item is a table (not an
/// inline table, not a value).
pub uninterp spec fn toml_doc_table_keys(d: toml_edit::DocumentMut) -> Set<Seq<char>>;

/// The text that `toml_edit` prints for a document.
pub uninterp spec fn toml_doc_text(d: toml_edit::DocumentMut) -> Seq<char>;

/// What `toml_edit` makes of `text` parsed as a document: its items and table
/// keys, or the message of its error.
pub uninterp spec fn toml_doc_parse_outcome(text: Seq<char>) -> Result<
    (Seq<(Seq<char>, TomlV)>, Set<Seq<char>>),
    Seq<char>,
>;

/// Moves a `toml` value into the library's tree, variant for variant.
#[verifier::external_body]
fn toml_from_value(v: toml::Value) -> TomlValue {
    match v {
        toml::Value::String(s) => TomlValue::String(s),
        toml::Value::Integer(i) => TomlValue::Integer(i),
        toml::Value::Float(f) => TomlValue::Float(f.to_string()),
        toml::Value::Boolean(b) => TomlValue::Boolean(b),
        toml::Value::Datetime(d) => TomlValue::Datetime(d.to_string()),
        toml::Value::Array(a) => TomlValue::Array(a.into_iter().map(toml_from_value).collect()),
        toml::Value::Table(t) => TomlValue::Table(
            t.into_iter().map(|(k, v)| (k, toml_from_value(v))).collect(),
        ),
    }
}

/// `str::parse::<toml::Value>`. Claimed: the outcome is a function of the
/// text alone (`toml_parse_outcome`).
#[verifier::external_body]
pub(crate) fn parse_toml_value(text: &str) -> (r: Result<TomlValue, String>)
    ensures
        match r {
            Ok(v) => toml_parse_outcome(text@) == Ok::<TomlV, Seq<char>>(v@),
            Err(e) => toml_parse_outcome(text@) == Err::<TomlV, Seq<char>>(e@),
        },
{
    match text.parse::<toml::Value>() {
        Ok(v) => Ok(toml_from_value(v)),
        Err(e) => Err(e.to_string()),
    }
}

/// `str::parse::<toml_edit::DocumentMut>`. Claimed: the outcome is a
/// function of the text alone (`toml_doc_parse_outcome`).
#[verifier::external_body]
pub(crate) fn parse_toml_document(text: &str) -> (r: Result<toml_edit::DocumentMut, String>)
    ensures
        match r {
            Ok(d) => toml_doc_parse_outcome(text@) == Ok::<
                (Seq<(Seq<char>, TomlV)>, Set<Seq<char>>),
                Seq<char>,
            >((toml_doc_items(d), toml_doc_table_keys(d))),
            Err(e) => toml_doc_parse_outcome(text@) is Err && toml_doc_parse_outcome(text@)->Err_0
                == e@,
        },
{
    match text.parse::<toml_edit::DocumentMut>() {
        Ok(d) => Ok(d),
        Err(e) => Err(e.to_string()),
    }
}

/// `DocumentMut::new`: a document without items.
#[verifier::external_body]
pub(crate) fn toml_document_new() -> (r: toml_edit::DocumentMut)
    ensures
        toml_doc_items(r) == Seq::<(Seq<char>, TomlV)>::empty(),
        toml_doc_table_keys(r) == Set::<Seq<char>>::empty(),
{
    toml_edit::DocumentMut::new()
}

/// `Table::contains_key` on the root table: whether the key has an item.
#[verifier::external_body]
pub(crate) fn toml_doc_contains_key(d: &toml_edit::DocumentMut, key: &str) -> (r: bool)
    ensures
        r == (assoc_get(toml_doc_items(*d), key@) is Some),
{
    d.as_table().contains_key(key)
}

/// `Table::contains_table` on the root table: whether the key's item is a
/// table (which `Item::as_table_mut` then yields).
#[verifier::external_body]
pub(crate) fn toml_doc_contains_table(d: &toml_edit::DocumentMut, key: &str) -> (r: bool)
    ensures
        r == toml_doc_table_keys(*d).contains(key@),
        r ==> assoc_get(toml_doc_items(*d), key@) matches Some(TomlV::Table(_)),
{
    d.as_table().contains_table(key)
}

/// `Table::insert` of a new empty table on the root table: the key's item
/// becomes an empty table, in place when the key was there, else at the end.
#[verifier::external_body]
pub(crate) fn toml_doc_insert_table(d: &mut toml_edit::DocumentMut, key: &str)
    ensures
        toml_doc_items(*final(d)) == assoc_set(
            toml_doc_items(*old(d)),
            key@,
            TomlV::Table(Seq::empty()),
        ),
        toml_doc_table_keys(*final(d)) == toml_doc_table_keys(*old(d)).insert(key@),
{
    d.as_table_mut().insert(key, toml_edit::Item::Table(toml_edit::Table::new()));
}

/// `Table::insert` of a sub-table, built from `entry`, into the table under
/// `table_key`: the sub-table takes the place of `key` there, or is added at
/// its end.
#[verifier::external_body]
pub(crate) fn toml_doc_insert_in_table(
    d: &mut toml_edit::DocumentMut,
    table_key: &str,
    key: &str,
    entry: &Vec<(String, TomlScalar)>,
)
    requires
        toml_doc_table_keys(*old(d)).contains(table_key@),
    ensures
        toml_doc_items(*final(d)) == assoc_set(
            toml_doc_items(*old(d)),
            table_key@,
            TomlV::Table(
                assoc_set(
                    assoc_get(toml_doc_items(*old(d)), table_key@)->0->Table_0,
                    key@,
                    TomlV::Table(table_of(scalars_view(entry@))),
                ),
            ),
        ),
        toml_doc_table_keys(*final(d)) == toml_doc_table_keys(*old(d)),
{
    let mut t = toml_edit::Table::new();
    for (k, v) in entry.iter() {
        match v {
            TomlScalar::Text(s) => t.insert(k, toml_edit::value(s.as_str())),
            TomlScalar::Integer(i) => t.insert(k, toml_edit::value(*i)),
        };
    }
    if let Some(target) = d.as_table_mut().get_mut(table_key).and_then(toml_edit::Item::as_table_mut) {
        target.insert(key, toml_edit::Item::Table(t));
    }
}

/// `Table::insert` of a value on the root table: the key's item becomes the
/// value, in place when the key was there, else at the end.
#[verifier::external_body]
pub(crate) fn toml_doc_insert_value(d: &mut toml_edit::DocumentMut, key: &str, value: &TomlScalar)
    ensures
        toml_doc_items(*final(d)) == assoc_set(toml_doc_items(*old(d)), key@, value@),
        toml_doc_table_keys(*final(d)) == toml_doc_table_keys(*old(d)).remove(key@),
{
    let item = match value {
        TomlScalar::Text(s) => toml_edit::value(s.as_str()),
        TomlScalar::Integer(i) => toml_edit::value(*i),
    };
    d.as_table_mut().insert(key, item);
}

/// `DocumentMut::to_string`: the text of the document, in its layout.
/// Claimed: the text is a function of the document alone (`toml_doc_text`).
/// How that text reads back is left unsaid: toml_edit lays it out from the
/// formatting that the document carries (values before tables, tables by
/// their position in the text they were read from), so reading it back can
/// order the items differently from the document.
#[verifier::external_body]
pub(crate) fn toml_document_text(d: &toml_edit::DocumentMut) -> (r: String)
    ensures
        r@ == toml_doc_text(*d),
{
    d.to_string()
}

} // verus!
