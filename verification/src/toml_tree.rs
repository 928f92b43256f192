//! TOML documents as the library holds them: a tree of plain values whose
//! tables keep their pairs in order, viewed as `TomlV`.
use vstd::prelude::*;
use crate::assoc::{assoc_get, assoc_set, lemma_assoc_get_at, lemma_assoc_get_none, no_key_before};
use crate::text::str_eq;

verus! {

/// The mathematical view of a TOML value; floats and date-times are held by
/// their text.
pub enum TomlV {
    Str(Seq<char>),
    Int(i64),
    Float(Seq<char>),
    Bool(bool),
    Datetime(Seq<char>),
    Arr(Seq<TomlV>),
    Table(Seq<(Seq<char>, TomlV)>),
}

#[derive(Debug)]
pub enum TomlValue {
    String(String),
    Integer(i64),
    Float(String),
    Boolean(bool),
    Datetime(String),
    Array(Vec<TomlValue>),
    Table(Vec<(String, TomlValue)>),
}

/// The view of a TOML value.
pub open spec fn toml_view(v: TomlValue) -> TomlV
    decreases v,
{
    match v {
        TomlValue::String(s) => TomlV::Str(s@),
        TomlValue::Integer(i) => TomlV::Int(i),
        TomlValue::Float(t) => TomlV::Float(t@),
        TomlValue::Boolean(b) => TomlV::Bool(b),
        TomlValue::Datetime(t) => TomlV::Datetime(t@),
        TomlValue::Array(items) => TomlV::Arr(
            Seq::new(
                items@.len(),
                |i: int|
                    if 0 <= i < items@.len() {
                        toml_view(items@[i])
                    } else {
                        TomlV::Bool(false)
                    },
            ),
        ),
        TomlValue::Table(entries) => TomlV::Table(
            Seq::new(
                entries@.len(),
                |i: int|
                    if 0 <= i < entries@.len() {
                        (entries@[i].0@, toml_view(entries@[i].1))
                    } else {
                        (Seq::empty(), TomlV::Bool(false))
                    },
            ),
        ),
    }
}

impl View for TomlValue {
    type V = TomlV;

    open spec fn view(&self) -> TomlV {
        toml_view(*self)
    }
}

/// The view of the pairs of a table.
pub open spec fn table_view(e: Seq<(String, TomlValue)>) -> Seq<(Seq<char>, TomlV)> {
    Seq::new(e.len(), |i: int| (e[i].0@, e[i].1@))
}

pub proof fn lemma_table_view(entries: Vec<(String, TomlValue)>)
    ensures
        TomlValue::Table(entries)@ == TomlV::Table(table_view(entries@)),
{
    let v = TomlValue::Table(entries);
    let o = v@->Table_0;
    assert forall|i: int| 0 <= i < o.len() implies #[trigger] o[i] == table_view(entries@)[i] by {
    }
    assert(table_view(entries@) =~= o);
}

/// `Value::as_table` on an optional value.
pub open spec fn ttable(v: Option<TomlV>) -> Option<Seq<(Seq<char>, TomlV)>> {
    match v {
        Some(TomlV::Table(e)) => Some(e),
        _ => None,
    }
}

/// `Value::as_str` on an optional value.
pub open spec fn tstr(v: Option<TomlV>) -> Option<Seq<char>> {
    match v {
        Some(TomlV::Str(s)) => Some(s),
        _ => None,
    }
}

/// `Value::as_integer` on an optional value.
pub open spec fn tint(v: Option<TomlV>) -> Option<i64> {
    match v {
        Some(TomlV::Int(i)) => Some(i),
        _ => None,
    }
}

/// Lookup in an optional table.
pub open spec fn tget(t: Option<Seq<(Seq<char>, TomlV)>>, key: Seq<char>) -> Option<TomlV> {
    match t {
        Some(e) => assoc_get(e, key),
        None => None,
    }
}

/// Lookup of a key in the pairs of a table.
pub fn table_get<'a>(e: &'a Vec<(String, TomlValue)>, key: &str) -> (r: Option<&'a TomlValue>)
    ensures
        match r {
            Some(x) => assoc_get(table_view(e@), key@) == Some(x@),
            None => assoc_get(table_view(e@), key@) is None,
        },
{
    let mut i: usize = 0;
    while i < e.len()
        invariant
            i <= e@.len(),
            no_key_before(table_view(e@), key@, i as int),
        decreases e@.len() - i,
    {
        if str_eq(e[i].0.as_str(), key) {
            proof {
                lemma_assoc_get_at(table_view(e@), key@, i as int);
            }
            return Some(&e[i].1);
        }
        i = i + 1;
    }
    proof {
        lemma_assoc_get_none(table_view(e@), key@);
    }
    None
}

impl TomlValue {
    /// The pairs of a table, and nothing for any other value.
    pub fn as_table(&self) -> (r: Option<&Vec<(String, TomlValue)>>)
        ensures
            match r {
                Some(e) => ttable(Some(self@)) == Some(table_view(e@)),
                None => ttable(Some(self@)) is None,
            },
    {
        match self {
            TomlValue::Table(e) => {
                proof {
                    lemma_table_view(*e);
                }
                Some(e)
            },
            _ => None,
        }
    }

    /// The string of a string value, and nothing for any other.
    pub fn as_str(&self) -> (r: Option<&str>)
        ensures
            match r {
                Some(s) => tstr(Some(self@)) == Some(s@),
                None => tstr(Some(self@)) is None,
            },
    {
        match self {
            TomlValue::String(s) => Some(s.as_str()),
            _ => None,
        }
    }

    /// The integer of an integer value, and nothing for any other.
    pub fn as_integer(&self) -> (r: Option<i64>)
        ensures
            r == tint(Some(self@)),
    {
        match self {
            TomlValue::Integer(i) => Some(*i),
            _ => None,
        }
    }
}

/// A value that the library writes into a TOML document: a string or an
/// integer.
#[derive(Debug)]
pub enum TomlScalar {
    Text(String),
    Integer(i64),
}

impl View for TomlScalar {
    type V = TomlV;

    open spec fn view(&self) -> TomlV {
        match self {
            TomlScalar::Text(s) => TomlV::Str(s@),
            TomlScalar::Integer(i) => TomlV::Int(*i),
        }
    }
}

/// The view of the pairs of a table of scalars.
pub open spec fn scalars_view(e: Seq<(String, TomlScalar)>) -> Seq<(Seq<char>, TomlV)> {
    Seq::new(e.len(), |i: int| (e[i].0@, e[i].1@))
}

/// A table built by inserting the pairs of `s` in order, a later pair
/// replacing an earlier one with the same key.
pub open spec fn table_of(s: Seq<(Seq<char>, TomlV)>) -> Seq<(Seq<char>, TomlV)>
    decreases s.len(),
{
    if s.len() == 0 {
        Seq::empty()
    } else {
        assoc_set(table_of(s.drop_last()), s.last().0, s.last().1)
    }
}

/// Building a table from pairs with distinct keys keeps them as they are.
pub proof fn lemma_table_of_distinct(s: Seq<(Seq<char>, TomlV)>)
    requires
        crate::assoc::keys_distinct(s),
    ensures
        table_of(s) == s,
    decreases s.len(),
{
    if s.len() > 0 {
        let t = s.drop_last();
        assert(crate::assoc::keys_distinct(t)) by {
            assert forall|i: int, j: int| 0 <= i < j < t.len() implies t[i].0 != t[j].0 by {
                assert(t[i] == s[i] && t[j] == s[j]);
            }
        }
        lemma_table_of_distinct(t);
        assert(crate::assoc::no_key_before(t, s.last().0, t.len() as int)) by {
            assert forall|j: int| 0 <= j < t.len() implies #[trigger] t[j].0 != s.last().0 by {
                assert(t[j] == s[j]);
            }
        }
        crate::assoc::lemma_assoc_set_absent(t, s.last().0, s.last().1);
        assert(t.push(s.last()) =~= s);
    }
}

} // verus!
