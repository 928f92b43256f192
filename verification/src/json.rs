//! JSON documents as the library holds them: a tree of plain values whose
//! objects keep their pairs in order, viewed as `JsonV`.
use vstd::prelude::*;
use crate::assoc::{
    assoc_get, assoc_remove, assoc_set, lemma_assoc_get_at, lemma_assoc_get_none,
    lemma_assoc_remove_step, lemma_assoc_set_absent, lemma_assoc_set_at, no_key_before,
};
use crate::text::{str_eq, trimmed};

verus! {

/// A number as serde_json keeps it: a non-negative integer, a negative
/// integer, or a float, which is held by the text that serde_json prints for it.
pub enum NumberV {
    PosInt(u64),
    NegInt(i64),
    Float(Seq<char>),
}

/// The mathematical view of a JSON value.
pub enum JsonV {
    Null,
    Bool(bool),
    Num(NumberV),
    Str(Seq<char>),
    Arr(Seq<JsonV>),
    Obj(Seq<(Seq<char>, JsonV)>),
}

#[derive(Debug)]
pub enum JsonNumber {
    PosInt(u64),
    NegInt(i64),
    Float(String),
}

#[derive(Debug)]
pub enum JsonValue {
    Null,
    Bool(bool),
    Number(JsonNumber),
    String(String),
    Array(Vec<JsonValue>),
    Object(Vec<(String, JsonValue)>),
}

impl View for JsonNumber {
    type V = NumberV;

    open spec fn view(&self) -> NumberV {
        match self {
            JsonNumber::PosInt(n) => NumberV::PosInt(*n),
            JsonNumber::NegInt(n) => NumberV::NegInt(*n),
            JsonNumber::Float(t) => NumberV::Float(t@),
        }
    }
}

/// The view of a JSON value.
pub open spec fn json_view(v: JsonValue) -> JsonV
    decreases v,
{
    match v {
        JsonValue::Null => JsonV::Null,
        JsonValue::Bool(b) => JsonV::Bool(b),
        JsonValue::Number(n) => JsonV::Num(n@),
        JsonValue::String(s) => JsonV::Str(s@),
        JsonValue::Array(items) => JsonV::Arr(
            Seq::new(
                items@.len(),
                |i: int|
                    if 0 <= i < items@.len() {
                        json_view(items@[i])
                    } else {
                        JsonV::Null
                    },
            ),
        ),
        JsonValue::Object(entries) => JsonV::Obj(
            Seq::new(
                entries@.len(),
                |i: int|
                    if 0 <= i < entries@.len() {
                        (entries@[i].0@, json_view(entries@[i].1))
                    } else {
                        (Seq::empty(), JsonV::Null)
                    },
            ),
        ),
    }
}

impl View for JsonValue {
    type V = JsonV;

    open spec fn view(&self) -> JsonV {
        json_view(*self)
    }
}

/// The view of the pairs of an object.
pub open spec fn entries_view(e: Seq<(String, JsonValue)>) -> Seq<(Seq<char>, JsonV)> {
    Seq::new(e.len(), |i: int| (e[i].0@, e[i].1@))
}

/// The view of the items of an array.
pub open spec fn items_view(e: Seq<JsonValue>) -> Seq<JsonV> {
    Seq::new(e.len(), |i: int| e[i]@)
}

pub proof fn lemma_object_view(entries: Vec<(String, JsonValue)>)
    ensures
        JsonValue::Object(entries)@ == JsonV::Obj(entries_view(entries@)),
{
    let v = JsonValue::Object(entries);
    let o = v@->Obj_0;
    assert(o.len() == entries@.len());
    assert forall|i: int| 0 <= i < o.len() implies #[trigger] o[i] == entries_view(entries@)[i] by {
    }
    assert(entries_view(entries@) =~= o);
}

pub proof fn lemma_array_view(items: Vec<JsonValue>)
    ensures
        JsonValue::Array(items)@ == JsonV::Arr(items_view(items@)),
{
    let v = JsonValue::Array(items);
    let o = v@->Arr_0;
    assert(o.len() == items@.len());
    assert forall|i: int| 0 <= i < o.len() implies #[trigger] o[i] == items_view(items@)[i] by {
    }
    assert(items_view(items@) =~= o);
}

/// `Value::get` with a string key: the value under the key of an object, and
/// nothing for any other value.
pub open spec fn json_get(v: JsonV, key: Seq<char>) -> Option<JsonV> {
    match v {
        JsonV::Obj(e) => assoc_get(e, key),
        _ => None,
    }
}

/// `Value::as_str` on an optional value.
pub open spec fn json_str(v: Option<JsonV>) -> Option<Seq<char>> {
    match v {
        Some(JsonV::Str(s)) => Some(s),
        _ => None,
    }
}

/// The string under `key`, trimmed, or the empty string where there is no
/// string there.
pub open spec fn trimmed_field(v: JsonV, key: Seq<char>) -> Seq<char> {
    match json_str(json_get(v, key)) {
        Some(s) => trimmed(s),
        None => Seq::empty(),
    }
}

/// `Value::as_i64`.
pub open spec fn json_i64(v: Option<JsonV>) -> Option<i64> {
    match v {
        Some(JsonV::Num(NumberV::PosInt(n))) => if n <= i64::MAX {
            Some(n as i64)
        } else {
            None
        },
        Some(JsonV::Num(NumberV::NegInt(n))) => Some(n),
        _ => None,
    }
}

/// The boolean of an optional value, where it is one (`Value::as_bool`).
pub open spec fn json_bool(v: Option<JsonV>) -> Option<bool> {
    match v {
        Some(JsonV::Bool(b)) => Some(b),
        _ => None,
    }
}

/// Position of the first pair of `e` whose key is `key`.
pub fn find_key(e: &Vec<(String, JsonValue)>, key: &str) -> (r: Option<usize>)
    ensures
        match r {
            Some(i) => i < e@.len() && e@[i as int].0@ == key@ && no_key_before(
                entries_view(e@),
                key@,
                i as int,
            ),
            None => no_key_before(entries_view(e@), key@, e@.len() as int),
        },
{
    let mut i: usize = 0;
    while i < e.len()
        invariant
            i <= e@.len(),
            no_key_before(entries_view(e@), key@, i as int),
        decreases e@.len() - i,
    {
        if str_eq(e[i].0.as_str(), key) {
            return Some(i);
        }
        i = i + 1;
    }
    None
}

impl JsonValue {
    /// `Value::get` with a string key.
    pub fn get(&self, key: &str) -> (r: Option<&JsonValue>)
        ensures
            match r {
                Some(x) => json_get(self@, key@) == Some(x@),
                None => json_get(self@, key@) is None,
            },
    {
        match self {
            JsonValue::Object(e) => {
                proof {
                    lemma_object_view(*e);
                }
                match find_key(e, key) {
                    Some(i) => {
                        proof {
                            lemma_assoc_get_at(entries_view(e@), key@, i as int);
                        }
                        Some(&e[i].1)
                    },
                    None => {
                        proof {
                            lemma_assoc_get_none(entries_view(e@), key@);
                        }
                        None
                    },
                }
            },
            _ => None,
        }
    }

    /// The string of a string value, and nothing for any other.
    pub fn as_str(&self) -> (r: Option<&str>)
        ensures
            match r {
                Some(s) => self@ == JsonV::Str(s@),
                None => !(self@ is Str),
            },
    {
        match self {
            JsonValue::String(s) => Some(s.as_str()),
            _ => None,
        }
    }

    /// The pairs of an object, and nothing for any other value.
    pub fn as_object(&self) -> (r: Option<&Vec<(String, JsonValue)>>)
        ensures
            match r {
                Some(e) => self@ == JsonV::Obj(entries_view(e@)),
                None => !(self@ is Obj),
            },
    {
        match self {
            JsonValue::Object(e) => {
                proof {
                    lemma_object_view(*e);
                }
                Some(e)
            },
            _ => None,
        }
    }

    /// Whether the value is an object.
    pub fn is_object(&self) -> (r: bool)
        ensures
            r == (self@ is Obj),
    {
        match self {
            JsonValue::Object(_) => true,
            _ => false,
        }
    }

    /// The boolean of a boolean value, and nothing for any other.
    pub fn as_bool(&self) -> (r: Option<bool>)
        ensures
            r == json_bool(Some(self@)),
    {
        match self {
            JsonValue::Bool(b) => Some(*b),
            _ => None,
        }
    }

    /// `Value::as_i64`.
    pub fn as_i64(&self) -> (r: Option<i64>)
        ensures
            r == json_i64(Some(self@)),
    {
        match self {
            JsonValue::Number(JsonNumber::PosInt(n)) => {
                if *n <= 9223372036854775807u64 {
                    Some(*n as i64)
                } else {
                    None
                }
            },
            JsonValue::Number(JsonNumber::NegInt(n)) => Some(*n),
            _ => None,
        }
    }

    /// A copy of the value.
    pub fn copy(&self) -> (r: JsonValue)
        ensures
            r@ == self@,
        decreases self,
    {
        match self {
            JsonValue::Null => JsonValue::Null,
            JsonValue::Bool(b) => JsonValue::Bool(*b),
            JsonValue::Number(JsonNumber::PosInt(n)) => JsonValue::Number(JsonNumber::PosInt(*n)),
            JsonValue::Number(JsonNumber::NegInt(n)) => JsonValue::Number(JsonNumber::NegInt(*n)),
            JsonValue::Number(JsonNumber::Float(t)) => JsonValue::Number(JsonNumber::Float(t.clone())),
            JsonValue::String(s) => JsonValue::String(s.clone()),
            JsonValue::Array(items) => {
                let mut out: Vec<JsonValue> = Vec::new();
                let mut i: usize = 0;
                while i < items.len()
                    invariant
                        *self == JsonValue::Array(*items),
                        i <= items@.len(),
                        out@.len() == i,
                        forall|j: int| 0 <= j < i ==> #[trigger] out@[j]@ == items@[j]@,
                    decreases items@.len() - i,
                {
                    proof {
                        let ghost v = *self;
                        assert(decreases_to!(v => v->Array_0));
                        assert(decreases_to!(v->Array_0 => v->Array_0@));
                        assert(decreases_to!(v => v->Array_0@[i as int]));
                    }
                    let c = items[i].copy();
                    out.push(c);
                    i = i + 1;
                }
                proof {
                    lemma_array_view(*items);
                    lemma_array_view(out);
                    assert(items_view(out@) =~= items_view(items@));
                }
                JsonValue::Array(out)
            },
            JsonValue::Object(entries) => {
                let out = copy_entries(entries);
                proof {
                    lemma_object_view(*entries);
                    lemma_object_view(out);
                }
                JsonValue::Object(out)
            },
        }
    }
}

/// Set `key` in the pairs of an object: in place when the key is there,
/// else at the end.
pub fn entries_set(e: &mut Vec<(String, JsonValue)>, key: &str, v: JsonValue)
    ensures
        entries_view(final(e)@) == assoc_set(entries_view(old(e)@), key@, v@),
{
    let ghost vv = v@;
    match find_key(e, key) {
        Some(i) => {
            proof {
                lemma_assoc_set_at(entries_view(e@), key@, vv, i as int);
            }
            e.set(i, (key.to_owned(), v));
            assert(entries_view(e@) =~= entries_view(old(e)@).update(i as int, (key@, vv)));
        },
        None => {
            proof {
                lemma_assoc_set_absent(entries_view(e@), key@, vv);
            }
            e.push((key.to_owned(), v));
            assert(entries_view(e@) =~= entries_view(old(e)@).push((key@, vv)));
        },
    }
}

/// Drop every pair of an object whose key is `key`.
pub fn entries_remove(e: &Vec<(String, JsonValue)>, key: &str) -> (r: Vec<(String, JsonValue)>)
    ensures
        entries_view(r@) == assoc_remove(entries_view(e@), key@),
{
    let mut out: Vec<(String, JsonValue)> = Vec::new();
    let mut i: usize = 0;
    while i < e.len()
        invariant
            i <= e@.len(),
            entries_view(out@) == assoc_remove(entries_view(e@).take(i as int), key@),
        decreases e@.len() - i,
    {
        proof {
            lemma_assoc_remove_step(entries_view(e@), key@, i as int);
        }
        if !str_eq(e[i].0.as_str(), key) {
            let k = e[i].0.clone();
            let v = e[i].1.copy();
            let ghost before = out@;
            out.push((k, v));
            assert(entries_view(out@) =~= entries_view(before).push(entries_view(e@)[i as int]));
        }
        i = i + 1;
    }
    assert(entries_view(e@).take(e@.len() as int) =~= entries_view(e@));
    out
}

/// The empty array.
pub fn empty_array() -> (r: JsonValue)
    ensures
        r@ == JsonV::Arr(Seq::empty()),
{
    let items: Vec<JsonValue> = Vec::new();
    proof {
        lemma_array_view(items);
        assert(items_view(items@) =~= Seq::empty());
    }
    JsonValue::Array(items)
}

/// The empty object.
pub fn empty_object() -> (r: JsonValue)
    ensures
        r@ == JsonV::Obj(Seq::empty()),
{
    let e: Vec<(String, JsonValue)> = Vec::new();
    proof {
        lemma_object_view(e);
        assert(entries_view(e@) =~= Seq::empty());
    }
    JsonValue::Object(e)
}

/// A copy of the pairs of an object.
pub fn copy_entries(entries: &Vec<(String, JsonValue)>) -> (r: Vec<(String, JsonValue)>)
    ensures
        entries_view(r@) == entries_view(entries@),
    decreases entries,
{
    let mut out: Vec<(String, JsonValue)> = Vec::new();
    let mut i: usize = 0;
    while i < entries.len()
        invariant
            i <= entries@.len(),
            out@.len() == i,
            forall|j: int|
                0 <= j < i ==> #[trigger] out@[j].0@ == entries@[j].0@ && out@[j].1@ == entries@[
                    j
                ].1@,
        decreases entries@.len() - i,
    {
        let k = entries[i].0.clone();
        let v = entries[i].1.copy();
        out.push((k, v));
        i = i + 1;
    }
    assert(entries_view(out@) =~= entries_view(entries@));
    out
}

} // verus!
