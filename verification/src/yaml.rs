//! YAML documents as the library holds them: a tree of plain values whose
//! mappings keep their pairs in order, viewed as `YamlV`. Keys are looked up
//! the way serde_yaml looks up a string key: through tags on the container,
//! matching the first key that is that very string.
use vstd::prelude::*;
use crate::assoc::{
    assoc_get, assoc_set, lemma_assoc_get_at, lemma_assoc_get_none, lemma_assoc_set_absent,
    lemma_assoc_set_at, no_key_before,
};
use crate::json::NumberV;
use crate::text::str_eq;

verus! {

/// The mathematical view of a YAML value.
pub enum YamlV {
    Null,
    Bool(bool),
    Num(NumberV),
    Str(Seq<char>),
    Sequence(Seq<YamlV>),
    Mapping(Seq<(YamlV, YamlV)>),
    Tagged(Seq<char>, Box<YamlV>),
}

#[derive(Debug)]
pub enum YamlNumber {
    PosInt(u64),
    NegInt(i64),
    Float(String),
}

/// The tag of a tagged YAML value, as serde_yaml prints it; never empty.
#[derive(Debug)]
pub struct YamlTag {
    pub(crate) text: String,
}

impl YamlTag {
    #[verifier::type_invariant]
    spec fn non_empty(self) -> bool {
        self.text@.len() > 0
    }

    pub closed spec fn tag_text(self) -> Seq<char> {
        self.text@
    }

    /// A tag with this text, or nothing for the empty text (serde_yaml has no
    /// empty tag).
    pub fn new(text: &str) -> (r: Option<YamlTag>)
        ensures
            r is Some <==> text@.len() > 0,
            r matches Some(t) ==> t.tag_text() == text@,
    {
        if text.is_empty() {
            None
        } else {
            Some(YamlTag { text: text.to_owned() })
        }
    }

    /// The text of the tag.
    pub fn as_str(&self) -> (r: &str)
        ensures
            r@ == self.tag_text(),
            r@.len() > 0,
    {
        proof {
            use_type_invariant(self);
        }
        self.text.as_str()
    }

    /// A copy of the tag.
    pub fn copy(&self) -> (r: YamlTag)
        ensures
            r.tag_text() == self.tag_text(),
    {
        proof {
            use_type_invariant(self);
        }
        YamlTag { text: self.text.clone() }
    }
}

#[derive(Debug)]
pub enum YamlValue {
    Null,
    Bool(bool),
    Number(YamlNumber),
    String(String),
    Sequence(Vec<YamlValue>),
    Mapping(Vec<(YamlValue, YamlValue)>),
    Tagged(YamlTag, Box<YamlValue>),
}

impl View for YamlNumber {
    type V = NumberV;

    open spec fn view(&self) -> NumberV {
        match self {
            YamlNumber::PosInt(n) => NumberV::PosInt(*n),
            YamlNumber::NegInt(n) => NumberV::NegInt(*n),
            YamlNumber::Float(t) => NumberV::Float(t@),
        }
    }
}

/// The view of a YAML value.
pub open spec fn yaml_view(v: YamlValue) -> YamlV
    decreases v,
{
    match v {
        YamlValue::Null => YamlV::Null,
        YamlValue::Bool(b) => YamlV::Bool(b),
        YamlValue::Number(n) => YamlV::Num(n@),
        YamlValue::String(s) => YamlV::Str(s@),
        YamlValue::Sequence(items) => YamlV::Sequence(
            Seq::new(
                items@.len(),
                |i: int|
                    if 0 <= i < items@.len() {
                        yaml_view(items@[i])
                    } else {
                        YamlV::Null
                    },
            ),
        ),
        YamlValue::Mapping(entries) => YamlV::Mapping(
            Seq::new(
                entries@.len(),
                |i: int|
                    if 0 <= i < entries@.len() {
                        (yaml_view(entries@[i].0), yaml_view(entries@[i].1))
                    } else {
                        (YamlV::Null, YamlV::Null)
                    },
            ),
        ),
        YamlValue::Tagged(t, inner) => YamlV::Tagged(t.tag_text(), Box::new(yaml_view(*inner))),
    }
}

impl View for YamlValue {
    type V = YamlV;

    open spec fn view(&self) -> YamlV {
        yaml_view(*self)
    }
}

/// The view of the pairs of a mapping.
pub open spec fn pairs_view(e: Seq<(YamlValue, YamlValue)>) -> Seq<(YamlV, YamlV)> {
    Seq::new(e.len(), |i: int| (e[i].0@, e[i].1@))
}

pub open spec fn yitems_view(e: Seq<YamlValue>) -> Seq<YamlV> {
    Seq::new(e.len(), |i: int| e[i]@)
}

pub proof fn lemma_mapping_view(entries: Vec<(YamlValue, YamlValue)>)
    ensures
        YamlValue::Mapping(entries)@ == YamlV::Mapping(pairs_view(entries@)),
{
    let v = YamlValue::Mapping(entries);
    let o = v@->Mapping_0;
    assert forall|i: int| 0 <= i < o.len() implies #[trigger] o[i] == pairs_view(entries@)[i] by {
    }
    assert(pairs_view(entries@) =~= o);
}

pub proof fn lemma_sequence_view(items: Vec<YamlValue>)
    ensures
        YamlValue::Sequence(items)@ == YamlV::Sequence(yitems_view(items@)),
{
    let v = YamlValue::Sequence(items);
    let o = v@->Sequence_0;
    assert forall|i: int| 0 <= i < o.len() implies #[trigger] o[i] == yitems_view(items@)[i] by {
    }
    assert(yitems_view(items@) =~= o);
}

/// The value under all its tags.
pub open spec fn untag(v: YamlV) -> YamlV
    decreases v,
{
    match v {
        YamlV::Tagged(_, inner) => untag(*inner),
        _ => v,
    }
}

/// The key under which a string key is stored.
pub open spec fn ykey(key: Seq<char>) -> YamlV {
    YamlV::Str(key)
}

/// `Value::get` with a string key.
pub open spec fn yget(v: YamlV, key: Seq<char>) -> Option<YamlV> {
    match untag(v) {
        YamlV::Mapping(e) => assoc_get(e, ykey(key)),
        _ => None,
    }
}

/// `Value::as_str` on an optional value.
pub open spec fn ystr(v: Option<YamlV>) -> Option<Seq<char>> {
    match v {
        Some(x) => match untag(x) {
            YamlV::Str(s) => Some(s),
            _ => None,
        },
        None => None,
    }
}

/// `Value::as_mapping` on an optional value.
pub open spec fn ymapping(v: Option<YamlV>) -> Option<Seq<(YamlV, YamlV)>> {
    match v {
        Some(x) => match untag(x) {
            YamlV::Mapping(e) => Some(e),
            _ => None,
        },
        None => None,
    }
}

/// The string under `key`, or the empty string.
pub open spec fn ystr_or_empty(v: Option<YamlV>) -> Seq<char> {
    match ystr(v) {
        Some(s) => s,
        None => Seq::empty(),
    }
}

/// `v` with the mapping under its tags replaced by a mapping of `e`.
pub open spec fn set_untagged(v: YamlV, e: Seq<(YamlV, YamlV)>) -> YamlV
    decreases v,
{
    match v {
        YamlV::Tagged(t, inner) => YamlV::Tagged(t, Box::new(set_untagged(*inner, e))),
        _ => YamlV::Mapping(e),
    }
}

pub proof fn lemma_untag_set_untagged(v: YamlV, e: Seq<(YamlV, YamlV)>)
    ensures
        untag(set_untagged(v, e)) == YamlV::Mapping(e),
    decreases v,
{
    if let YamlV::Tagged(t, inner) = v {
        lemma_untag_set_untagged(*inner, e);
    }
}

/// The pairs of the mapping under `key` in `parent`, or none where the key is
/// absent.
pub open spec fn child_entries(parent: Seq<(YamlV, YamlV)>, key: Seq<char>) -> Seq<(YamlV, YamlV)> {
    match ymapping(assoc_get(parent, ykey(key))) {
        Some(e) => e,
        None => Seq::empty(),
    }
}

/// The key is absent from `parent`, or holds a mapping (possibly tagged).
pub open spec fn child_slot_ok(parent: Seq<(YamlV, YamlV)>, key: Seq<char>) -> bool {
    match assoc_get(parent, ykey(key)) {
        Some(v) => untag(v) is Mapping,
        None => true,
    }
}

/// `parent` with the mapping under `key` replaced by a mapping of `e`, keeping
/// the tags of the value that was there, or with a new pair at the end.
pub open spec fn put_child(
    parent: Seq<(YamlV, YamlV)>,
    key: Seq<char>,
    e: Seq<(YamlV, YamlV)>,
) -> Seq<(YamlV, YamlV)> {
    match assoc_get(parent, ykey(key)) {
        Some(v) => assoc_set(parent, ykey(key), set_untagged(v, e)),
        None => assoc_set(parent, ykey(key), YamlV::Mapping(e)),
    }
}

/// Position of the first pair whose key is the string `key`.
pub fn find_ykey(e: &Vec<(YamlValue, YamlValue)>, key: &str) -> (r: Option<usize>)
    ensures
        match r {
            Some(i) => i < e@.len() && pairs_view(e@)[i as int].0 == ykey(key@) && no_key_before(
                pairs_view(e@),
                ykey(key@),
                i as int,
            ),
            None => no_key_before(pairs_view(e@), ykey(key@), e@.len() as int),
        },
{
    let mut i: usize = 0;
    while i < e.len()
        invariant
            i <= e@.len(),
            no_key_before(pairs_view(e@), ykey(key@), i as int),
        decreases e@.len() - i,
    {
        match &e[i].0 {
            YamlValue::String(s) => {
                if str_eq(s.as_str(), key) {
                    return Some(i);
                }
            },
            _ => {},
        }
        i = i + 1;
    }
    None
}

/// The value under all its tags.
pub fn untag_ref(v: &YamlValue) -> (r: &YamlValue)
    ensures
        r@ == untag(v@),
        !(r@ is Tagged),
    decreases v,
{
    match v {
        YamlValue::Tagged(_, inner) => untag_ref(inner),
        _ => v,
    }
}

/// Lookup of a string key in the pairs of a mapping.
pub fn entries_get<'a>(e: &'a Vec<(YamlValue, YamlValue)>, key: &str) -> (r: Option<&'a YamlValue>)
    ensures
        match r {
            Some(x) => assoc_get(pairs_view(e@), ykey(key@)) == Some(x@),
            None => assoc_get(pairs_view(e@), ykey(key@)) is None,
        },
{
    match find_ykey(e, key) {
        Some(i) => {
            proof {
                lemma_assoc_get_at(pairs_view(e@), ykey(key@), i as int);
            }
            Some(&e[i].1)
        },
        None => {
            proof {
                lemma_assoc_get_none(pairs_view(e@), ykey(key@));
            }
            None
        },
    }
}

/// Set a string key in the pairs of a mapping.
pub fn entries_set(e: &mut Vec<(YamlValue, YamlValue)>, key: &str, v: YamlValue)
    ensures
        pairs_view(final(e)@) == assoc_set(pairs_view(old(e)@), ykey(key@), v@),
{
    let ghost vv = v@;
    let k = YamlValue::String(key.to_owned());
    assert(k@ == ykey(key@));
    match find_ykey(e, key) {
        Some(i) => {
            proof {
                lemma_assoc_set_at(pairs_view(e@), ykey(key@), vv, i as int);
            }
            e.set(i, (k, v));
            assert(pairs_view(e@) =~= pairs_view(old(e)@).update(i as int, (ykey(key@), vv)));
        },
        None => {
            proof {
                lemma_assoc_set_absent(pairs_view(e@), ykey(key@), vv);
            }
            e.push((k, v));
            assert(pairs_view(e@) =~= pairs_view(old(e)@).push((ykey(key@), vv)));
        },
    }
}

impl YamlValue {
    /// `Value::get` with a string key.
    pub fn get(&self, key: &str) -> (r: Option<&YamlValue>)
        ensures
            match r {
                Some(x) => yget(self@, key@) == Some(x@),
                None => yget(self@, key@) is None,
            },
    {
        match untag_ref(self) {
            YamlValue::Mapping(e) => {
                proof {
                    lemma_mapping_view(*e);
                }
                entries_get(e, key)
            },
            _ => None,
        }
    }

    /// The string of a string value under its tags, and nothing for any other.
    pub fn as_str(&self) -> (r: Option<&str>)
        ensures
            match r {
                Some(s) => ystr(Some(self@)) == Some(s@),
                None => ystr(Some(self@)) is None,
            },
    {
        match untag_ref(self) {
            YamlValue::String(s) => Some(s.as_str()),
            _ => None,
        }
    }

    /// The pairs of a mapping under its tags, and nothing for any other value.
    pub fn as_mapping(&self) -> (r: Option<&Vec<(YamlValue, YamlValue)>>)
        ensures
            match r {
                Some(e) => ymapping(Some(self@)) == Some(pairs_view(e@)),
                None => ymapping(Some(self@)) is None,
            },
    {
        match untag_ref(self) {
            YamlValue::Mapping(e) => {
                proof {
                    lemma_mapping_view(*e);
                }
                Some(e)
            },
            _ => None,
        }
    }

    /// Whether the value is a mapping under its tags.
    pub fn is_mapping(&self) -> (r: bool)
        ensures
            r == (untag(self@) is Mapping),
    {
        match untag_ref(self) {
            YamlValue::Mapping(_) => true,
            _ => false,
        }
    }

    /// A copy of the value.
    pub fn copy(&self) -> (r: YamlValue)
        ensures
            r@ == self@,
        decreases self,
    {
        match self {
            YamlValue::Null => YamlValue::Null,
            YamlValue::Bool(b) => YamlValue::Bool(*b),
            YamlValue::Number(YamlNumber::PosInt(n)) => YamlValue::Number(YamlNumber::PosInt(*n)),
            YamlValue::Number(YamlNumber::NegInt(n)) => YamlValue::Number(YamlNumber::NegInt(*n)),
            YamlValue::Number(YamlNumber::Float(t)) => YamlValue::Number(YamlNumber::Float(t.clone())),
            YamlValue::String(s) => YamlValue::String(s.clone()),
            YamlValue::Sequence(items) => {
                let mut out: Vec<YamlValue> = Vec::new();
                let mut i: usize = 0;
                while i < items.len()
                    invariant
                        *self == YamlValue::Sequence(*items),
                        i <= items@.len(),
                        out@.len() == i,
                        forall|j: int| 0 <= j < i ==> #[trigger] out@[j]@ == items@[j]@,
                    decreases items@.len() - i,
                {
                    proof {
                        let ghost v = *self;
                        assert(decreases_to!(v => v->Sequence_0));
                        assert(decreases_to!(v->Sequence_0 => v->Sequence_0@));
                        assert(decreases_to!(v => v->Sequence_0@[i as int]));
                    }
                    let c = items[i].copy();
                    out.push(c);
                    i = i + 1;
                }
                proof {
                    lemma_sequence_view(*items);
                    lemma_sequence_view(out);
                    assert(yitems_view(out@) =~= yitems_view(items@));
                }
                YamlValue::Sequence(out)
            },
            YamlValue::Mapping(entries) => {
                let out = copy_pairs(entries);
                proof {
                    lemma_mapping_view(*entries);
                    lemma_mapping_view(out);
                }
                YamlValue::Mapping(out)
            },
            YamlValue::Tagged(t, inner) => {
                let c = inner.copy();
                YamlValue::Tagged(t.copy(), Box::new(c))
            },
        }
    }
}

/// The empty mapping.
pub fn empty_mapping() -> (r: YamlValue)
    ensures
        r@ == YamlV::Mapping(Seq::empty()),
{
    let e: Vec<(YamlValue, YamlValue)> = Vec::new();
    proof {
        lemma_mapping_view(e);
        assert(pairs_view(e@) =~= Seq::empty());
    }
    YamlValue::Mapping(e)
}

/// A copy of the pairs of a mapping.
pub fn copy_pairs(entries: &Vec<(YamlValue, YamlValue)>) -> (r: Vec<(YamlValue, YamlValue)>)
    ensures
        pairs_view(r@) == pairs_view(entries@),
    decreases entries,
{
    let mut out: Vec<(YamlValue, YamlValue)> = Vec::new();
    let mut i: usize = 0;
    while i < entries.len()
        invariant
            i <= entries@.len(),
            out@.len() == i,
            forall|j: int|
                0 <= j < i ==> #[trigger] out@[j].0@ == entries@[j].0@ && out@[j].1@ == entries@[
                    j
                ].1@,
        decreases entries@.len() - i,
    {
        let k = entries[i].0.copy();
        let v = entries[i].1.copy();
        out.push((k, v));
        i = i + 1;
    }
    assert(pairs_view(out@) =~= pairs_view(entries@));
    out
}

/// `v` with the mapping under its tags replaced by a mapping of `e`.
pub fn replace_untagged(v: YamlValue, e: Vec<(YamlValue, YamlValue)>) -> (r: YamlValue)
    ensures
        r@ == set_untagged(v@, pairs_view(e@)),
    decreases v,
{
    match v {
        YamlValue::Tagged(t, inner) => {
            let r = replace_untagged(*inner, e);
            YamlValue::Tagged(t, Box::new(r))
        },
        _ => {
            proof {
                lemma_mapping_view(e);
            }
            YamlValue::Mapping(e)
        },
    }
}

/// A copy of the pairs of the mapping under `key` in `parent`, or no pairs.
pub fn copy_child_entries(parent: &Vec<(YamlValue, YamlValue)>, key: &str) -> (r: Vec<(YamlValue, YamlValue)>)
    ensures
        pairs_view(r@) == child_entries(pairs_view(parent@), key@),
{
    match entries_get(parent, key) {
        Some(v) => match v.as_mapping() {
            Some(e) => copy_pairs(e),
            None => {
                let r: Vec<(YamlValue, YamlValue)> = Vec::new();
                assert(pairs_view(r@) =~= Seq::empty());
                r
            },
        },
        None => {
            let r: Vec<(YamlValue, YamlValue)> = Vec::new();
            assert(pairs_view(r@) =~= Seq::empty());
            r
        },
    }
}

/// The key is absent from `parent` or holds a mapping.
pub fn child_slot_is_mapping(parent: &Vec<(YamlValue, YamlValue)>, key: &str) -> (r: bool)
    ensures
        r == child_slot_ok(pairs_view(parent@), key@),
{
    match entries_get(parent, key) {
        Some(v) => v.is_mapping(),
        None => true,
    }
}

/// Replace the mapping under `key` in `parent` by a mapping of `e`.
pub fn put_child_entries(parent: &mut Vec<(YamlValue, YamlValue)>, key: &str, e: Vec<(YamlValue, YamlValue)>)
    ensures
        pairs_view(final(parent)@) == put_child(pairs_view(old(parent)@), key@, pairs_view(e@)),
{
    let current = match entries_get(parent, key) {
        Some(v) => Some(v.copy()),
        None => None,
    };
    match current {
        Some(v) => {
            let nv = replace_untagged(v, e);
            entries_set(parent, key, nv);
        },
        None => {
            proof {
                lemma_mapping_view(e);
            }
            entries_set(parent, key, YamlValue::Mapping(e));
        },
    }
}

} // verus!
