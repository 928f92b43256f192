//! What the session providers share: the text of a message's content, its
//! timestamp, and the summary of a title.
use vstd::prelude::*;
use crate::json::{json_get, json_i64, json_str, JsonV, JsonValue};
use crate::text::{concat, is_blank, str_is_blank, str_trim, trimmed};

verus! {

/// The most characters of a title or summary before it is cut.
pub const TITLE_MAX_CHARS: usize = 80;

/// A text trimmed and, past `max` characters, cut to them and marked with an
/// ellipsis.
pub open spec fn truncated(s: Seq<char>, max: nat) -> Seq<char> {
    let t = trimmed(s);
    if t.len() <= max {
        t
    } else {
        t.take(max as int) + "..."@
    }
}

/// A title or summary fit for a list: the text trimmed, and past
/// `max_chars` characters cut to them and marked with `...`.
pub fn truncate_summary(text: &str, max_chars: usize) -> (r: String)
    ensures
        r@ == truncated(text@, max_chars as nat),
{
    let t = str_trim(text);
    let n = t.unicode_len();
    if n <= max_chars {
        t.to_owned()
    } else {
        let head = t.substring_char(0, max_chars);
        assert(head@ =~= t@.take(max_chars as int));
        concat(head, "...")
    }
}

/// The text of one part of a content array: the part itself where it is a
/// string, else its `text` string, else its `content` string.
pub open spec fn part_text(x: JsonV) -> Option<Seq<char>> {
    match x {
        JsonV::Str(s) => Some(s),
        _ => match json_str(json_get(x, "text"@)) {
            Some(t) => Some(t),
            None => json_str(json_get(x, "content"@)),
        },
    }
}

/// The texts of the parts that have one that is not blank, in order.
pub open spec fn part_texts(items: Seq<JsonV>) -> Seq<Seq<char>>
    decreases items.len(),
{
    if items.len() == 0 {
        Seq::empty()
    } else {
        let rest = part_texts(items.drop_last());
        match part_text(items.last()) {
            Some(t) => if is_blank(t) {
                rest
            } else {
                rest.push(t)
            },
            None => rest,
        }
    }
}

/// Texts joined by newlines.
pub open spec fn join_lines(parts: Seq<Seq<char>>) -> Seq<char>
    decreases parts.len(),
{
    if parts.len() == 0 {
        Seq::empty()
    } else if parts.len() == 1 {
        parts[0]
    } else {
        join_lines(parts.drop_last()) + "\n"@ + parts.last()
    }
}

/// The text of a message's content: a string as it is; the texts of an
/// array's parts joined by newlines; the `text` string of an object; nothing
/// otherwise.
pub open spec fn content_text(v: JsonV) -> Seq<char> {
    match v {
        JsonV::Str(s) => s,
        JsonV::Arr(items) => join_lines(part_texts(items)),
        JsonV::Obj(_) => match json_str(json_get(v, "text"@)) {
            Some(t) => t,
            None => Seq::empty(),
        },
        _ => Seq::empty(),
    }
}

fn part_text_of(x: &JsonValue) -> (r: Option<&str>)
    ensures
        match r {
            Some(s) => part_text(x@) == Some(s@),
            None => part_text(x@) is None,
        },
{
    match x {
        JsonValue::String(s) => Some(s.as_str()),
        _ => {
            let t = match x.get("text") {
                Some(v) => v.as_str(),
                None => None,
            };
            match t {
                Some(s) => Some(s),
                None => match x.get("content") {
                    Some(v) => v.as_str(),
                    None => None,
                },
            }
        },
    }
}

/// `extract_text`: the text of a message's content.
pub fn extract_text(content: &JsonValue) -> (r: String)
    ensures
        r@ == content_text(content@),
{
    match content {
        JsonValue::String(s) => s.clone(),
        JsonValue::Array(items) => {
            let ghost iv = crate::json::items_view(items@);
            proof {
                crate::json::lemma_array_view(*items);
            }
            let mut out = String::new();
            let mut count: usize = 0;
            let mut i: usize = 0;
            assert(iv.take(0) =~= Seq::<JsonV>::empty());
            while i < items.len()
                invariant
                    i <= items@.len(),
                    iv == crate::json::items_view(items@),
                    count == part_texts(iv.take(i as int)).len(),
                    out@ == join_lines(part_texts(iv.take(i as int))),
                    count <= i,
                decreases items@.len() - i,
            {
                assert(iv.take(i + 1).drop_last() =~= iv.take(i as int));
                assert(iv.take(i + 1).last() == items@[i as int]@);
                match part_text_of(&items[i]) {
                    Some(t) => {
                        if !str_is_blank(t) {
                            let ghost before = part_texts(iv.take(i as int));
                            if count > 0 {
                                out.append("\n");
                            }
                            out.append(t);
                            count = count + 1;
                            proof {
                                let now = before.push(t@);
                                assert(now.drop_last() =~= before);
                                if before.len() == 0 {
                                    assert(out@ =~= join_lines(now));
                                }
                            }
                        }
                    },
                    None => {},
                }
                i = i + 1;
            }
            assert(iv.take(items@.len() as int) =~= iv);
            out
        },
        JsonValue::Object(_) => match content.get("text") {
            Some(v) => match v.as_str() {
                Some(s) => s.to_owned(),
                None => String::new(),
            },
            None => String::new(),
        },
        _ => String::new(),
    }
}

/// The time of a message in milliseconds: an integer value.
pub open spec fn timestamp_ms(v: JsonV) -> Option<i64> {
    json_i64(Some(v))
}

/// The time of a message in milliseconds, where its value is an integer that
/// fits `i64`.
pub fn parse_timestamp_to_ms(value: &JsonValue) -> (r: Option<i64>)
    ensures
        r == timestamp_ms(value@),
{
    value.as_i64()
}

/// The value under the first of two keys that is present.
pub open spec fn first2(v: JsonV, a: Seq<char>, b: Seq<char>) -> Option<JsonV> {
    match json_get(v, a) {
        Some(x) => Some(x),
        None => json_get(v, b),
    }
}

/// The value under the first of three keys that is present.
pub open spec fn first3(v: JsonV, a: Seq<char>, b: Seq<char>, c: Seq<char>) -> Option<JsonV> {
    match json_get(v, a) {
        Some(x) => Some(x),
        None => first2(v, b, c),
    }
}

/// The value under the first of four keys that is present.
pub open spec fn first4(v: JsonV, a: Seq<char>, b: Seq<char>, c: Seq<char>, d: Seq<char>) -> Option<
    JsonV,
> {
    match json_get(v, a) {
        Some(x) => Some(x),
        None => first3(v, b, c, d),
    }
}

/// `v.get(a).or_else(|| v.get(b))`.
pub fn get_first2<'a>(v: &'a JsonValue, a: &str, b: &str) -> (r: Option<&'a JsonValue>)
    ensures
        match r {
            Some(x) => first2(v@, a@, b@) == Some(x@),
            None => first2(v@, a@, b@) is None,
        },
{
    match v.get(a) {
        Some(x) => Some(x),
        None => v.get(b),
    }
}

/// The first of three keys that is present.
pub fn get_first3<'a>(v: &'a JsonValue, a: &str, b: &str, c: &str) -> (r: Option<&'a JsonValue>)
    ensures
        match r {
            Some(x) => first3(v@, a@, b@, c@) == Some(x@),
            None => first3(v@, a@, b@, c@) is None,
        },
{
    match v.get(a) {
        Some(x) => Some(x),
        None => get_first2(v, b, c),
    }
}

/// The first of four keys that is present.
pub fn get_first4<'a>(v: &'a JsonValue, a: &str, b: &str, c: &str, d: &str) -> (r: Option<
    &'a JsonValue,
>)
    ensures
        match r {
            Some(x) => first4(v@, a@, b@, c@, d@) == Some(x@),
            None => first4(v@, a@, b@, c@, d@) is None,
        },
{
    match v.get(a) {
        Some(x) => Some(x),
        None => get_first3(v, b, c, d),
    }
}

/// The text of an optional content value, empty where there is none.
pub open spec fn content_or_empty(c: Option<JsonV>) -> Seq<char> {
    match c {
        Some(x) => content_text(x),
        None => Seq::empty(),
    }
}

/// The time of an optional value.
pub open spec fn timestamp_or_none(t: Option<JsonV>) -> Option<i64> {
    match t {
        Some(x) => timestamp_ms(x),
        None => None,
    }
}

} // verus!
