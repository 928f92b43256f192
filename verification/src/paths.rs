//! Paths, held as strings with `/` separators, and the few operations of
//! `std::path` that the library uses on them.
use vstd::prelude::*;
use crate::text::{str_trim, trimmed};

verus! {

/// `base.join(name)` for a path `name`: an absolute `name` replaces `base`;
/// otherwise `name` follows `base`, with a separator unless `base` is empty or
/// already ends with one.
pub open spec fn joined(base: Seq<char>, name: Seq<char>) -> Seq<char> {
    if name.len() > 0 && name[0] == '/' {
        name
    } else if base.len() == 0 {
        name
    } else if base.last() == '/' {
        base + name
    } else {
        base + seq!['/'] + name
    }
}

/// `Path::join` on paths held as strings, as `joined` says.
pub fn join_path(base: &str, name: &str) -> (r: String)
    ensures
        r@ == joined(base@, name@),
{
    let nlen = name.unicode_len();
    if nlen > 0 && name.get_char(0) == '/' {
        return name.to_owned();
    }
    let blen = base.unicode_len();
    let mut r = base.to_owned();
    if blen == 0 {
        return name.to_owned();
    }
    if base.get_char(blen - 1) != '/' {
        r.append("/");
        proof {
            reveal_strlit("/");
        }
    }
    r.append(name);
    r
}

/// Where a tool keeps its files: the directory that the user configured, else
/// the value of its environment variable when that is not blank (trimmed),
/// else `default_name` under the home directory.
pub open spec fn tool_dir(
    configured: Option<Seq<char>>,
    env_value: Option<Seq<char>>,
    home: Seq<char>,
    default_name: Seq<char>,
) -> Seq<char> {
    match configured {
        Some(c) => c,
        None => match env_value {
            Some(v) if trimmed(v).len() > 0 => trimmed(v),
            _ => joined(home, default_name),
        },
    }
}

/// The directory of a tool, chosen as `tool_dir` says.
pub fn resolve_tool_dir(
    configured: Option<String>,
    env_value: Option<String>,
    home: &str,
    default_name: &str,
) -> (r: String)
    ensures
        r@ == tool_dir(
            match configured {
                Some(c) => Some(c@),
                None => None,
            },
            match env_value {
                Some(v) => Some(v@),
                None => None,
            },
            home@,
            default_name@,
        ),
{
    if let Some(c) = configured {
        return c;
    }
    if let Some(v) = env_value {
        let t = str_trim(v.as_str());
        if !t.is_empty() {
            return t.to_owned();
        }
    }
    join_path(home, default_name)
}

/// Index of the last occurrence of `c` in `s`, or -1.
pub open spec fn last_index(s: Seq<char>, c: char) -> int
    decreases s.len(),
{
    if s.len() == 0 {
        -1
    } else if s.last() == c {
        s.len() - 1
    } else {
        last_index(s.drop_last(), c)
    }
}

pub proof fn lemma_last_index(s: Seq<char>, c: char)
    ensures
        -1 <= last_index(s, c) < s.len(),
        last_index(s, c) >= 0 ==> s[last_index(s, c)] == c,
        forall|j: int| last_index(s, c) < j < s.len() ==> s[j] != c,
    decreases s.len(),
{
    if s.len() > 0 && s.last() != c {
        lemma_last_index(s.drop_last(), c);
        assert forall|j: int| last_index(s, c) < j < s.len() implies s[j] != c by {
            if j < s.len() - 1 {
                assert(s[j] == s.drop_last()[j]);
            }
        }
    }
}

/// `Path::file_name` of a path, as a string: its final component where that
/// is a name.
pub uninterp spec fn path_file_name(p: Seq<char>) -> Option<Seq<char>>;

/// `Path::parent` of a path, as a string: the path without its final
/// component; nothing where it ends in a root or is empty.
pub uninterp spec fn path_parent(p: Seq<char>) -> Option<Seq<char>>;

/// `Path::file_stem` of a file name: the name before its last `.`, or the
/// whole name where there is no `.` but at its start, and for `..`.
pub open spec fn name_stem(name: Seq<char>) -> Seq<char> {
    let i = last_index(name, '.');
    if name == seq!['.', '.'] || i <= 0 {
        name
    } else {
        name.subrange(0, i)
    }
}

/// The characters of a string.
pub fn chars_of(s: &str) -> (r: Vec<char>)
    ensures
        r@ == s@,
{
    let n = s.unicode_len();
    let mut out: Vec<char> = Vec::new();
    let mut i: usize = 0;
    while i < n
        invariant
            n == s@.len(),
            i <= n,
            out@ == s@.take(i as int),
        decreases n - i,
    {
        out.push(s.get_char(i));
        i = i + 1;
        assert(out@ =~= s@.take(i as int));
    }
    assert(s@.take(n as int) =~= s@);
    out
}

/// The string of some characters.
pub fn string_of(c: &[char]) -> (r: String)
    ensures
        r@ == c@,
{
    let mut out = String::new();
    let mut i: usize = 0;
    while i < c.len()
        invariant
            i <= c@.len(),
            out@ == c@.take(i as int),
        decreases c@.len() - i,
    {
        let one = char_string(c[i]);
        out.append(one.as_str());
        i = i + 1;
        assert(out@ =~= c@.take(i as int));
    }
    assert(c@.take(c@.len() as int) =~= c@);
    out
}

/// `char::to_string`: the string of the one character.
#[verifier::external_body]
pub(crate) fn char_string(c: char) -> (r: String)
    ensures
        r@ == seq![c],
{
    c.to_string()
}

fn last_index_in(s: &Vec<char>, c: char) -> (r: Option<usize>)
    ensures
        match r {
            Some(i) => i as int == last_index(s@, c) && i < s@.len(),
            None => last_index(s@, c) == -1,
        },
{
    proof {
        lemma_last_index(s@, c);
    }
    let mut i: usize = s.len();
    assert(s@.take(i as int) =~= s@);
    while i > 0
        invariant
            i <= s@.len(),
            last_index(s@, c) == last_index(s@.take(i as int), c),
        decreases i,
    {
        assert(s@.take(i as int).drop_last() =~= s@.take(i - 1));
        if s[i - 1] == c {
            return Some(i - 1);
        }
        i = i - 1;
    }
    None
}


/// `Path::file_name`, on a path held as a string. Claimed: the result is a
/// function of the path alone (`path_file_name`); the documentation says it
/// is the final component, a name, so it is never empty.
#[verifier::external_body]
pub(crate) fn file_name(p: &str) -> (r: Option<String>)
    ensures
        match r {
            Some(n) => path_file_name(p@) == Some(n@) && n@.len() > 0,
            None => path_file_name(p@) is None,
        },
{
    let name = std::path::Path::new(p).file_name()?;
    Some(name.to_str()?.to_owned())
}

/// The first `n` characters.
pub fn slice_to(v: &Vec<char>, n: usize) -> (r: Vec<char>)
    requires
        n <= v@.len(),
    ensures
        r@ == v@.take(n as int),
{
    slice_range(v, 0, n)
}

/// The characters from `a` up to `b`.
pub fn slice_range(v: &Vec<char>, a: usize, b: usize) -> (r: Vec<char>)
    requires
        a <= b <= v@.len(),
    ensures
        r@ == v@.subrange(a as int, b as int),
{
    let mut out: Vec<char> = Vec::new();
    let mut i: usize = a;
    while i < b
        invariant
            a <= i <= b,
            b <= v@.len(),
            out@ == v@.subrange(a as int, i as int),
        decreases b - i,
    {
        out.push(v[i]);
        i = i + 1;
        assert(out@ =~= v@.subrange(a as int, i as int));
    }
    out
}

/// `Path::parent`, on a path held as a string. Claimed: the result is a
/// function of the path alone (`path_parent`).
#[verifier::external_body]
pub(crate) fn parent(p: &str) -> (r: Option<String>)
    ensures
        match r {
            Some(x) => path_parent(p@) == Some(x@),
            None => path_parent(p@) is None,
        },
{
    let up = std::path::Path::new(p).parent()?;
    Some(up.to_str()?.to_owned())
}

/// `Path::file_stem` of a file name.
pub fn file_stem_of(name: &str) -> (r: String)
    ensures
        r@ == name_stem(name@),
{
    let v = chars_of(name);
    if v.len() == 2 && v[0] == '.' && v[1] == '.' {
        assert(v@ =~= seq!['.', '.']);
        return name.to_owned();
    }
    assert(v@ != seq!['.', '.']) by {
        if v.len() == 2 {
            assert(v@[0] != '.' || v@[1] != '.');
        }
    }
    match last_index_in(&v, '.') {
        None => name.to_owned(),
        Some(0) => name.to_owned(),
        Some(i) => string_of(slice_to(&v, i).as_slice()),
    }
}

} // verus!
