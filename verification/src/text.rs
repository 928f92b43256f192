//! Character-level facts about strings and the few `str` methods of std that
//! the library relies on, each stated as its documentation describes it.
use vstd::prelude::*;

verus! {

/// The Unicode `White_Space` property, which `char::is_whitespace` and
/// `str::trim` use.
pub open spec fn is_white_space(c: char) -> bool {
    let u = c as u32;
    ||| 0x9 <= u <= 0xD
    ||| u == 0x20
    ||| u == 0x85
    ||| u == 0xA0
    ||| u == 0x1680
    ||| 0x2000 <= u <= 0x200A
    ||| u == 0x2028
    ||| u == 0x2029
    ||| u == 0x202F
    ||| u == 0x205F
    ||| u == 0x3000
}

pub open spec fn trim_start_seq(s: Seq<char>) -> Seq<char>
    decreases s.len(),
{
    if s.len() > 0 && is_white_space(s[0]) {
        trim_start_seq(s.drop_first())
    } else {
        s
    }
}

pub open spec fn trim_end_seq(s: Seq<char>) -> Seq<char>
    decreases s.len(),
{
    if s.len() > 0 && is_white_space(s.last()) {
        trim_end_seq(s.drop_last())
    } else {
        s
    }
}

/// `s` without leading and trailing whitespace.
pub open spec fn trimmed(s: Seq<char>) -> Seq<char> {
    trim_end_seq(trim_start_seq(s))
}

/// A string that holds nothing but whitespace.
pub open spec fn is_blank(s: Seq<char>) -> bool {
    trimmed(s).len() == 0
}

pub proof fn lemma_trim_end_keeps_start(s: Seq<char>)
    requires
        s.len() > 0 ==> !is_white_space(s[0]),
    ensures
        trim_end_seq(s).len() > 0 ==> !is_white_space(trim_end_seq(s)[0]),
        trim_end_seq(s).len() > 0 ==> !is_white_space(trim_end_seq(s).last()),
        trim_end_seq(s).len() <= s.len(),
        forall|i: int| 0 <= i < trim_end_seq(s).len() ==> trim_end_seq(s)[i] == s[i],
    decreases s.len(),
{
    if s.len() > 0 && is_white_space(s.last()) {
        let t = s.drop_last();
        lemma_trim_end_keeps_start(t);
        assert forall|i: int| 0 <= i < trim_end_seq(s).len() implies trim_end_seq(s)[i] == s[i] by {
            assert(trim_end_seq(t)[i] == t[i]);
        }
    }
}

pub proof fn lemma_trim_start_first(s: Seq<char>)
    ensures
        trim_start_seq(s).len() > 0 ==> !is_white_space(trim_start_seq(s)[0]),
    decreases s.len(),
{
    if s.len() > 0 && is_white_space(s[0]) {
        lemma_trim_start_first(s.drop_first());
    }
}

/// A trimmed string has no whitespace at either end.
pub proof fn lemma_trimmed_ends(s: Seq<char>)
    ensures
        trimmed(s).len() > 0 ==> !is_white_space(trimmed(s)[0]),
        trimmed(s).len() > 0 ==> !is_white_space(trimmed(s).last()),
{
    lemma_trim_start_first(s);
    lemma_trim_end_keeps_start(trim_start_seq(s));
}

/// Trimming twice is trimming once.
pub proof fn lemma_trimmed_idempotent(s: Seq<char>)
    ensures
        trimmed(trimmed(s)) == trimmed(s),
{
    let t = trimmed(s);
    lemma_trimmed_ends(s);
    if t.len() > 0 {
        assert(trim_start_seq(t) == t);
        assert(trim_end_seq(t) == t);
    } else {
        assert(trim_start_seq(t) == t);
        assert(trim_end_seq(t) == t);
    }
}

/// `str::trim`: the documentation says it returns the string with leading and
/// trailing whitespace removed, whitespace being the Unicode `White_Space`
/// property. Claimed: the result is `trimmed` of the argument.
#[verifier::external_body]
pub(crate) fn str_trim(s: &str) -> (r: &str)
    ensures
        r@ == trimmed(s@),
{
    s.trim()
}

/// Whether `p` occurs in `s` at position `at`.
fn matches_at(s: &str, at: usize, p: &str) -> (r: bool)
    requires
        at + p@.len() <= s@.len(),
    ensures
        r == (s@.subrange(at as int, at + p@.len()) == p@),
{
    let n = p.unicode_len();
    let ls = s.unicode_len();
    let mut i: usize = 0;
    while i < n
        invariant
            n == p@.len(),
            ls == s@.len(),
            i <= n,
            at + n <= s@.len(),
            forall|j: int| 0 <= j < i ==> s@[at + j] == p@[j],
        decreases n - i,
    {
        if s.get_char(at + i) != p.get_char(i) {
            assert(s@.subrange(at as int, at + n)[i as int] != p@[i as int]);
            return false;
        }
        i = i + 1;
    }
    assert(s@.subrange(at as int, at + n) =~= p@);
    true
}

/// Whether two strings hold the same characters.
pub fn str_eq(a: &str, b: &str) -> (r: bool)
    ensures
        r == (a@ == b@),
{
    if a.unicode_len() != b.unicode_len() {
        return false;
    }
    let r = matches_at(a, 0, b);
    assert(a@.subrange(0, b@.len() as int) =~= a@);
    r
}

/// The string of the characters of `s` (a copy).
pub fn owned(s: &str) -> (r: String)
    ensures
        r@ == s@,
{
    s.to_owned()
}

/// `s` followed by `t`, in a new string.
pub fn concat(s: &str, t: &str) -> (r: String)
    ensures
        r@ == s@ + t@,
{
    let mut r = s.to_owned();
    r.append(t);
    r
}

/// `s` holds nothing but whitespace.
pub fn str_is_blank(s: &str) -> (r: bool)
    ensures
        r == is_blank(s@),
{
    str_trim(s).is_empty()
}

pub open spec fn ascii_lower_char(c: char) -> char {
    if 'A' <= c && c <= 'Z' {
        ((c as u32) + 32) as char
    } else {
        c
    }
}

pub open spec fn ascii_lowercase(s: Seq<char>) -> Seq<char> {
    s.map_values(|c: char| ascii_lower_char(c))
}

/// `s` with `A`..=`Z` mapped to `a`..=`z` and every other character kept, as
/// `str::to_ascii_lowercase` does.
pub fn str_to_ascii_lowercase(s: &str) -> (r: String)
    ensures
        r@ == ascii_lowercase(s@),
{
    let n = s.unicode_len();
    let mut out: Vec<char> = Vec::new();
    let mut i: usize = 0;
    while i < n
        invariant
            n == s@.len(),
            i <= n,
            out@ == ascii_lowercase(s@).take(i as int),
        decreases n - i,
    {
        let c = s.get_char(i);
        let l = if 'A' <= c && c <= 'Z' {
            let lower = ((c as u8) + 32) as char;
            assert(lower == ((c as u32) + 32) as char);
            lower
        } else {
            c
        };
        out.push(l);
        i = i + 1;
        assert(out@ =~= ascii_lowercase(s@).take(i as int));
    }
    assert(ascii_lowercase(s@).take(n as int) =~= ascii_lowercase(s@));
    crate::paths::string_of(out.as_slice())
}

pub open spec fn seq_starts_with(s: Seq<char>, p: Seq<char>) -> bool {
    p.len() <= s.len() && s.subrange(0, p.len() as int) == p
}

pub open spec fn seq_ends_with(s: Seq<char>, p: Seq<char>) -> bool {
    p.len() <= s.len() && s.subrange(s.len() - p.len(), s.len() as int) == p
}

pub open spec fn seq_contains(s: Seq<char>, p: Seq<char>) -> bool {
    exists|i: int| 0 <= i <= s.len() - p.len() && #[trigger] s.subrange(i, i + p.len()) == p
}

/// Whether `p` is a prefix of `s`.
pub fn str_starts_with(s: &str, p: &str) -> (r: bool)
    ensures
        r == seq_starts_with(s@, p@),
{
    p.unicode_len() <= s.unicode_len() && matches_at(s, 0, p)
}

/// Whether `p` is a suffix of `s`.
pub fn str_ends_with(s: &str, p: &str) -> (r: bool)
    ensures
        r == seq_ends_with(s@, p@),
{
    let ls = s.unicode_len();
    let lp = p.unicode_len();
    lp <= ls && matches_at(s, ls - lp, p)
}

/// Whether `p` occurs as a contiguous part of `s`.
pub fn str_contains(s: &str, p: &str) -> (r: bool)
    ensures
        r == seq_contains(s@, p@),
{
    let ls = s.unicode_len();
    let lp = p.unicode_len();
    if lp > ls {
        return false;
    }
    let mut i: usize = 0;
    loop
        invariant
            ls == s@.len(),
            lp == p@.len(),
            lp <= ls,
            i <= ls - lp,
            forall|j: int| 0 <= j < i ==> #[trigger] s@.subrange(j, j + lp) != p@,
        ensures
            forall|j: int| 0 <= j <= ls - lp ==> #[trigger] s@.subrange(j, j + lp) != p@,
        decreases ls - lp - i,
    {
        if matches_at(s, i, p) {
            return true;
        }
        if i == ls - lp {
            break;
        }
        i = i + 1;
    }
    false
}

/// `s` with the suffix `p` removed as many times as it occurs at the end.
pub open spec fn trim_end_pattern(s: Seq<char>, p: Seq<char>) -> Seq<char>
    decreases s.len(),
{
    if p.len() > 0 && seq_ends_with(s, p) {
        trim_end_pattern(s.subrange(0, s.len() - p.len()), p)
    } else {
        s
    }
}

/// `s` with the suffix `p` removed as long as it ends with it, as
/// `str::trim_end_matches` does with a non-empty string pattern.
pub fn str_trim_end_matches<'a>(s: &'a str, p: &str) -> (r: &'a str)
    requires
        p@.len() > 0,
    ensures
        r@ == trim_end_pattern(s@, p@),
{
    let lp = p.unicode_len();
    let mut n = s.unicode_len();
    assert(s@.take(n as int) =~= s@);
    loop
        invariant
            lp == p@.len(),
            lp > 0,
            n <= s@.len(),
            trim_end_pattern(s@.take(n as int), p@) == trim_end_pattern(s@, p@),
        ensures
            n <= s@.len(),
            trim_end_pattern(s@.take(n as int), p@) == s@.take(n as int),
            trim_end_pattern(s@.take(n as int), p@) == trim_end_pattern(s@, p@),
        decreases n,
    {
        let cur = Ghost(s@.take(n as int));
        if n < lp || !matches_at(s, n - lp, p) {
            assert(!seq_ends_with(cur@, p@)) by {
                if n >= lp {
                    assert(cur@.subrange(n - lp, n as int) =~= s@.subrange(n - lp, n as int));
                }
            }
            break;
        }
        assert(cur@.subrange(n - lp, n as int) =~= s@.subrange(n - lp, n as int));
        assert(cur@.subrange(0, n - lp) =~= s@.take(n - lp));
        n = n - lp;
    }
    let r = s.substring_char(0, n);
    assert(r@ =~= s@.take(n as int));
    r
}

/// The pieces of `s` between `'\n'` characters; there is always one more
/// piece than there are newlines.
pub open spec fn split_newlines(s: Seq<char>) -> Seq<Seq<char>>
    decreases s.len(),
{
    if s.len() == 0 {
        seq![Seq::<char>::empty()]
    } else {
        let rest = split_newlines(s.drop_last());
        if s.last() == '\n' {
            rest.push(Seq::<char>::empty())
        } else {
            rest.update(rest.len() - 1, rest.last().push(s.last()))
        }
    }
}

pub proof fn lemma_split_newlines_nonempty(s: Seq<char>)
    ensures
        split_newlines(s).len() >= 1,
    decreases s.len(),
{
    if s.len() > 0 {
        lemma_split_newlines_nonempty(s.drop_last());
    }
}

pub open spec fn strip_cr(l: Seq<char>) -> Seq<char> {
    if l.len() > 0 && l.last() == '\r' {
        l.drop_last()
    } else {
        l
    }
}

/// The lines of `s` as `str::lines` yields them.
pub open spec fn lines_of(s: Seq<char>) -> Seq<Seq<char>> {
    let p = split_newlines(s);
    let ended = p.drop_last().map_values(|l: Seq<char>| strip_cr(l));
    if p.last().len() == 0 {
        ended
    } else {
        ended.push(p.last())
    }
}

/// `str::lines`: the documentation says lines end with `\n` or `\r\n`, the
/// line ending is not part of the line, the final line ending is optional and
/// a string that ends with one has no empty last line. Claimed: the lines are
/// `lines_of` the string.
#[verifier::external_body]
pub(crate) fn str_lines(s: &str) -> (r: Vec<String>)
    ensures
        r@.len() == lines_of(s@).len(),
        forall|i: int| 0 <= i < r@.len() ==> #[trigger] r@[i]@ == lines_of(s@)[i],
{
    s.lines().map(String::from).collect()
}

} // verus!
