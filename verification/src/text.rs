//! Character-level text helpers with specifications over `Seq<char>`.
//!
//! Strings are specified by their views (`Seq<char>`). The helpers here
//! implement, and state exactly, the few pieces of `str` behaviour that the
//! rest of the library relies on: Unicode whitespace trimming, ASCII case
//! folding, prefix and separator handling, substring replacement, decimal
//! rendering and parsing of integers.

use vstd::prelude::*;

verus! {

/// Appends one character to a string (`String::push`): the new string is the
/// old one with `c` at its end.
#[verifier::external_body]
pub(crate) fn push_char(s: &mut String, c: char)
    ensures
        final(s)@ == old(s)@.push(c),
{
    s.push(c);
}

/// The characters of `s`, in order.
pub fn chars_of(s: &str) -> (v: Vec<char>)
    ensures
        v@ == s@,
{
    let mut v: Vec<char> = Vec::new();
    for c in it: s.chars()
        invariant
            v@ == it.seq().take(it.index() as int),
            it.seq() == s@,
    {
        v.push(c);
    }
    v
}

/// The string made of the characters `cs[from..to]`.
pub fn string_from_range(cs: &Vec<char>, from: usize, to: usize) -> (s: String)
    requires
        from <= to <= cs.len(),
    ensures
        s@ == cs@.subrange(from as int, to as int),
{
    let mut s = String::new();
    let mut i = from;
    while i < to
        invariant
            from <= i <= to <= cs.len(),
            s@ == cs@.subrange(from as int, i as int),
        decreases to - i,
    {
        push_char(&mut s, cs[i]);
        i = i + 1;
    }
    s
}

/// The string made of all the characters of `cs`.
pub fn string_from_chars(cs: &Vec<char>) -> (s: String)
    ensures
        s@ == cs@,
{
    let s = string_from_range(cs, 0, cs.len());
    assert(cs@.subrange(0, cs@.len() as int) =~= cs@);
    s
}

/// A copy of `s`.
pub fn copy_str(s: &str) -> (r: String)
    ensures
        r@ == s@,
{
    s.to_owned()
}

/// `a` followed by `b`.
pub fn concat2(a: &str, b: &str) -> (r: String)
    ensures
        r@ == a@ + b@,
{
    let mut r = a.to_owned();
    r.append(b);
    r
}

/// `a`, `b` and `c` one after the other.
pub fn concat3(a: &str, b: &str, c: &str) -> (r: String)
    ensures
        r@ == a@ + b@ + c@,
{
    let mut r = a.to_owned();
    r.append(b);
    r.append(c);
    r
}

/// Whether two strings hold the same characters.
pub fn str_eq(a: &str, b: &str) -> (r: bool)
    ensures
        r == (a@ == b@),
{
    let x = chars_of(a);
    let y = chars_of(b);
    if x.len() != y.len() {
        return false;
    }
    let mut i: usize = 0;
    while i < x.len()
        invariant
            x@ == a@,
            y@ == b@,
            x.len() == y.len(),
            i <= x.len(),
            forall|k: int| 0 <= k < i ==> x@[k] == y@[k],
        decreases x.len() - i,
    {
        if x[i] != y[i] {
            return false;
        }
        i = i + 1;
    }
    assert(x@ =~= y@);
    true
}

// ---------------------------------------------------------------------------
// Character classes
// ---------------------------------------------------------------------------

/// Unicode `White_Space`, the class that `char::is_whitespace` and
/// `str::trim` use.
pub open spec fn is_white_space(c: char) -> bool {
    ||| ('\t' <= c && c <= '\r')
    ||| c == ' '
    ||| c == '\u{85}'
    ||| c == '\u{a0}'
    ||| c == '\u{1680}'
    ||| ('\u{2000}' <= c && c <= '\u{200a}')
    ||| c == '\u{2028}'
    ||| c == '\u{2029}'
    ||| c == '\u{202f}'
    ||| c == '\u{205f}'
    ||| c == '\u{3000}'
}

pub fn white_space(c: char) -> (b: bool)
    ensures
        b == is_white_space(c),
{
    ('\t' <= c && c <= '\r') || c == ' ' || c == '\u{85}' || c == '\u{a0}' || c == '\u{1680}'
        || ('\u{2000}' <= c && c <= '\u{200a}') || c == '\u{2028}' || c == '\u{2029}' || c
        == '\u{202f}' || c == '\u{205f}' || c == '\u{3000}'
}

pub open spec fn is_ascii_digit(c: char) -> bool {
    '0' <= c && c <= '9'
}

pub open spec fn is_ascii_alphanumeric(c: char) -> bool {
    ||| ('0' <= c && c <= '9')
    ||| ('a' <= c && c <= 'z')
    ||| ('A' <= c && c <= 'Z')
}

pub fn ascii_alphanumeric(c: char) -> (b: bool)
    ensures
        b == is_ascii_alphanumeric(c),
{
    ('0' <= c && c <= '9') || ('a' <= c && c <= 'z') || ('A' <= c && c <= 'Z')
}

pub open spec fn is_ascii_hexdigit(c: char) -> bool {
    ||| ('0' <= c && c <= '9')
    ||| ('a' <= c && c <= 'f')
    ||| ('A' <= c && c <= 'F')
}

pub fn ascii_hexdigit(c: char) -> (b: bool)
    ensures
        b == is_ascii_hexdigit(c),
{
    ('0' <= c && c <= '9') || ('a' <= c && c <= 'f') || ('A' <= c && c <= 'F')
}

/// `char::to_ascii_lowercase`: ASCII capitals become small letters, every
/// other character stays.
pub open spec fn lower_char(c: char) -> char {
    if 'A' <= c && c <= 'Z' {
        ((c as u32) + 32) as char
    } else {
        c
    }
}

pub fn to_lower_char(c: char) -> (r: char)
    ensures
        r == lower_char(c),
{
    if 'A' <= c && c <= 'Z' {
        let code: u32 = (c as u32) + 32;
        assert(0x61 <= code <= 0x7a);
        #[verifier::truncate]
        let r = (code as u8) as char;
        r
    } else {
        c
    }
}

/// `str::to_ascii_lowercase` over characters.
pub open spec fn lower_seq(s: Seq<char>) -> Seq<char> {
    s.map_values(|c: char| lower_char(c))
}

pub fn to_ascii_lowercase(s: &str) -> (r: String)
    ensures
        r@ == lower_seq(s@),
{
    let cs = chars_of(s);
    let mut r = String::new();
    let mut i: usize = 0;
    while i < cs.len()
        invariant
            cs@ == s@,
            i <= cs.len(),
            r@ == lower_seq(s@.take(i as int)),
        decreases cs.len() - i,
    {
        let c = to_lower_char(cs[i]);
        push_char(&mut r, c);
        assert(lower_seq(s@.take(i + 1)) =~= lower_seq(s@.take(i as int)).push(lower_char(s@[i as int])));
        i = i + 1;
    }
    assert(s@.take(cs.len() as int) =~= s@);
    r
}

/// `str::eq_ignore_ascii_case`.
pub fn eq_ignore_ascii_case(a: &str, b: &str) -> (r: bool)
    ensures
        r == (lower_seq(a@) == lower_seq(b@)),
{
    let x = to_ascii_lowercase(a);
    let y = to_ascii_lowercase(b);
    str_eq(x.as_str(), y.as_str())
}

// ---------------------------------------------------------------------------
// Trimming
// ---------------------------------------------------------------------------

pub open spec fn trim_start_seq(s: Seq<char>) -> Seq<char>
    decreases s.len(),
{
    if s.len() > 0 && is_white_space(s[0]) {
        trim_start_seq(s.drop_first())
    } else {
        s
    }
}

pub open spec fn trim_end_seq(s: Seq<char>) -> Seq<char>
    decreases s.len(),
{
    if s.len() > 0 && is_white_space(s.last()) {
        trim_end_seq(s.drop_last())
    } else {
        s
    }
}

/// `str::trim`: leading and trailing Unicode whitespace removed.
pub open spec fn trim_seq(s: Seq<char>) -> Seq<char> {
    trim_end_seq(trim_start_seq(s))
}

/// The bounds `(i, j)` of the trimmed part of `cs`.
fn trim_bounds(cs: &Vec<char>) -> (r: (usize, usize))
    ensures
        r.0 <= r.1 <= cs.len(),
        cs@.subrange(r.0 as int, r.1 as int) == trim_seq(cs@),
{
    let n = cs.len();
    let mut i: usize = 0;
    assert(cs@.subrange(0, n as int) =~= cs@);
    while i < n && white_space(cs[i])
        invariant
            i <= n == cs.len(),
            trim_start_seq(cs@) == trim_start_seq(cs@.subrange(i as int, n as int)),
        decreases n - i,
    {
        assert(cs@.subrange(i as int, n as int).drop_first() =~= cs@.subrange(i + 1, n as int));
        i = i + 1;
    }
    assert(trim_start_seq(cs@) == cs@.subrange(i as int, n as int));
    let mut j: usize = n;
    while j > i && white_space(cs[j - 1])
        invariant
            i <= j <= n == cs.len(),
            trim_end_seq(cs@.subrange(i as int, n as int)) == trim_end_seq(
                cs@.subrange(i as int, j as int),
            ),
        decreases j,
    {
        assert(cs@.subrange(i as int, j as int).drop_last() =~= cs@.subrange(i as int, j - 1));
        j = j - 1;
    }
    (i, j)
}

/// `str::trim` over owned characters.
pub fn trim(s: &str) -> (r: String)
    ensures
        r@ == trim_seq(s@),
{
    let cs = chars_of(s);
    let (i, j) = trim_bounds(&cs);
    string_from_range(&cs, i, j)
}

pub proof fn lemma_trim_start_suffix(s: Seq<char>)
    ensures
        exists|k: int|
            0 <= k <= s.len() && #[trigger] s.subrange(k, s.len() as int) == trim_start_seq(s),
    decreases s.len(),
{
    if s.len() > 0 && is_white_space(s[0]) {
        lemma_trim_start_suffix(s.drop_first());
        let k = choose|k: int|
            0 <= k <= s.drop_first().len() && #[trigger] s.drop_first().subrange(
                k,
                s.drop_first().len() as int,
            ) == trim_start_seq(s.drop_first());
        assert(s.subrange(k + 1, s.len() as int) =~= s.drop_first().subrange(
            k,
            s.drop_first().len() as int,
        ));
    } else {
        assert(s.subrange(0, s.len() as int) =~= s);
    }
}

/// The trimmed text neither starts nor ends with whitespace.
pub proof fn lemma_trim_edges(s: Seq<char>)
    ensures
        trim_seq(s).len() > 0 ==> !is_white_space(trim_seq(s)[0]) && !is_white_space(
            trim_seq(s).last(),
        ),
        trim_seq(s).len() <= s.len(),
{
    lemma_trim_start_edge(s);
    lemma_trim_end_prefix(trim_start_seq(s));
    lemma_trim_start_suffix(s);
}

proof fn lemma_trim_start_edge(s: Seq<char>)
    ensures
        trim_start_seq(s).len() > 0 ==> !is_white_space(trim_start_seq(s)[0]),
    decreases s.len(),
{
    if s.len() > 0 && is_white_space(s[0]) {
        lemma_trim_start_edge(s.drop_first());
    }
}

proof fn lemma_trim_end_prefix(s: Seq<char>)
    ensures
        trim_end_seq(s).len() <= s.len(),
        trim_end_seq(s) == s.take(trim_end_seq(s).len() as int),
        trim_end_seq(s).len() > 0 ==> !is_white_space(trim_end_seq(s).last()),
    decreases s.len(),
{
    if s.len() > 0 && is_white_space(s.last()) {
        lemma_trim_end_prefix(s.drop_last());
        let t = trim_end_seq(s.drop_last());
        assert(s.drop_last().take(t.len() as int) =~= s.take(t.len() as int));
    } else {
        assert(s.take(s.len() as int) =~= s);
    }
}

/// Trimming twice changes nothing more.
pub proof fn lemma_trim_idempotent(s: Seq<char>)
    ensures
        trim_seq(trim_seq(s)) == trim_seq(s),
{
    lemma_trim_edges(s);
    let t = trim_seq(s);
    if t.len() > 0 {
        assert(trim_start_seq(t) == t);
        assert(trim_end_seq(t) == t);
    } else {
        assert(trim_start_seq(t) == t);
    }
}

// ---------------------------------------------------------------------------
// Searching
// ---------------------------------------------------------------------------

/// Whether `pat` occurs in `s` starting at position `i`.
pub open spec fn occurs_at(s: Seq<char>, pat: Seq<char>, i: int) -> bool {
    0 <= i && i + pat.len() <= s.len() && s.subrange(i, i + pat.len()) == pat
}

/// `str::contains` for a pattern string.
pub open spec fn contains_seq(s: Seq<char>, pat: Seq<char>) -> bool {
    exists|i: int| occurs_at(s, pat, i)
}

fn occurs_at_exec(s: &Vec<char>, pat: &Vec<char>, i: usize) -> (b: bool)
    ensures
        b == occurs_at(s@, pat@, i as int),
{
    if i > s.len() || pat.len() > s.len() - i {
        return false;
    }
    let mut k: usize = 0;
    while k < pat.len()
        invariant
            i + pat.len() <= s.len(),
            k <= pat.len(),
            forall|m: int| 0 <= m < k ==> s@[i + m] == pat@[m],
        decreases pat.len() - k,
    {
        if s[i + k] != pat[k] {
            assert(s@.subrange(i as int, i + pat.len())[k as int] != pat@[k as int]);
            return false;
        }
        k = k + 1;
    }
    assert(s@.subrange(i as int, i + pat.len()) =~= pat@);
    true
}

/// The first position at or after `from` where `pat` occurs in `s`.
fn find_from(s: &Vec<char>, pat: &Vec<char>, from: usize) -> (r: Option<usize>)
    requires
        from <= s.len(),
    ensures
        match r {
            Some(i) => from <= i && occurs_at(s@, pat@, i as int) && forall|k: int|
                from <= k < i ==> !occurs_at(s@, pat@, k),
            None => forall|k: int| from <= k ==> !occurs_at(s@, pat@, k),
        },
{
    let mut i = from;
    while i < s.len()
        invariant
            from <= i <= s.len(),
            forall|k: int| from <= k < i ==> !occurs_at(s@, pat@, k),
        decreases s.len() - i,
    {
        if occurs_at_exec(s, pat, i) {
            return Some(i);
        }
        i = i + 1;
    }
    if occurs_at_exec(s, pat, i) {
        return Some(i);
    }
    assert forall|k: int| from <= k implies !occurs_at(s@, pat@, k) by {
        if k > i {
        }
    }
    None
}

/// `str::contains` with a pattern string.
pub fn contains_str(s: &str, pat: &str) -> (b: bool)
    ensures
        b == contains_seq(s@, pat@),
{
    let cs = chars_of(s);
    let ps = chars_of(pat);
    match find_from(&cs, &ps, 0) {
        Some(_) => true,
        None => false,
    }
}

/// `str::contains` with one character.
pub fn contains_char(s: &str, c: char) -> (b: bool)
    ensures
        b == s@.contains(c),
{
    let cs = chars_of(s);
    let mut i: usize = 0;
    while i < cs.len()
        invariant
            cs@ == s@,
            i <= cs.len(),
            forall|k: int| 0 <= k < i ==> cs@[k] != c,
        decreases cs.len() - i,
    {
        if cs[i] == c {
            assert(s@[i as int] == c);
            return true;
        }
        i = i + 1;
    }
    false
}

/// `s` starts with `prefix`.
pub open spec fn has_prefix(s: Seq<char>, prefix: Seq<char>) -> bool {
    prefix.len() <= s.len() && s.take(prefix.len() as int) == prefix
}

/// `str::strip_prefix`.
pub fn strip_prefix(s: &str, prefix: &str) -> (r: Option<String>)
    ensures
        match r {
            Some(rest) => has_prefix(s@, prefix@) && rest@ == s@.skip(prefix@.len() as int),
            None => !has_prefix(s@, prefix@),
        },
{
    let cs = chars_of(s);
    let ps = chars_of(prefix);
    if occurs_at_exec(&cs, &ps, 0) {
        assert(cs@.subrange(0, ps@.len() as int) =~= cs@.take(ps@.len() as int));
        let rest = string_from_range(&cs, ps.len(), cs.len());
        assert(cs@.subrange(ps@.len() as int, cs@.len() as int) =~= cs@.skip(ps@.len() as int));
        Some(rest)
    } else {
        assert(has_prefix(s@, prefix@) ==> s@.subrange(0, prefix@.len() as int) =~= s@.take(
            prefix@.len() as int,
        ));
        None
    }
}

/// `str::split_once` with a one-character separator: the text before and
/// after its first occurrence.
pub open spec fn split_once_char_spec(s: Seq<char>, sep: char) -> Option<(Seq<char>, Seq<char>)> {
    match s.index_of_first(sep) {
        Some(i) => Some((s.take(i), s.skip(i + 1))),
        None => None,
    }
}

pub fn split_once_char(s: &str, sep: char) -> (r: Option<(String, String)>)
    ensures
        match (r, split_once_char_spec(s@, sep)) {
            (Some(p), Some(q)) => p.0@ == q.0 && p.1@ == q.1,
            (None, None) => true,
            _ => false,
        },
{
    let cs = chars_of(s);
    let mut i: usize = 0;
    while i < cs.len()
        invariant
            cs@ == s@,
            i <= cs.len(),
            forall|k: int| 0 <= k < i ==> cs@[k] != sep,
        decreases cs.len() - i,
    {
        if cs[i] == sep {
            proof {
                s@.index_of_first_ensures(sep);
                assert(s@[i as int] == sep);
                assert(s@.contains(sep));
                let f = s@.index_of_first(sep)->0;
                assert(f == i as int);
                assert(cs@.subrange(0, i as int) =~= s@.take(i as int));
                assert(cs@.subrange(i + 1, cs@.len() as int) =~= s@.skip(i + 1));
            }
            let before = string_from_range(&cs, 0, i);
            let after = string_from_range(&cs, i + 1, cs.len());
            return Some((before, after));
        }
        i = i + 1;
    }
    proof {
        s@.index_of_first_ensures(sep);
    }
    None
}

/// `str::rsplit_once` with a pattern string: the text before and after the
/// last occurrence of a non-empty `pat`.
pub open spec fn last_occurrence(s: Seq<char>, pat: Seq<char>, i: int) -> bool {
    occurs_at(s, pat, i) && forall|k: int| i < k ==> !occurs_at(s, pat, k)
}

pub fn rsplit_once_str(s: &str, pat: &str) -> (r: Option<(String, String)>)
    requires
        pat@.len() > 0,
    ensures
        match r {
            Some(p) => exists|i: int|
                last_occurrence(s@, pat@, i) && p.0@ == s@.take(i) && p.1@ == s@.skip(
                    i + pat@.len(),
                ),
            None => !contains_seq(s@, pat@),
        },
{
    let cs = chars_of(s);
    let ps = chars_of(pat);
    let mut i: usize = cs.len();
    loop
        invariant
            cs@ == s@,
            ps@ == pat@,
            i <= cs.len(),
            forall|k: int| i < k ==> !occurs_at(s@, pat@, k),
        decreases i,
    {
        if occurs_at_exec(&cs, &ps, i) {
            let before = string_from_range(&cs, 0, i);
            let after = string_from_range(&cs, i + ps.len(), cs.len());
            proof {
                assert(cs@.subrange(0, i as int) =~= s@.take(i as int));
                assert(cs@.subrange(i + ps@.len(), cs@.len() as int) =~= s@.skip(
                    i + pat@.len(),
                ));
                assert(last_occurrence(s@, pat@, i as int));
            }
            return Some((before, after));
        }
        if i == 0 {
            assert forall|k: int| !occurs_at(s@, pat@, k) by {
                if k < 0 {
                }
            }
            return None;
        }
        i = i - 1;
    }
}

// ---------------------------------------------------------------------------
// Trimming a given character
// ---------------------------------------------------------------------------

pub open spec fn strip_start_char(s: Seq<char>, c: char) -> Seq<char>
    decreases s.len(),
{
    if s.len() > 0 && s[0] == c {
        strip_start_char(s.drop_first(), c)
    } else {
        s
    }
}

pub open spec fn strip_end_char(s: Seq<char>, c: char) -> Seq<char>
    decreases s.len(),
{
    if s.len() > 0 && s.last() == c {
        strip_end_char(s.drop_last(), c)
    } else {
        s
    }
}

/// `str::trim_matches(c)` for one character.
pub open spec fn trim_char_seq(s: Seq<char>, c: char) -> Seq<char> {
    strip_end_char(strip_start_char(s, c), c)
}

/// `str::trim_start_matches(c)` for one character.
pub fn trim_start_char(s: &str, c: char) -> (r: String)
    ensures
        r@ == strip_start_char(s@, c),
{
    let cs = chars_of(s);
    let n = cs.len();
    let mut i: usize = 0;
    assert(cs@.subrange(0, n as int) =~= cs@);
    while i < n && cs[i] == c
        invariant
            i <= n == cs.len(),
            strip_start_char(cs@, c) == strip_start_char(cs@.subrange(i as int, n as int), c),
        decreases n - i,
    {
        assert(cs@.subrange(i as int, n as int).drop_first() =~= cs@.subrange(i + 1, n as int));
        i = i + 1;
    }
    string_from_range(&cs, i, n)
}

/// `str::trim_matches(c)` for one character.
pub fn trim_char(s: &str, c: char) -> (r: String)
    ensures
        r@ == trim_char_seq(s@, c),
{
    let cs = chars_of(s);
    let n = cs.len();
    let mut i: usize = 0;
    assert(cs@.subrange(0, n as int) =~= cs@);
    while i < n && cs[i] == c
        invariant
            i <= n == cs.len(),
            strip_start_char(cs@, c) == strip_start_char(cs@.subrange(i as int, n as int), c),
        decreases n - i,
    {
        assert(cs@.subrange(i as int, n as int).drop_first() =~= cs@.subrange(i + 1, n as int));
        i = i + 1;
    }
    assert(strip_start_char(cs@, c) == cs@.subrange(i as int, n as int));
    let mut j: usize = n;
    while j > i && cs[j - 1] == c
        invariant
            i <= j <= n == cs.len(),
            strip_end_char(cs@.subrange(i as int, n as int), c) == strip_end_char(
                cs@.subrange(i as int, j as int),
                c,
            ),
        decreases j,
    {
        assert(cs@.subrange(i as int, j as int).drop_last() =~= cs@.subrange(i as int, j - 1));
        j = j - 1;
    }
    string_from_range(&cs, i, j)
}

proof fn lemma_strip_start_char_edge(s: Seq<char>, c: char)
    ensures
        strip_start_char(s, c).len() > 0 ==> strip_start_char(s, c)[0] != c,
        strip_start_char(s, c).len() <= s.len(),
        strip_start_char(s, c) == s.skip(s.len() - strip_start_char(s, c).len()),
    decreases s.len(),
{
    if s.len() > 0 && s[0] == c {
        lemma_strip_start_char_edge(s.drop_first(), c);
        let t = strip_start_char(s.drop_first(), c);
        assert(s.drop_first().skip(s.drop_first().len() - t.len()) =~= s.skip(s.len() - t.len()));
    } else {
        assert(s.skip(0) =~= s);
    }
}

proof fn lemma_strip_end_char_edge(s: Seq<char>, c: char)
    ensures
        strip_end_char(s, c).len() > 0 ==> strip_end_char(s, c).last() != c,
        strip_end_char(s, c).len() <= s.len(),
        strip_end_char(s, c) == s.take(strip_end_char(s, c).len() as int),
    decreases s.len(),
{
    if s.len() > 0 && s.last() == c {
        lemma_strip_end_char_edge(s.drop_last(), c);
        let t = strip_end_char(s.drop_last(), c);
        assert(s.drop_last().take(t.len() as int) =~= s.take(t.len() as int));
    } else {
        assert(s.take(s.len() as int) =~= s);
    }
}

/// What `trim_matches(c)` leaves neither starts nor ends with `c`.
pub proof fn lemma_trim_char_edges(s: Seq<char>, c: char)
    ensures
        trim_char_seq(s, c).len() > 0 ==> trim_char_seq(s, c)[0] != c && trim_char_seq(s, c).last()
            != c,
{
    let a = strip_start_char(s, c);
    lemma_strip_start_char_edge(s, c);
    lemma_strip_end_char_edge(a, c);
    let b = strip_end_char(a, c);
    if b.len() > 0 {
        assert(b[0] == a.take(b.len() as int)[0]);
    }
}

/// `c` + `w` + `c`, trimmed of `c`, is `w` again when `w` neither starts
/// nor ends with `c`.
pub proof fn lemma_trim_char_wrapped(w: Seq<char>, c: char)
    requires
        w.len() > 0,
        w[0] != c,
        w.last() != c,
    ensures
        trim_char_seq(seq![c] + w + seq![c], c) == w,
{
    let s = seq![c] + w + seq![c];
    assert(s.drop_first() =~= w + seq![c]);
    assert(strip_start_char(w + seq![c], c) == w + seq![c]);
    assert((w + seq![c]).drop_last() =~= w);
    assert(strip_end_char(w, c) == w);
}

/// A text with no whitespace at its ends is its own trim.
pub proof fn lemma_trim_fixed(s: Seq<char>)
    requires
        s.len() > 0,
        !is_white_space(s[0]),
        !is_white_space(s.last()),
    ensures
        trim_seq(s) == s,
{
}

// ---------------------------------------------------------------------------
// Replacement
// ---------------------------------------------------------------------------

/// `str::replace` with a non-empty pattern: every non-overlapping occurrence
/// of `pat`, found from left to right, is replaced by `rep`.
pub open spec fn replace_seq(s: Seq<char>, pat: Seq<char>, rep: Seq<char>) -> Seq<char>
    decreases s.len(),
{
    if pat.len() == 0 || s.len() == 0 {
        s
    } else if has_prefix(s, pat) {
        rep + replace_seq(s.skip(pat.len() as int), pat, rep)
    } else {
        seq![s[0]] + replace_seq(s.drop_first(), pat, rep)
    }
}

proof fn lemma_occurs_at_prefix(s: Seq<char>, pat: Seq<char>, i: int)
    requires
        0 <= i <= s.len(),
    ensures
        occurs_at(s, pat, i) == has_prefix(s.skip(i), pat),
{
    if occurs_at(s, pat, i) {
        assert(s.skip(i).take(pat.len() as int) =~= s.subrange(i, i + pat.len()));
    }
    if has_prefix(s.skip(i), pat) {
        assert(s.skip(i).take(pat.len() as int) =~= s.subrange(i, i + pat.len()));
    }
}

pub fn replace_str(s: &str, pat: &str, rep: &str) -> (r: String)
    requires
        pat@.len() > 0,
    ensures
        r@ == replace_seq(s@, pat@, rep@),
{
    let cs = chars_of(s);
    let ps = chars_of(pat);
    let mut out = String::new();
    let mut i: usize = 0;
    assert(s@.skip(0) =~= s@);
    assert(out@ + replace_seq(s@, pat@, rep@) =~= replace_seq(s@, pat@, rep@));
    while i < cs.len()
        invariant
            cs@ == s@,
            ps@ == pat@,
            pat@.len() > 0,
            i <= cs.len(),
            out@ + replace_seq(s@.skip(i as int), pat@, rep@) == replace_seq(s@, pat@, rep@),
        decreases cs.len() - i,
    {
        proof {
            lemma_occurs_at_prefix(s@, pat@, i as int);
        }
        if occurs_at_exec(&cs, &ps, i) {
            proof {
                assert(s@.skip(i as int).skip(pat@.len() as int) =~= s@.skip(i + pat@.len()));
                assert(out@ + replace_seq(s@.skip(i as int), pat@, rep@) =~= (out@ + rep@)
                    + replace_seq(s@.skip(i + pat@.len()), pat@, rep@));
            }
            out.append(rep);
            i = i + ps.len();
        } else {
            proof {
                assert(s@.skip(i as int).drop_first() =~= s@.skip(i + 1));
                assert(s@.skip(i as int)[0] == s@[i as int]);
                assert(out@ + replace_seq(s@.skip(i as int), pat@, rep@) =~= out@.push(
                    s@[i as int],
                ) + replace_seq(s@.skip(i + 1), pat@, rep@));
            }
            push_char(&mut out, cs[i]);
            i = i + 1;
        }
    }
    assert(s@.skip(i as int).len() == 0);
    assert(out@ + replace_seq(s@.skip(i as int), pat@, rep@) =~= out@);
    out
}

// ---------------------------------------------------------------------------
// Integers
// ---------------------------------------------------------------------------

pub open spec fn digit_char(d: nat) -> char {
    (('0' as u32) + d) as char
}

/// Decimal digits of `n` without leading zeros (`"0"` for zero).
pub open spec fn decimal_seq(n: nat) -> Seq<char>
    decreases n,
{
    if n < 10 {
        seq![digit_char(n)]
    } else {
        decimal_seq(n / 10).push(digit_char(n % 10))
    }
}

/// A signed integer as `Display` renders it.
pub open spec fn signed_decimal_seq(n: int) -> Seq<char> {
    if n < 0 {
        seq!['-'] + decimal_seq((-n) as nat)
    } else {
        decimal_seq(n as nat)
    }
}

fn digit(d: u64) -> (c: char)
    requires
        d < 10,
    ensures
        c == digit_char(d as nat),
{
    let code: u32 = 48 + (d as u32);
    #[verifier::truncate]
    let c = (code as u8) as char;
    c
}

/// `u64::to_string`.
pub fn u64_to_string(n: u64) -> (s: String)
    ensures
        s@ == decimal_seq(n as nat),
    decreases n,
{
    if n < 10 {
        let mut s = String::new();
        push_char(&mut s, digit(n));
        s
    } else {
        let mut s = u64_to_string(n / 10);
        push_char(&mut s, digit(n % 10));
        s
    }
}

/// `i64::to_string`.
pub fn i64_to_string(n: i64) -> (s: String)
    ensures
        s@ == signed_decimal_seq(n as int),
{
    if n < 0 {
        let magnitude: u64 = if n == i64::MIN {
            9223372036854775808u64
        } else {
            (-n) as u64
        };
        let digits = u64_to_string(magnitude);
        let mut s = String::new();
        push_char(&mut s, '-');
        s.append(digits.as_str());
        assert(s@ =~= seq!['-'] + decimal_seq((-(n as int)) as nat));
        s
    } else {
        u64_to_string(n as u64)
    }
}

/// The value of the decimal digits `s` (all of which are digits).
pub open spec fn digits_value(s: Seq<char>) -> int
    decreases s.len(),
{
    if s.len() == 0 {
        0
    } else {
        digits_value(s.drop_last()) * 10 + ((s.last() as u32) - ('0' as u32))
    }
}

pub open spec fn all_digits(s: Seq<char>) -> bool {
    forall|k: int| 0 <= k < s.len() ==> is_ascii_digit(#[trigger] s[k])
}

/// `i64::from_str`: an optional `+` or `-` followed by at least one ASCII
/// digit, and the value must fit in an `i64`.
pub open spec fn parse_i64_spec(s: Seq<char>) -> Option<i64> {
    let negative = s.len() > 0 && s[0] == '-';
    let body = if s.len() > 0 && (s[0] == '-' || s[0] == '+') {
        s.drop_first()
    } else {
        s
    };
    let v = if negative {
        -digits_value(body)
    } else {
        digits_value(body)
    };
    if body.len() > 0 && all_digits(body) && i64::MIN <= v <= i64::MAX {
        Some(v as i64)
    } else {
        None
    }
}

proof fn lemma_digits_value_nonneg(s: Seq<char>)
    requires
        all_digits(s),
    ensures
        digits_value(s) >= 0,
    decreases s.len(),
{
    if s.len() > 0 {
        assert(all_digits(s.drop_last()));
        lemma_digits_value_nonneg(s.drop_last());
        assert(is_ascii_digit(s[s.len() - 1]));
    }
}

proof fn lemma_digits_value_mono(s: Seq<char>, k: int)
    requires
        all_digits(s),
        0 <= k <= s.len(),
    ensures
        digits_value(s.take(k)) <= digits_value(s),
    decreases s.len(),
{
    if k < s.len() {
        assert(all_digits(s.drop_last()));
        lemma_digits_value_mono(s.drop_last(), k);
        assert(s.drop_last().take(k) =~= s.take(k));
        lemma_digits_value_nonneg(s.drop_last());
        assert(is_ascii_digit(s[s.len() - 1]));
    } else {
        assert(s.take(k) =~= s);
    }
}

/// `str::parse::<i64>()`, with `None` for `Err`.
pub fn parse_i64(s: &str) -> (r: Option<i64>)
    ensures
        r == parse_i64_spec(s@),
{
    let cs = chars_of(s);
    let n = cs.len();
    if n == 0 {
        return None;
    }
    let negative = cs[0] == '-';
    let start: usize = if cs[0] == '-' || cs[0] == '+' {
        1
    } else {
        0
    };
    let ghost body = if s@.len() > 0 && (s@[0] == '-' || s@[0] == '+') {
        s@.drop_first()
    } else {
        s@
    };
    assert(body =~= s@.subrange(start as int, n as int));
    if start == n {
        return None;
    }
    // Accumulate the magnitude, bounded by 2^63.
    let limit: u64 = 9223372036854775808u64;
    let mut acc: u64 = 0;
    let mut i: usize = start;
    while i < n
        invariant
            cs@ == s@,
            n == cs.len(),
            start <= i <= n,
            body == s@.subrange(start as int, n as int),
            all_digits(body.take(i - start)),
            acc as int == digits_value(body.take(i - start)),
            acc <= limit,
            limit == 9223372036854775808u64,
            body == (if s@.len() > 0 && (s@[0] == '-' || s@[0] == '+') {
                s@.drop_first()
            } else {
                s@
            }),
        decreases n - i,
    {
        let c = cs[i];
        if !('0' <= c && c <= '9') {
            proof {
                assert(body[i - start] == c);
                assert(!all_digits(body));
            }
            return None;
        }
        let d: u64 = ((c as u32) - 48) as u64;
        proof {
            assert(body.take(i - start + 1).drop_last() =~= body.take(i - start));
            assert(body.take(i - start + 1).last() == c);
            assert(all_digits(body.take(i - start + 1)));
        }
        if acc > (limit - d) / 10 {
            proof {
                assert(digits_value(body.take(i - start + 1)) == acc * 10 + d);
                assert(acc * 10 + d > limit) by (nonlinear_arith)
                    requires
                        acc > (limit - d) / 10,
                        d < 10,
                        limit == 9223372036854775808u64,
                ;
                assert(forall|j: int| 0 <= j < body.len() ==> #[trigger] is_ascii_digit(body[j])
                    || !all_digits(body));
                if all_digits(body) {
                    lemma_digits_value_mono(body, i - start + 1);
                }
            }
            return None;
        }
        assert(acc * 10 + d <= limit) by (nonlinear_arith)
            requires
                acc <= (limit - d) / 10,
                d < 10,
                limit == 9223372036854775808u64,
        ;
        acc = acc * 10 + d;
        i = i + 1;
    }
    assert(body.take(n - start) =~= body);
    if negative {
        assert(s@[0] == '-');
        let v: i64 = if acc == limit {
            i64::MIN
        } else {
            -(acc as i64)
        };
        Some(v)
    } else {
        if acc == limit {
            return None;
        }
        Some(acc as i64)
    }
}

/// Splits `s` at Unicode whitespace into its non-empty pieces
/// (`str::split_whitespace`).
pub open spec fn words_spec(s: Seq<char>) -> Seq<Seq<char>>
    decreases s.len(),
{
    words_from(s, seq![])
}

/// Words of `s`, where `cur` is the word being read so far.
pub open spec fn words_from(s: Seq<char>, cur: Seq<char>) -> Seq<Seq<char>>
    decreases s.len(),
{
    if s.len() == 0 {
        if cur.len() == 0 {
            seq![]
        } else {
            seq![cur]
        }
    } else if is_white_space(s[0]) {
        if cur.len() == 0 {
            words_from(s.drop_first(), cur)
        } else {
            seq![cur] + words_from(s.drop_first(), seq![])
        }
    } else {
        words_from(s.drop_first(), cur.push(s[0]))
    }
}

pub fn split_whitespace(s: &str) -> (words: Vec<String>)
    ensures
        words@.map_values(|w: String| w@) == words_spec(s@),
{
    let cs = chars_of(s);
    let mut words: Vec<String> = Vec::new();
    let mut cur: Vec<char> = Vec::new();
    let mut i: usize = 0;
    assert(s@.skip(0) =~= s@);
    assert(words@.map_values(|w: String| w@) =~= Seq::<Seq<char>>::empty());
    assert(words@.map_values(|w: String| w@) + words_from(s@, cur@) =~= words_from(s@, cur@));
    while i < cs.len()
        invariant
            cs@ == s@,
            i <= cs.len(),
            words@.map_values(|w: String| w@) + words_from(s@.skip(i as int), cur@) == words_spec(
                s@,
            ),
        decreases cs.len() - i,
    {
        let c = cs[i];
        proof {
            assert(s@.skip(i as int).drop_first() =~= s@.skip(i + 1));
            assert(s@.skip(i as int)[0] == c);
        }
        if white_space(c) {
            if cur.len() > 0 {
                let w = string_from_chars(&cur);
                let ghost before = words@.map_values(|w: String| w@);
                let ghost old_cur = cur@;
                words.push(w);
                assert(words@.map_values(|w: String| w@) =~= before.push(old_cur));
                cur = Vec::new();
                assert(before.push(old_cur) + words_from(s@.skip(i + 1), cur@) =~= before + (seq![
                    old_cur,
                ] + words_from(s@.skip(i + 1), seq![])));
            }
        } else {
            cur.push(c);
        }
        i = i + 1;
    }
    assert(s@.skip(i as int).len() == 0);
    if cur.len() > 0 {
        let w = string_from_chars(&cur);
        let ghost before = words@.map_values(|w: String| w@);
        words.push(w);
        assert(words@.map_values(|w: String| w@) =~= before.push(cur@));
    } else {
        assert(words@.map_values(|w: String| w@) + words_from(s@.skip(i as int), cur@)
            =~= words@.map_values(|w: String| w@));
    }
    words
}

/// The non-empty pieces of `s` between occurrences of `sep`
/// (`s.split(sep).filter(|p| !p.is_empty())`).
pub open spec fn pieces_spec(s: Seq<char>, sep: char) -> Seq<Seq<char>>
    decreases s.len(),
{
    pieces_from(s, sep, seq![])
}

/// Pieces of `s`, where `cur` is the piece being read so far.
pub open spec fn pieces_from(s: Seq<char>, sep: char, cur: Seq<char>) -> Seq<Seq<char>>
    decreases s.len(),
{
    if s.len() == 0 {
        if cur.len() == 0 {
            seq![]
        } else {
            seq![cur]
        }
    } else if s[0] == sep {
        if cur.len() == 0 {
            pieces_from(s.drop_first(), sep, cur)
        } else {
            seq![cur] + pieces_from(s.drop_first(), sep, seq![])
        }
    } else {
        pieces_from(s.drop_first(), sep, cur.push(s[0]))
    }
}

pub fn split_nonempty(s: &str, sep: char) -> (pieces: Vec<String>)
    ensures
        pieces@.map_values(|w: String| w@) == pieces_spec(s@, sep),
{
    let cs = chars_of(s);
    let mut pieces: Vec<String> = Vec::new();
    let mut cur: Vec<char> = Vec::new();
    let mut i: usize = 0;
    assert(s@.skip(0) =~= s@);
    assert(pieces@.map_values(|w: String| w@) =~= Seq::<Seq<char>>::empty());
    assert(pieces@.map_values(|w: String| w@) + pieces_from(s@, sep, cur@) =~= pieces_from(
        s@,
        sep,
        cur@,
    ));
    while i < cs.len()
        invariant
            cs@ == s@,
            i <= cs.len(),
            pieces@.map_values(|w: String| w@) + pieces_from(s@.skip(i as int), sep, cur@)
                == pieces_spec(s@, sep),
        decreases cs.len() - i,
    {
        let c = cs[i];
        proof {
            assert(s@.skip(i as int).drop_first() =~= s@.skip(i + 1));
            assert(s@.skip(i as int)[0] == c);
        }
        if c == sep {
            if cur.len() > 0 {
                let w = string_from_chars(&cur);
                let ghost before = pieces@.map_values(|w: String| w@);
                let ghost old_cur = cur@;
                pieces.push(w);
                assert(pieces@.map_values(|w: String| w@) =~= before.push(old_cur));
                cur = Vec::new();
                assert(before.push(old_cur) + pieces_from(s@.skip(i + 1), sep, cur@) =~= before + (
                seq![old_cur] + pieces_from(s@.skip(i + 1), sep, seq![])));
            }
        } else {
            cur.push(c);
        }
        i = i + 1;
    }
    assert(s@.skip(i as int).len() == 0);
    if cur.len() > 0 {
        let w = string_from_chars(&cur);
        let ghost before = pieces@.map_values(|w: String| w@);
        pieces.push(w);
        assert(pieces@.map_values(|w: String| w@) =~= before.push(cur@));
    } else {
        assert(pieces@.map_values(|w: String| w@) + pieces_from(s@.skip(i as int), sep, cur@)
            =~= pieces@.map_values(|w: String| w@));
    }
    pieces
}

/// A run of characters without the separator joins the piece being read.
pub proof fn lemma_pieces_word(w: Seq<char>, rest: Seq<char>, sep: char, cur: Seq<char>)
    requires
        !w.contains(sep),
    ensures
        pieces_from(w + rest, sep, cur) == pieces_from(rest, sep, cur + w),
    decreases w.len(),
{
    if w.len() == 0 {
        assert(w + rest =~= rest);
        assert(cur + w =~= cur);
    } else {
        assert((w + rest)[0] == w[0]);
        assert((w + rest).drop_first() =~= w.drop_first() + rest);
        assert(!w.drop_first().contains(sep)) by {
            if w.drop_first().contains(sep) {
                let k = choose|k: int| 0 <= k < w.drop_first().len() && w.drop_first()[k] == sep;
                assert(w[k + 1] == sep);
            }
        }
        lemma_pieces_word(w.drop_first(), rest, sep, cur.push(w[0]));
        assert(cur.push(w[0]) + w.drop_first() =~= cur + w);
    }
}

/// A separator ends a non-empty piece.
pub proof fn lemma_pieces_separator(rest: Seq<char>, sep: char, cur: Seq<char>)
    requires
        cur.len() > 0,
    ensures
        pieces_from(seq![sep] + rest, sep, cur) == seq![cur] + pieces_from(rest, sep, seq![]),
{
    assert((seq![sep] + rest).drop_first() =~= rest);
}

/// Every character of a decimal rendering is a digit, and the digits
/// read back give the number.
pub proof fn lemma_decimal_digits(n: nat)
    ensures
        decimal_seq(n).len() > 0,
        all_digits(decimal_seq(n)),
        digits_value(decimal_seq(n)) == n,
    decreases n,
{
    if n < 10 {
        let s = decimal_seq(n);
        assert(s.drop_last() =~= Seq::<char>::empty());
        assert(digit_char(n) as u32 == 48 + n);
        assert(('0' as u32) == 48);
        assert(digits_value(s) == digits_value(s.drop_last()) * 10 + ((s.last() as u32) - (
        '0' as u32)));
    } else {
        lemma_decimal_digits(n / 10);
        let s = decimal_seq(n);
        assert(s.drop_last() =~= decimal_seq(n / 10));
        assert(digit_char(n % 10) as u32 == 48 + n % 10);
        assert(('0' as u32) == 48);
        assert(digits_value(s) == digits_value(s.drop_last()) * 10 + ((s.last() as u32) - (
        '0' as u32)));
        assert((n / 10) * 10 + n % 10 == n);
        assert forall|k: int| 0 <= k < s.len() implies is_ascii_digit(#[trigger] s[k]) by {
            if k < s.len() - 1 {
                assert(s[k] == decimal_seq(n / 10)[k]);
            }
        }
    }
}

/// `i64::from_str` reads back what `Display` wrote.
pub proof fn lemma_parse_signed_decimal(n: i64)
    ensures
        parse_i64_spec(signed_decimal_seq(n as int)) == Some(n),
        signed_decimal_seq(n as int).len() > 0,
        forall|k: int|
            0 <= k < signed_decimal_seq(n as int).len() ==> #[trigger] signed_decimal_seq(
                n as int,
            )[k] == '-' || is_ascii_digit(signed_decimal_seq(n as int)[k]),
{
    let s = signed_decimal_seq(n as int);
    if n < 0 {
        let m = (-(n as int)) as nat;
        lemma_decimal_digits(m);
        assert(s.drop_first() =~= decimal_seq(m));
        assert forall|k: int| 0 <= k < s.len() implies #[trigger] s[k] == '-' || is_ascii_digit(
            s[k],
        ) by {
            if k > 0 {
                assert(s[k] == decimal_seq(m)[k - 1]);
            }
        }
    } else {
        lemma_decimal_digits(n as nat);
        assert(is_ascii_digit(s[0]));
    }
}

// ---------------------------------------------------------------------------
// Ordering
// ---------------------------------------------------------------------------

/// Lexicographic `<` on characters, the order of `str` (byte-wise UTF-8
/// order agrees with code point order).
pub open spec fn seq_lt(a: Seq<char>, b: Seq<char>) -> bool
    decreases a.len(),
{
    if a.len() == 0 {
        b.len() > 0
    } else if b.len() == 0 {
        false
    } else if a[0] != b[0] {
        (a[0] as int) < (b[0] as int)
    } else {
        seq_lt(a.drop_first(), b.drop_first())
    }
}

/// `a < b` in the order of `str`.
pub fn str_lt(a: &str, b: &str) -> (r: bool)
    ensures
        r == seq_lt(a@, b@),
{
    let x = chars_of(a);
    let y = chars_of(b);
    let mut i: usize = 0;
    assert(a@.skip(0) =~= a@);
    assert(b@.skip(0) =~= b@);
    while i < x.len() && i < y.len() && x[i] == y[i]
        invariant
            x@ == a@,
            y@ == b@,
            i <= x.len(),
            i <= y.len(),
            seq_lt(a@, b@) == seq_lt(a@.skip(i as int), b@.skip(i as int)),
        decreases x.len() - i,
    {
        assert(a@.skip(i as int).drop_first() =~= a@.skip(i + 1));
        assert(b@.skip(i as int).drop_first() =~= b@.skip(i + 1));
        i = i + 1;
    }
    if i == x.len() {
        i < y.len()
    } else if i == y.len() {
        false
    } else {
        x[i] < y[i]
    }
}

/// `seq_lt` is a strict total order.
pub proof fn lemma_seq_lt_irreflexive(a: Seq<char>)
    ensures
        !seq_lt(a, a),
    decreases a.len(),
{
    if a.len() > 0 {
        lemma_seq_lt_irreflexive(a.drop_first());
    }
}

pub proof fn lemma_seq_lt_asymmetric(a: Seq<char>, b: Seq<char>)
    ensures
        seq_lt(a, b) ==> !seq_lt(b, a),
    decreases a.len(),
{
    if a.len() > 0 && b.len() > 0 && a[0] == b[0] {
        lemma_seq_lt_asymmetric(a.drop_first(), b.drop_first());
    }
}

pub proof fn lemma_seq_lt_transitive(a: Seq<char>, b: Seq<char>, c: Seq<char>)
    requires
        seq_lt(a, b),
        seq_lt(b, c),
    ensures
        seq_lt(a, c),
    decreases a.len(),
{
    if a.len() > 0 && b.len() > 0 && c.len() > 0 && a[0] == b[0] && b[0] == c[0] {
        lemma_seq_lt_transitive(a.drop_first(), b.drop_first(), c.drop_first());
    }
}

pub proof fn lemma_seq_lt_total(a: Seq<char>, b: Seq<char>)
    ensures
        a != b ==> seq_lt(a, b) || seq_lt(b, a),
    decreases a.len(),
{
    if a.len() > 0 && b.len() > 0 && a[0] == b[0] {
        lemma_seq_lt_total(a.drop_first(), b.drop_first());
        if a.drop_first() == b.drop_first() {
            assert(a =~= seq![a[0]] + a.drop_first());
            assert(b =~= seq![b[0]] + b.drop_first());
        }
    } else if a.len() == 0 && b.len() == 0 {
        assert(a =~= b);
    } else if a.len() > 0 && b.len() > 0 {
        assert((a[0] as int) != (b[0] as int));
    }
}

} // verus!
