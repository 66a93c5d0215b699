//! `@login` mentions in text.

use vstd::prelude::*;

use crate::ordering::{contains_name, views};
use crate::text::{
    ascii_alphanumeric, chars_of, is_ascii_alphanumeric, lower_seq, string_from_range,
    to_ascii_lowercase,
};

verus! {

/// Characters a GitHub login is made of.
pub open spec fn is_login_char(c: char) -> bool {
    is_ascii_alphanumeric(c) || c == '-'
}

pub fn login_char(c: char) -> (b: bool)
    ensures
        b == is_login_char(c),
{
    ascii_alphanumeric(c) || c == '-'
}

/// The end of the run of login characters that starts at `start`.
pub open spec fn login_run_end(t: Seq<char>, start: int) -> int
    decreases t.len() - start,
{
    if 0 <= start < t.len() && is_login_char(t[start]) {
        login_run_end(t, start + 1)
    } else {
        start
    }
}

/// The mention that starts at `t[i]`, if one does: an `@` not preceded by a
/// login character, followed by an ASCII letter or digit and the rest of the
/// run of login characters, which must not end with `-`. Logins are
/// compared without ASCII case, so the mention is lowercased.
pub open spec fn mention_at(t: Seq<char>, i: int) -> Option<Seq<char>> {
    if 0 <= i && i + 1 < t.len() && t[i] == '@' && (i == 0 || !is_login_char(t[i - 1]))
        && is_ascii_alphanumeric(t[i + 1]) {
        let e = login_run_end(t, i + 1);
        if t[e - 1] == '-' {
            None
        } else {
            Some(lower_seq(t.subrange(i + 1, e)))
        }
    } else {
        None
    }
}

/// `m` is mentioned in `t`.
pub open spec fn is_mentioned(t: Seq<char>, m: Seq<char>) -> bool {
    exists|i: int| mention_at(t, i) == Some(m)
}

proof fn lemma_login_run(t: Seq<char>, start: int)
    requires
        0 <= start <= t.len(),
    ensures
        start <= login_run_end(t, start) <= t.len(),
        forall|k: int| start <= k < login_run_end(t, start) ==> is_login_char(#[trigger] t[k]),
    decreases t.len() - start,
{
    if start < t.len() && is_login_char(t[start]) {
        lemma_login_run(t, start + 1);
    }
}

/// Adds to `mentions` every mention of `text` that it does not hold yet.
pub fn collect_mentions_from_text(text: &str, mentions: &mut Vec<String>)
    requires
        views(old(mentions)@).no_duplicates(),
    ensures
        views(final(mentions)@).no_duplicates(),
        forall|m: Seq<char>|
            #[trigger] views(final(mentions)@).contains(m) <==> (views(old(mentions)@).contains(m)
                || is_mentioned(text@, m)),
{
    let chars = chars_of(text);
    let ghost t = text@;
    let ghost original = views(mentions@);
    let n = chars.len();
    let mut index: usize = 0;
    while index < n
        invariant
            chars@ == t,
            n == t.len(),
            index <= n,
            views(mentions@).no_duplicates(),
            forall|m: Seq<char>|
                #[trigger] views(mentions@).contains(m) ==> (original.contains(m) || exists|j: int|
                    0 <= j < index && mention_at(t, j) == Some(m)),
            forall|j: int|
                0 <= j < index ==> (#[trigger] mention_at(t, j) matches Some(m) ==> views(
                    mentions@,
                ).contains(m)),
            forall|m: Seq<char>| original.contains(m) ==> #[trigger] views(mentions@).contains(m),
        decreases n - index,
    {
        if chars[index] != '@' {
            index = index + 1;
            continue;
        }
        if index > 0 && login_char(chars[index - 1]) {
            index = index + 1;
            continue;
        }
        let start = index + 1;
        if start >= n || !ascii_alphanumeric(chars[start]) {
            index = index + 1;
            continue;
        }
        let mut end = start + 1;
        proof {
            lemma_login_run(t, start as int);
        }
        while end < n && login_char(chars[end])
            invariant
                chars@ == t,
                n == t.len(),
                start < end <= n,
                login_run_end(t, start as int) == login_run_end(t, end as int),
            decreases n - end,
        {
            end = end + 1;
        }
        proof {
            assert(login_run_end(t, start as int) == end);
            assert forall|j: int| index < j < end implies #[trigger] mention_at(t, j) is None by {
                assert(is_login_char(t[j]));
            }
        }
        if chars[end - 1] == '-' {
            index = end;
            continue;
        }
        let login = string_from_range(&chars, start, end);
        let lowered = to_ascii_lowercase(login.as_str());
        assert(mention_at(t, index as int) == Some(lowered@));
        let found = contains_name(mentions, lowered.as_str());
        if !found {
            let ghost before = views(mentions@);
            mentions.push(lowered);
            proof {
                assert(views(mentions@) =~= before.push(lowered@));
                assert(!before.contains(lowered@));
                assert forall|m: Seq<char>| #[trigger] views(mentions@).contains(m) <==> (
                before.contains(m) || m == lowered@) by {
                    if views(mentions@).contains(m) {
                        let q = choose|q: int|
                            0 <= q < views(mentions@).len() && views(mentions@)[q] == m;
                        if q < before.len() {
                            assert(before[q] == m);
                        }
                    }
                    if before.contains(m) {
                        let q = choose|q: int| 0 <= q < before.len() && before[q] == m;
                        assert(views(mentions@)[q] == m);
                    }
                    if m == lowered@ {
                        assert(views(mentions@)[before.len() as int] == m);
                    }
                }
            }
        }
        index = end;
    }
    proof {
        assert forall|m: Seq<char>| #[trigger] views(mentions@).contains(m) <== (original.contains(m)
            || is_mentioned(t, m)) by {
            if is_mentioned(t, m) {
                let j = choose|j: int| mention_at(t, j) == Some(m);
                if j < 0 || j >= n {
                    assert(mention_at(t, j) is None);
                }
            }
        }
    }
}

} // verus!
