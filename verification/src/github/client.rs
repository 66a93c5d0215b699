//! What the HTTP client decides: which status codes fail, and how error
//! texts are cleaned of the token.

use vstd::prelude::*;

use crate::github::GitHubError;
use crate::models::config::HostConfig;
use crate::text::{contains_seq, has_prefix, occurs_at, replace_seq, replace_str};

verus! {

/// Error texts never show the token: every occurrence becomes
/// `<redacted>` (an empty token leaves the text unchanged).
pub open spec fn sanitized(message: Seq<char>, pat: Seq<char>) -> Seq<char> {
    if pat.len() == 0 {
        message
    } else {
        replace_seq(message, pat, "<redacted>"@)
    }
}

pub fn sanitize_error_message(message: &str, pat: &str) -> (r: String)
    ensures
        r@ == sanitized(message@, pat@),
{
    if pat.is_empty() {
        message.to_owned()
    } else {
        replace_str(message, pat, "<redacted>")
    }
}

/// The outcome of an HTTP status: 401 and 403 are authentication failures,
/// any other status outside 200..=299 is an API error.
pub open spec fn status_outcome(host: HostConfig, status: u16) -> Result<(), GitHubError> {
    if status == 401 || status == 403 {
        Err(GitHubError::Authentication { host: host.name })
    } else if !(200 <= status <= 299) {
        Err(GitHubError::Api { host: host.name, status })
    } else {
        Ok(())
    }
}

/// Checks the status of a response.
pub fn ensure_success(host: &HostConfig, status: u16) -> (r: Result<(), GitHubError>)
    ensures
        r == status_outcome(*host, status),
{
    if status == 401 || status == 403 {
        return Err(GitHubError::Authentication { host: host.name.clone() });
    }
    if !(200 <= status && status <= 299) {
        return Err(GitHubError::Api { host: host.name.clone(), status });
    }
    Ok(())
}

/// A failed exchange (no answer, or an unreadable body), with the token
/// removed from the client's error text.
pub fn network_error(host: &HostConfig, pat: &str, error_text: &str) -> (e: GitHubError)
    ensures
        e matches GitHubError::Network { host: h, message: m } && h == host.name && m@ == sanitized(
            error_text@,
            pat@,
        ),
{
    GitHubError::Network {
        host: host.name.clone(),
        message: sanitize_error_message(error_text, pat),
    }
}

/// A prefix of the replaced text without `<` is a prefix of the text: every
/// replacement starts with `<`.
proof fn lemma_replaced_prefix(s: Seq<char>, pat: Seq<char>, len: int)
    requires
        pat.len() > 0,
        0 <= len <= replace_seq(s, pat, "<redacted>"@).len(),
        forall|j: int| 0 <= j < len ==> replace_seq(s, pat, "<redacted>"@)[j] != '<',
    ensures
        len <= s.len(),
        replace_seq(s, pat, "<redacted>"@).take(len) == s.take(len),
    decreases s.len(),
{
    reveal_strlit("<redacted>");
    let r = replace_seq(s, pat, "<redacted>"@);
    if s.len() == 0 {
        assert(r.take(len) =~= s.take(len));
    } else if has_prefix(s, pat) {
        if len > 0 {
            assert(r[0] == '<');
        }
        assert(r.take(len) =~= s.take(len));
    } else {
        let rest = replace_seq(s.drop_first(), pat, "<redacted>"@);
        assert(r == seq![s[0]] + rest);
        if len > 0 {
            assert forall|j: int| 0 <= j < len - 1 implies rest[j] != '<' by {
                assert(r[j + 1] == rest[j]);
            }
            lemma_replaced_prefix(s.drop_first(), pat, len - 1);
            assert(r.take(len) =~= seq![s[0]] + rest.take(len - 1));
            assert(s.take(len) =~= seq![s[0]] + s.drop_first().take(len - 1));
        } else {
            assert(r.take(len) =~= s.take(len));
        }
    }
}

/// Error texts do not show the token: once cleaned, a text holds no
/// occurrence of a token that has no angle brackets and is no part of
/// `<redacted>` itself.
pub proof fn lemma_sanitized_hides_token(message: Seq<char>, pat: Seq<char>)
    requires
        pat.len() > 0,
        !pat.contains('<'),
        !pat.contains('>'),
        !contains_seq("<redacted>"@, pat),
    ensures
        !contains_seq(sanitized(message, pat), pat),
    decreases message.len(),
{
    reveal_strlit("<redacted>");
    let rep = "<redacted>"@;
    let r = replace_seq(message, pat, rep);
    if message.len() == 0 {
        assert forall|i: int| !occurs_at(r, pat, i) by {}
    } else if has_prefix(message, pat) {
        let rest = replace_seq(message.skip(pat.len() as int), pat, rep);
        lemma_sanitized_hides_token(message.skip(pat.len() as int), pat);
        assert(r == rep + rest);
        assert forall|i: int| !occurs_at(r, pat, i) by {
            if occurs_at(r, pat, i) {
                if i + pat.len() <= rep.len() {
                    assert(rep.subrange(i, i + pat.len()) =~= r.subrange(i, i + pat.len()));
                    assert(occurs_at(rep, pat, i));
                } else if i < rep.len() {
                    let j = rep.len() - 1 - i;
                    assert(r.subrange(i, i + pat.len())[j] == r[rep.len() - 1]);
                    assert(r[rep.len() - 1] == '>');
                    assert(pat[j] == '>');
                    assert(pat.contains('>'));
                } else {
                    assert(rest.subrange(i - rep.len(), i - rep.len() + pat.len()) =~= r.subrange(
                        i,
                        i + pat.len(),
                    ));
                    assert(occurs_at(rest, pat, i - rep.len()));
                }
            }
        }
    } else {
        let rest = replace_seq(message.drop_first(), pat, rep);
        lemma_sanitized_hides_token(message.drop_first(), pat);
        assert(r == seq![message[0]] + rest);
        assert forall|i: int| !occurs_at(r, pat, i) by {
            if occurs_at(r, pat, i) {
                if i == 0 {
                    assert(r.subrange(0, pat.len() as int) =~= r.take(pat.len() as int));
                    assert forall|j: int| 0 <= j < pat.len() implies r[j] != '<' by {
                        assert(r.take(pat.len() as int)[j] == pat[j]);
                    }
                    lemma_replaced_prefix(message, pat, pat.len() as int);
                    assert(message.take(pat.len() as int) == pat);
                } else {
                    assert(rest.subrange(i - 1, i - 1 + pat.len()) =~= r.subrange(i, i + pat.len()));
                    assert(occurs_at(rest, pat, i - 1));
                }
            }
        }
    }
}

} // verus!
