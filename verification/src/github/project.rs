//! Items of a GitHub project (Projects V2): which project a query names,
//! the requests for its pages, and the items made of the answers.

use vstd::prelude::*;

use crate::github::graphql::{join_messages, joined_messages, lemma_somes_step, somes, GraphqlError};
use crate::github::{FetchedStreamItem, GitHubError};
use crate::models::config::{scheme_name, web_base_of, HostConfig, HostKind, Scheme};
use crate::models::stream_item::{ItemPerson, ItemType};
use crate::text::{
    chars_of, concat2, concat3, has_prefix, i64_to_string, is_ascii_digit, is_white_space,
    lemma_parse_signed_decimal, lemma_pieces_separator, lemma_pieces_word, parse_i64, parse_i64_spec,
    pieces_from,
    pieces_spec, seq_lt, signed_decimal_seq, split_nonempty, split_once_char,
    split_once_char_spec, str_eq, str_lt, strip_prefix, trim, trim_seq, white_space,
    words_spec, split_whitespace, contains_char,
};

verus! {

/// The most items one project listing gathers.
pub const PROJECT_ITEMS_LIMIT: usize = 500;

/// The most items asked for in one page.
pub const PROJECT_ITEMS_PAGE_SIZE: usize = 100;

/// How a project is named.
#[derive(Clone, Copy, Debug, PartialEq, Eq, Structural)]
pub enum LocatorKind {
    NodeId,
    Organization,
    User,
}

/// A project: by its node id, or by its owner and number.
#[derive(Clone, Debug, PartialEq, Eq)]
pub enum ProjectLocator {
    NodeId(String),
    Organization { owner: String, number: i64 },
    User { owner: String, number: i64 },
}

impl View for ProjectLocator {
    /// The kind, the node id or owner, and the number (0 for a node id).
    type V = (LocatorKind, Seq<char>, i64);

    open spec fn view(&self) -> (LocatorKind, Seq<char>, i64) {
        match self {
            ProjectLocator::NodeId(id) => (LocatorKind::NodeId, id@, 0),
            ProjectLocator::Organization { owner, number } => (
                LocatorKind::Organization,
                owner@,
                *number,
            ),
            ProjectLocator::User { owner, number } => (LocatorKind::User, owner@, *number),
        }
    }
}

// ---------------------------------------------------------------------------
// Which project a query names
// ---------------------------------------------------------------------------

/// The path of an `http(s)://host/path` URL.
pub open spec fn project_url_path(value: Seq<char>) -> Option<Seq<char>> {
    let rest = if has_prefix(value, "https://"@) {
        Some(value.skip("https://"@.len() as int))
    } else if has_prefix(value, "http://"@) {
        Some(value.skip("http://"@.len() as int))
    } else {
        None
    };
    match rest {
        Some(u) => match split_once_char_spec(u, '/') {
            Some(p) => Some(p.1),
            None => None,
        },
        None => None,
    }
}

/// The project a URL `…/orgs/OWNER/projects/N` or `…/users/OWNER/projects/N`
/// names; empty path segments are skipped.
pub open spec fn project_url_locator(value: Seq<char>) -> Option<(LocatorKind, Seq<char>, i64)> {
    match project_url_path(value) {
        None => None,
        Some(path) => {
            let segs = pieces_spec(path, '/');
            if segs.len() >= 4 && (segs[0] == "orgs"@ || segs[0] == "users"@) && segs[2]
                == "projects"@ && parse_i64_spec(segs[3]) is Some {
                Some(
                    (
                        if segs[0] == "orgs"@ {
                            LocatorKind::Organization
                        } else {
                            LocatorKind::User
                        },
                        segs[1],
                        parse_i64_spec(segs[3])->0,
                    ),
                )
            } else {
                None
            }
        },
    }
}

fn locator_from_url(value: &str) -> (r: Option<ProjectLocator>)
    ensures
        match r {
            Some(l) => project_url_locator(value@) == Some(l@),
            None => project_url_locator(value@) is None,
        },
{
    let url = match strip_prefix(value, "https://") {
        Some(u) => u,
        None => match strip_prefix(value, "http://") {
            Some(u) => u,
            None => return None,
        },
    };
    let path = match split_once_char(url.as_str(), '/') {
        Some(p) => p.1,
        None => return None,
    };
    let segs = split_nonempty(path.as_str(), '/');
    proof {
        assert(project_url_path(value@) == Some(path@));
        assert(segs@.len() == pieces_spec(path@, '/').len());
    }
    if segs.len() < 4 {
        return None;
    }
    proof {
        assert(segs@[0]@ == pieces_spec(path@, '/')[0]);
        assert(segs@[1]@ == pieces_spec(path@, '/')[1]);
        assert(segs@[2]@ == pieces_spec(path@, '/')[2]);
        assert(segs@[3]@ == pieces_spec(path@, '/')[3]);
    }
    let is_org = str_eq(segs[0].as_str(), "orgs");
    let is_user = str_eq(segs[0].as_str(), "users");
    if !is_org && !is_user {
        return None;
    }
    if !str_eq(segs[2].as_str(), "projects") {
        return None;
    }
    let number = match parse_i64(segs[3].as_str()) {
        Some(n) => n,
        None => return None,
    };
    let owner = segs[1].clone();
    if is_org {
        Some(ProjectLocator::Organization { owner, number })
    } else {
        Some(ProjectLocator::User { owner, number })
    }
}

/// `str::parse_project_url`: a project URL, if the text is one.
pub fn parse_project_url(value: &str) -> (r: Option<ProjectLocator>)
    ensures
        match r {
            Some(l) => project_url_locator(value@) == Some(l@),
            None => project_url_locator(value@) is None,
        },
{
    locator_from_url(value)
}

/// What the `node:`, `org:`, `user:` and `number:` tokens of a query say;
/// a later token of a kind replaces an earlier one.
pub open spec fn scan_tokens(tokens: Seq<Seq<char>>) -> (
    Option<Seq<char>>,
    Option<Seq<char>>,
    Option<Seq<char>>,
    Option<i64>,
)
    decreases tokens.len(),
{
    if tokens.len() == 0 {
        (None, None, None, None)
    } else {
        let s = scan_tokens(tokens.drop_last());
        let t = tokens.last();
        if has_prefix(t, "node:"@) {
            (Some(trim_seq(t.skip("node:"@.len() as int))), s.1, s.2, s.3)
        } else if has_prefix(t, "org:"@) {
            (s.0, Some(trim_seq(t.skip("org:"@.len() as int))), s.2, s.3)
        } else if has_prefix(t, "user:"@) {
            (s.0, s.1, Some(trim_seq(t.skip("user:"@.len() as int))), s.3)
        } else if has_prefix(t, "number:"@) {
            (s.0, s.1, s.2, parse_i64_spec(trim_seq(t.skip("number:"@.len() as int))))
        } else {
            s
        }
    }
}

pub open spec fn has_white_space(s: Seq<char>) -> bool {
    exists|k: int| 0 <= k < s.len() && is_white_space(#[trigger] s[k])
}

/// The project a query names: a project URL; or `node:ID`; or `org:OWNER
/// number:N` or `user:OWNER number:N` with a positive number; or a bare
/// word without `:`, taken as a node id.
pub open spec fn project_locator_of(query: Seq<char>) -> Option<(LocatorKind, Seq<char>, i64)> {
    let trimmed = trim_seq(query);
    if trimmed.len() == 0 {
        None
    } else if project_url_locator(trimmed) is Some {
        project_url_locator(trimmed)
    } else {
        let s = scan_tokens(words_spec(trimmed));
        let node = if s.0 is None && s.1 is None && s.2 is None && !trimmed.contains(':')
            && !has_white_space(trimmed) {
            Some(trimmed)
        } else {
            s.0
        };
        match (node, s.1, s.2, s.3) {
            (Some(n), None, None, None) => if n.len() > 0 {
                Some((LocatorKind::NodeId, n, 0i64))
            } else {
                None
            },
            (None, Some(o), None, Some(num)) => if o.len() > 0 && num > 0 {
                Some((LocatorKind::Organization, o, num))
            } else {
                None
            },
            (None, None, Some(u), Some(num)) => if u.len() > 0 && num > 0 {
                Some((LocatorKind::User, u, num))
            } else {
                None
            },
            _ => None,
        }
    }
}

pub open spec fn project_query_message() -> Seq<char> {
    "project query must be one of: node:PROJECT_ID, org:OWNER number:N, user:OWNER number:N"@
}

/// `e` is the error for a query that names no project.
pub open spec fn is_project_query_error(e: GitHubError, host: HostConfig) -> bool {
    e matches GitHubError::Parse { host: h, message: m } && h == host.name && m@
        == project_query_message()
}

/// The error for a query that names no project.
pub fn project_query_error(host: &HostConfig) -> (e: GitHubError)
    ensures
        is_project_query_error(e, *host),
{
    GitHubError::Parse {
        host: host.name.clone(),
        message: "project query must be one of: node:PROJECT_ID, org:OWNER number:N, user:OWNER number:N".to_owned(),
    }
}

fn contains_white_space(s: &str) -> (b: bool)
    ensures
        b == has_white_space(s@),
{
    let cs = chars_of(s);
    let mut i: usize = 0;
    while i < cs.len()
        invariant
            cs@ == s@,
            i <= cs.len(),
            forall|k: int| 0 <= k < i ==> !is_white_space(#[trigger] s@[k]),
        decreases cs.len() - i,
    {
        if white_space(cs[i]) {
            return true;
        }
        i = i + 1;
    }
    false
}

/// Reads the tokens of a query.
fn scan_query_tokens(trimmed: &str) -> (r: (Option<String>, Option<String>, Option<String>, Option<i64>))
    ensures
        ({
            let s = scan_tokens(words_spec(trimmed@));
            &&& match (r.0, s.0) {
                (Some(a), Some(b)) => a@ == b,
                (None, None) => true,
                _ => false,
            }
            &&& match (r.1, s.1) {
                (Some(a), Some(b)) => a@ == b,
                (None, None) => true,
                _ => false,
            }
            &&& match (r.2, s.2) {
                (Some(a), Some(b)) => a@ == b,
                (None, None) => true,
                _ => false,
            }
            &&& r.3 == s.3
        }),
{
    let tokens = split_whitespace(trimmed);
    let ghost words = tokens@.map_values(|w: String| w@);
    let mut node_id: Option<String> = None;
    let mut org: Option<String> = None;
    let mut user: Option<String> = None;
    let mut number: Option<i64> = None;
    let mut i: usize = 0;
    while i < tokens.len()
        invariant
            i <= tokens@.len(),
            words == tokens@.map_values(|w: String| w@),
            words == words_spec(trimmed@),
            ({
                let s = scan_tokens(words.take(i as int));
                &&& match (node_id, s.0) {
                    (Some(a), Some(b)) => a@ == b,
                    (None, None) => true,
                    _ => false,
                }
                &&& match (org, s.1) {
                    (Some(a), Some(b)) => a@ == b,
                    (None, None) => true,
                    _ => false,
                }
                &&& match (user, s.2) {
                    (Some(a), Some(b)) => a@ == b,
                    (None, None) => true,
                    _ => false,
                }
                &&& number == s.3
            }),
        decreases tokens.len() - i,
    {
        let token = tokens[i].as_str();
        proof {
            assert(words.take(i + 1).drop_last() =~= words.take(i as int));
            assert(words.take(i + 1).last() == token@);
        }
        match strip_prefix(token, "node:") {
            Some(value) => {
                node_id = Some(trim(value.as_str()));
            },
            None => match strip_prefix(token, "org:") {
                Some(value) => {
                    org = Some(trim(value.as_str()));
                },
                None => match strip_prefix(token, "user:") {
                    Some(value) => {
                        user = Some(trim(value.as_str()));
                    },
                    None => match strip_prefix(token, "number:") {
                        Some(value) => {
                            let v = trim(value.as_str());
                            number = parse_i64(v.as_str());
                        },
                        None => {},
                    },
                },
            },
        }
        i = i + 1;
    }
    assert(words.take(tokens@.len() as int) =~= words);
    (node_id, org, user, number)
}

/// The project a query names, or the query error.
pub fn parse_project_locator(host: &HostConfig, query: &str) -> (r: Result<
    ProjectLocator,
    GitHubError,
>)
    ensures
        match r {
            Ok(l) => project_locator_of(query@) == Some(l@),
            Err(e) => project_locator_of(query@) is None && is_project_query_error(e, *host),
        },
{
    let trimmed = trim(query);
    if trimmed.as_str().is_empty() {
        return Err(project_query_error(host));
    }
    assert(trimmed@.len() > 0);
    match parse_project_url(trimmed.as_str()) {
        Some(l) => return Ok(l),
        None => {},
    }
    let scanned = scan_query_tokens(trimmed.as_str());
    let (mut node_id, org, user, number) = scanned;
    if node_id.is_none() && org.is_none() && user.is_none() && !contains_char(
        trimmed.as_str(),
        ':',
    ) && !contains_white_space(trimmed.as_str()) {
        node_id = Some(trimmed.clone());
    }
    match (node_id, org, user, number) {
        (Some(n), None, None, None) => {
            if !n.as_str().is_empty() {
                Ok(ProjectLocator::NodeId(n))
            } else {
                Err(project_query_error(host))
            }
        },
        (None, Some(o), None, Some(num)) => {
            if !o.as_str().is_empty() && num > 0 {
                Ok(ProjectLocator::Organization { owner: o, number: num })
            } else {
                Err(project_query_error(host))
            }
        },
        (None, None, Some(u), Some(num)) => {
            if !u.as_str().is_empty() && num > 0 {
                Ok(ProjectLocator::User { owner: u, number: num })
            } else {
                Err(project_query_error(host))
            }
        },
        _ => Err(project_query_error(host)),
    }
}

// ---------------------------------------------------------------------------
// Project URLs
// ---------------------------------------------------------------------------

/// The web page of a project named by owner and number; a node id names no
/// page.
pub open spec fn project_url_of(host: HostConfig, l: (LocatorKind, Seq<char>, i64)) -> Option<
    Seq<char>,
> {
    match l.0 {
        LocatorKind::NodeId => None,
        LocatorKind::Organization => Some(
            web_base_of(host) + "/orgs/"@ + l.1 + "/projects/"@ + signed_decimal_seq(l.2 as int),
        ),
        LocatorKind::User => Some(
            web_base_of(host) + "/users/"@ + l.1 + "/projects/"@ + signed_decimal_seq(l.2 as int),
        ),
    }
}

pub open spec fn node_preview_message() -> Seq<char> {
    "project node IDs cannot be previewed as a GitHub project URL"@
}

/// The web page of a project.
pub fn project_url(host: &HostConfig, locator: &ProjectLocator) -> (r: Result<String, GitHubError>)
    ensures
        match (r, project_url_of(*host, locator@)) {
            (Ok(url), Some(u)) => url@ == u,
            (Err(e), None) => e matches GitHubError::Parse { host: h, message: m } && h == host.name
                && m@ == node_preview_message(),
            _ => false,
        },
{
    let web_base = host.web_base();
    match locator {
        ProjectLocator::Organization { owner, number } => {
            let mut url = concat2(web_base.as_str(), "/orgs/");
            url.append(owner.as_str());
            url.append("/projects/");
            let n = i64_to_string(*number);
            url.append(n.as_str());
            Ok(url)
        },
        ProjectLocator::User { owner, number } => {
            let mut url = concat2(web_base.as_str(), "/users/");
            url.append(owner.as_str());
            url.append("/projects/");
            let n = i64_to_string(*number);
            url.append(n.as_str());
            Ok(url)
        },
        ProjectLocator::NodeId(_) => Err(
            GitHubError::Parse {
                host: host.name.clone(),
                message: "project node IDs cannot be previewed as a GitHub project URL".to_owned(),
            },
        ),
    }
}

/// The web page of the project a query names.
pub fn project_preview_url(host: &HostConfig, query: &str) -> (r: Result<String, GitHubError>)
    ensures
        match project_locator_of(query@) {
            None => r matches Err(e) && is_project_query_error(e, *host),
            Some(l) => match (r, project_url_of(*host, l)) {
                (Ok(url), Some(u)) => url@ == u,
                (Err(e), None) => e matches GitHubError::Parse { host: h, message: m } && h
                    == host.name && m@ == node_preview_message(),
                _ => false,
            },
        },
{
    match parse_project_locator(host, query) {
        Ok(locator) => project_url(host, &locator),
        Err(e) => Err(e),
    }
}

/// The path segments of a project page: its owner kind, the owner, the
/// word `projects` and the number, each followed by a slash but the last.
proof fn lemma_project_path_pieces(kind_segment: Seq<char>, owner: Seq<char>, number: i64)
    requires
        kind_segment.len() > 0,
        !kind_segment.contains('/'),
        owner.len() > 0,
        !owner.contains('/'),
    ensures
        pieces_spec(
            kind_segment + "/"@ + owner + "/projects/"@ + signed_decimal_seq(number as int),
            '/',
        ) == seq![kind_segment, owner, "projects"@, signed_decimal_seq(number as int)],
{
    reveal_strlit("/");
    reveal_strlit("/projects/");
    reveal_strlit("projects");
    let d = signed_decimal_seq(number as int);
    let projects = "projects"@;
    lemma_parse_signed_decimal(number);
    assert(!d.contains('/')) by {
        if d.contains('/') {
            let k = choose|k: int| 0 <= k < d.len() && d[k] == '/';
            assert(d[k] == '-' || is_ascii_digit(d[k]));
        }
    }
    assert(!projects.contains('/')) by {
        if projects.contains('/') {
            let k = choose|k: int| 0 <= k < projects.len() && projects[k] == '/';
            assert(projects[k] != '/');
        }
    }
    let r5 = seq!['/'] + d;
    let r4 = projects + r5;
    let r3 = seq!['/'] + r4;
    let r2 = owner + r3;
    let r1 = seq!['/'] + r2;
    assert(kind_segment + "/"@ + owner + "/projects/"@ + d =~= kind_segment + r1);
    let empty = Seq::<char>::empty();
    lemma_pieces_word(kind_segment, r1, '/', empty);
    assert(empty + kind_segment =~= kind_segment);
    lemma_pieces_separator(r2, '/', kind_segment);
    lemma_pieces_word(owner, r3, '/', empty);
    assert(empty + owner =~= owner);
    lemma_pieces_separator(r4, '/', owner);
    lemma_pieces_word(projects, r5, '/', empty);
    assert(empty + projects =~= projects);
    lemma_pieces_separator(d, '/', projects);
    lemma_pieces_word(d, empty, '/', empty);
    assert(d + empty =~= d);
    assert(empty + d =~= d);
    assert(pieces_from(empty, '/', d) == seq![d]);
    assert(seq![kind_segment] + (seq![owner] + (seq![projects] + seq![d])) =~= seq![
        kind_segment,
        owner,
        projects,
        d,
    ]);
}

/// What previewing a project query gives: its page, or the message of the
/// error (`GitHubError::message`) when the query names no project or names
/// one by node id.
pub open spec fn project_preview_of(host: HostConfig, query: Seq<char>) -> Result<
    Seq<char>,
    Seq<char>,
> {
    let parse_failure = "GitHub API response could not be parsed for "@ + host.name@ + ": "@;
    match project_locator_of(query) {
        None => Err(parse_failure + project_query_message()),
        Some(l) => match project_url_of(host, l) {
            Some(u) => Ok(u),
            None => Err(parse_failure + node_preview_message()),
        },
    }
}

/// A project's web page names the project again: the URL that
/// `project_url` builds is read back by `parse_project_url` as the same
/// owner kind, owner and number, as long as the owner is one path segment
/// and the host name holds no slash.
pub proof fn lemma_project_url_parses_back(host: HostConfig, locator: (LocatorKind, Seq<char>, i64))
    requires
        locator.0 != LocatorKind::NodeId,
        locator.1.len() > 0,
        !locator.1.contains('/'),
        !host.hostname@.contains('/'),
    ensures
        project_url_of(host, locator) matches Some(url) && project_url_locator(url) == Some(locator),
{
    reveal_strlit("https");
    reveal_strlit("http");
    reveal_strlit("https://");
    reveal_strlit("http://");
    reveal_strlit("://");
    reveal_strlit("://github.com");
    reveal_strlit("github.com");
    reveal_strlit("/orgs/");
    reveal_strlit("/users/");
    reveal_strlit("orgs");
    reveal_strlit("users");
    reveal_strlit("/");
    reveal_strlit("/projects/");
    reveal_strlit("projects");
    let owner = locator.1;
    let d = signed_decimal_seq(locator.2 as int);
    let kind_segment = if locator.0 == LocatorKind::Organization {
        "orgs"@
    } else {
        "users"@
    };
    let web_host = match host.kind {
        HostKind::GitHub => "github.com"@,
        HostKind::Ghes => host.hostname@,
    };
    let url = project_url_of(host, locator)->0;
    let path = kind_segment + "/"@ + owner + "/projects/"@ + d;
    let rest = web_host + (seq!['/'] + path);
    let scheme = scheme_name(host.scheme);
    assert(url =~= scheme + "://"@ + rest);
    assert(!web_host.contains('/')) by {
        if web_host.contains('/') {
            let k = choose|k: int| 0 <= k < web_host.len() && web_host[k] == '/';
            assert(host.kind == HostKind::GitHub);
            assert("github.com"@[k] != '/');
        }
    }
    assert(!kind_segment.contains('/')) by {
        if kind_segment.contains('/') {
            let k = choose|k: int| 0 <= k < kind_segment.len() && kind_segment[k] == '/';
            assert(kind_segment[k] != '/');
        }
    }
    // The scheme comes off, then the host up to the first slash.
    let after_scheme = if host.scheme == Scheme::Https {
        assert(url.take(8) =~= "https://"@);
        assert(url.skip(8) =~= rest);
        url.skip(8)
    } else {
        assert(url[4] == ':');
        assert(!has_prefix(url, "https://"@)) by {
            if has_prefix(url, "https://"@) {
                assert(url.take(8)[4] == "https://"@[4]);
            }
        }
        assert(url.take(7) =~= "http://"@);
        assert(url.skip(7) =~= rest);
        url.skip(7)
    };
    assert(project_url_path(url) == Some(path)) by {
        assert(after_scheme == rest);
        let i = web_host.len() as int;
        assert(rest[i] == '/');
        rest.index_of_first_ensures('/');
        let found = rest.index_of_first('/');
        assert(found == Some(i)) by {
            let j = found->0;
            if j < i {
                assert(rest[j] == web_host[j]);
            }
        }
        assert(rest.skip(i + 1) =~= path);
    }
    lemma_project_path_pieces(kind_segment, owner, locator.2);
    lemma_parse_signed_decimal(locator.2);
}

// ---------------------------------------------------------------------------
// Items of a project
// ---------------------------------------------------------------------------

/// A closed or merged item is closed; anything else is open.
pub open spec fn normalized_state(state: Seq<char>) -> Seq<char> {
    if state == "CLOSED"@ || state == "MERGED"@ {
        "closed"@
    } else {
        "open"@
    }
}

pub fn normalize_state(state: &str) -> (r: &'static str)
    ensures
        r@ == normalized_state(state@),
{
    if str_eq(state, "CLOSED") || str_eq(state, "MERGED") {
        "closed"
    } else {
        "open"
    }
}

/// What `chrono` reads of an RFC 3339 time stamp: the instant as seconds
/// since the epoch and nanoseconds within the second, and the instant
/// written back in RFC 3339 in UTC; `None` when the text is no RFC 3339
/// time stamp.
pub uninterp spec fn rfc3339_utc(text: Seq<char>) -> Option<(i64, u32, Seq<char>)>;

/// `chrono::DateTime::parse_from_rfc3339`, then `with_timezone(&Utc)`; of
/// the result its `timestamp`, `timestamp_subsec_nanos` and `to_rfc3339`.
/// Claimed: the result is `rfc3339_utc` of the text, a function of the text
/// alone.
#[verifier::external_body]
pub(crate) fn parse_rfc3339_utc(text: &str) -> (r: Option<(i64, u32, String)>)
    ensures
        stamp_view(r) == rfc3339_utc(text@),
{
    match chrono::DateTime::parse_from_rfc3339(text) {
        Ok(value) => {
            let utc = value.with_timezone(&chrono::Utc);
            Some((utc.timestamp(), utc.timestamp_subsec_nanos(), utc.to_rfc3339()))
        },
        Err(_) => None,
    }
}

pub open spec fn stamp_view(t: Option<(i64, u32, String)>) -> Option<(i64, u32, Seq<char>)> {
    match t {
        Some(v) => Some((v.0, v.1, v.2@)),
        None => None,
    }
}

/// Instants in order: by second, then by nanosecond.
pub open spec fn instant_lt(a: (i64, u32, Seq<char>), b: (i64, u32, Seq<char>)) -> bool {
    a.0 < b.0 || (a.0 == b.0 && a.1 < b.1)
}

/// The later of two time stamps: by instant when both read as RFC 3339,
/// written in UTC; else by their text.
pub open spec fn later_stamp(
    left: Seq<char>,
    right: Seq<char>,
    left_time: Option<(i64, u32, Seq<char>)>,
    right_time: Option<(i64, u32, Seq<char>)>,
) -> Seq<char> {
    match (left_time, right_time) {
        (Some(l), Some(r)) => if instant_lt(l, r) {
            r.2
        } else {
            l.2
        },
        _ => if seq_lt(left, right) {
            right
        } else {
            left
        },
    }
}

/// Picks the later of two time stamps, given what each reads as.
pub fn pick_later_stamp(
    left: &str,
    right: &str,
    left_time: &Option<(i64, u32, String)>,
    right_time: &Option<(i64, u32, String)>,
) -> (r: String)
    ensures
        r@ == later_stamp(left@, right@, stamp_view(*left_time), stamp_view(*right_time)),
{
    match (left_time, right_time) {
        (Some(l), Some(r)) => {
            if l.0 < r.0 || (l.0 == r.0 && l.1 < r.1) {
                r.2.clone()
            } else {
                l.2.clone()
            }
        },
        _ => {
            if str_lt(left, right) {
                right.to_owned()
            } else {
                left.to_owned()
            }
        },
    }
}

/// The later of two time stamps.
pub fn latest_timestamp(left: &str, right: &str) -> (r: String)
    ensures
        r@ == later_stamp(left@, right@, rfc3339_utc(left@), rfc3339_utc(right@)),
{
    let left_time = parse_rfc3339_utc(left);
    let right_time = parse_rfc3339_utc(right);
    pick_later_stamp(left, right, &left_time, &right_time)
}

// ---------------------------------------------------------------------------
// The answer of a project query
// ---------------------------------------------------------------------------

#[derive(Clone, Debug, PartialEq, Eq)]
pub struct ProjectUser {
    pub login: String,
    pub avatar_url: Option<String>,
}

#[derive(Clone, Debug, PartialEq, Eq)]
pub struct ProjectLabel {
    pub name: String,
}

/// The issue or pull request behind a project item.
#[derive(Clone, Debug, PartialEq, Eq)]
pub struct ProjectItemContent {
    pub typename: String,
    pub id: String,
    pub number: i64,
    pub title: String,
    pub url: String,
    pub state: String,
    pub is_draft: Option<bool>,
    pub merged: Option<bool>,
    pub merged_at: Option<String>,
    pub created_at: String,
    pub updated_at: String,
    pub closed_at: Option<String>,
    pub comment_count: i64,
    pub repository_name_with_owner: String,
    pub author: Option<ProjectUser>,
    pub labels: Vec<Option<ProjectLabel>>,
    pub assignees: Vec<Option<ProjectUser>>,
}

#[derive(Clone, Debug, PartialEq, Eq)]
pub struct ProjectItem {
    pub is_archived: bool,
    pub updated_at: String,
    pub content: Option<ProjectItemContent>,
}

/// One page of a project's items.
#[derive(Clone, Debug, PartialEq, Eq)]
pub struct ProjectItems {
    pub has_next_page: bool,
    pub end_cursor: Option<String>,
    pub nodes: Vec<Option<ProjectItem>>,
}

#[derive(Clone, Debug, PartialEq, Eq)]
pub struct Project {
    pub items: Option<ProjectItems>,
}

#[derive(Clone, Debug, PartialEq, Eq)]
pub struct ProjectOwner {
    pub project_v2: Option<Project>,
}

/// The project, found by node id, by organization or by user.
#[derive(Clone, Debug, PartialEq, Eq)]
pub struct ProjectData {
    pub node: Option<Project>,
    pub organization: Option<ProjectOwner>,
    pub user: Option<ProjectOwner>,
}

#[derive(Clone, Debug, PartialEq, Eq)]
pub struct ProjectResponse {
    pub data: Option<ProjectData>,
    pub errors: Option<Vec<GraphqlError>>,
}

/// The items of one page, and where the next page starts.
#[derive(Clone, Debug, PartialEq, Eq)]
pub struct ProjectItemsPage {
    pub items: Vec<FetchedStreamItem>,
    pub has_next_page: bool,
    pub end_cursor: Option<String>,
}

/// The project an answer holds for a query of the given kind.
pub open spec fn project_of(data: ProjectData, kind: LocatorKind) -> Option<Project> {
    match kind {
        LocatorKind::NodeId => data.node,
        LocatorKind::Organization => match data.organization {
            Some(owner) => owner.project_v2,
            None => None,
        },
        LocatorKind::User => match data.user {
            Some(owner) => owner.project_v2,
            None => None,
        },
    }
}

impl ProjectData {
    pub fn project(self, locator: &ProjectLocator) -> (r: Option<Project>)
        ensures
            r == project_of(self, locator@.0),
    {
        match locator {
            ProjectLocator::NodeId(_) => self.node,
            ProjectLocator::Organization { .. } => match self.organization {
                Some(owner) => owner.project_v2,
                None => None,
            },
            ProjectLocator::User { .. } => match self.user {
                Some(owner) => owner.project_v2,
                None => None,
            },
        }
    }
}

/// The kind of item a content type names; other content (drafts, redacted
/// items) is skipped.
pub open spec fn project_item_type(typename: Seq<char>) -> Option<ItemType> {
    if typename == "PullRequest"@ {
        Some(ItemType::PullRequest)
    } else if typename == "Issue"@ {
        Some(ItemType::Issue)
    } else {
        None
    }
}

pub open spec fn label_names_of(labels: Seq<Option<ProjectLabel>>) -> Seq<String> {
    somes(labels).map_values(|l: ProjectLabel| l.name)
}

pub open spec fn assignee_people_of(users: Seq<Option<ProjectUser>>) -> Seq<ItemPerson> {
    somes(users).map_values(|u: ProjectUser| ItemPerson { login: u.login, avatar_url: u.avatar_url })
}

/// What a project item becomes, given its content, the repository owner
/// and name, and its kind.
pub open spec fn is_project_fetched(
    out: FetchedStreamItem,
    item: ProjectItem,
    content: ProjectItemContent,
    owner: Seq<char>,
    name: Seq<char>,
    item_type: ItemType,
) -> bool {
    &&& out.node_id == Some(content.id)
    &&& out.repository_owner@ == owner
    &&& out.repository_name@ == name
    &&& out.number == content.number
    &&& out.item_type == item_type
    &&& out.title == content.title
    &&& out.author_login == (match content.author {
        Some(a) => Some(a.login),
        None => None,
    })
    &&& out.author_avatar_url == (match content.author {
        Some(a) => a.avatar_url,
        None => None,
    })
    &&& out.html_url == content.url
    &&& out.api_url is None
    &&& out.state@ == normalized_state(content.state@)
    &&& out.is_draft == content.is_draft
    &&& out.is_merged == content.merged
    &&& (if item_type == ItemType::PullRequest {
        out.review_status matches Some(s) && s@ == "unknown"@
    } else {
        out.review_status is None
    })
    &&& out.comment_count == content.comment_count
    &&& out.created_at_github == content.created_at
    &&& out.updated_at_github@ == later_stamp(
        content.updated_at@,
        item.updated_at@,
        rfc3339_utc(content.updated_at@),
        rfc3339_utc(item.updated_at@),
    )
    &&& out.closed_at_github == content.closed_at
    &&& out.merged_at_github == content.merged_at
    &&& out.labels@ == label_names_of(content.labels@)
    &&& out.assignees@ == assignee_people_of(content.assignees@)
    &&& out.review_requests@.len() == 0
    &&& out.reviewers@.len() == 0
    &&& out.participants@.len() == 0
    &&& out.mentions@.len() == 0
    &&& !out.graphql_enriched
}

pub open spec fn project_repository_message() -> Seq<char> {
    "project item repository name did not include owner and repository"@
}

/// An item whose content names no `owner/name` repository fails.
pub open spec fn project_item_fails(item: ProjectItem) -> bool {
    item.content matches Some(c) && split_once_char_spec(c.repository_name_with_owner@, '/') is None
}

/// An item becomes a stream item when it has content of a known kind in a
/// named repository.
pub open spec fn project_item_kept(item: ProjectItem) -> bool {
    item.content matches Some(c) && split_once_char_spec(c.repository_name_with_owner@, '/') is Some
        && project_item_type(c.typename@) is Some
}

/// `out` is what the kept item `item` becomes.
pub open spec fn is_fetched_of(out: FetchedStreamItem, item: ProjectItem) -> bool {
    item.content matches Some(c) && split_once_char_spec(c.repository_name_with_owner@, '/') matches Some(p)
        && project_item_type(c.typename@) matches Some(t) && is_project_fetched(out, item, c, p.0, p.1, t)
}

/// A kept project item is stored as its content says: in the repository
/// that `owner/name` names (split at the first slash), as a pull request or
/// an issue as its type name says, closed when closed or merged and open
/// otherwise, with its own number, title and created and closed time
/// stamps; its update time is the later of the content's and the item's,
/// when both read as instants.
pub proof fn lemma_project_fetched_keeps_content(out: FetchedStreamItem, item: ProjectItem)
    requires
        is_fetched_of(out, item),
    ensures
        ({
            let c = item.content->0;
            &&& out.repository_owner@ + seq!['/'] + out.repository_name@ == c.repository_name_with_owner@
            &&& !out.repository_owner@.contains('/')
            &&& (out.item_type == ItemType::PullRequest) == (c.typename@ == "PullRequest"@)
            &&& (out.item_type == ItemType::Issue) == (c.typename@ == "Issue"@)
            &&& (c.state@ == "CLOSED"@ || c.state@ == "MERGED"@) ==> out.state@ == "closed"@
            &&& !(c.state@ == "CLOSED"@ || c.state@ == "MERGED"@) ==> out.state@ == "open"@
            &&& out.number == c.number
            &&& out.title@ == c.title@
            &&& out.created_at_github@ == c.created_at@
            &&& out.closed_at_github == c.closed_at
            &&& match (rfc3339_utc(c.updated_at@), rfc3339_utc(item.updated_at@)) {
                (Some(l), Some(r)) => (out.updated_at_github@ == l.2 && !instant_lt(l, r)) || (
                out.updated_at_github@ == r.2 && !instant_lt(r, l)),
                _ => true,
            }
        }),
{
    let c = item.content->0;
    let whole = c.repository_name_with_owner@;
    whole.index_of_first_ensures('/');
    let i = whole.index_of_first('/')->0;
    assert(whole.take(i) + seq!['/'] + whole.skip(i + 1) =~= whole);
    assert(!whole.take(i).contains('/')) by {
        if whole.take(i).contains('/') {
            let k = choose|k: int| 0 <= k < whole.take(i).len() && whole.take(i)[k] == '/';
            assert(whole[k] == '/');
        }
    }
    reveal_strlit("PullRequest");
    reveal_strlit("Issue");
    assert("PullRequest"@.len() != "Issue"@.len());
}

fn project_label_names(labels: &Vec<Option<ProjectLabel>>) -> (r: Vec<String>)
    ensures
        r@ == label_names_of(labels@),
{
    let mut r: Vec<String> = Vec::new();
    let mut i: usize = 0;
    while i < labels.len()
        invariant
            i <= labels@.len(),
            r@ == label_names_of(labels@.take(i as int)),
        decreases labels.len() - i,
    {
        proof {
            lemma_somes_step(labels@, i as int);
        }
        match &labels[i] {
            Some(label) => {
                let ghost before = somes(labels@.take(i as int));
                r.push(label.name.clone());
                assert(before.push(*label).map_values(|l: ProjectLabel| l.name) =~= before.map_values(
                    |l: ProjectLabel| l.name,
                ).push(label.name));
            },
            None => {},
        }
        i = i + 1;
    }
    assert(labels@.take(labels@.len() as int) =~= labels@);
    r
}

fn project_assignees(users: &Vec<Option<ProjectUser>>) -> (r: Vec<ItemPerson>)
    ensures
        r@ == assignee_people_of(users@),
{
    let mut r: Vec<ItemPerson> = Vec::new();
    let mut i: usize = 0;
    while i < users.len()
        invariant
            i <= users@.len(),
            r@ == assignee_people_of(users@.take(i as int)),
        decreases users.len() - i,
    {
        proof {
            lemma_somes_step(users@, i as int);
        }
        match &users[i] {
            Some(user) => {
                let ghost before = somes(users@.take(i as int));
                let person = ItemPerson { login: user.login.clone(), avatar_url: user.avatar_url.clone() };
                r.push(person);
                assert(before.push(*user).map_values(
                    |u: ProjectUser| ItemPerson { login: u.login, avatar_url: u.avatar_url },
                ) =~= before.map_values(
                    |u: ProjectUser| ItemPerson { login: u.login, avatar_url: u.avatar_url },
                ).push(person));
            },
            None => {},
        }
        i = i + 1;
    }
    assert(users@.take(users@.len() as int) =~= users@);
    r
}

/// Turns one project item into a stream item: `None` for an item without
/// content or of another kind, an error when its repository is not named
/// as `owner/name`.
pub fn project_item_to_fetched(host: &HostConfig, item: &ProjectItem) -> (r: Result<
    Option<FetchedStreamItem>,
    GitHubError,
>)
    ensures
        project_item_fails(*item) ==> (r matches Err(GitHubError::Parse { host: h, message: m })
            && h == host.name && m@ == project_repository_message()),
        project_item_kept(*item) ==> (r matches Ok(Some(out)) && is_fetched_of(out, *item)),
        !project_item_fails(*item) && !project_item_kept(*item) ==> r matches Ok(None),
{
    let content = match &item.content {
        Some(c) => c,
        None => return Ok(None),
    };
    let (repository_owner, repository_name) = match split_once_char(
        content.repository_name_with_owner.as_str(),
        '/',
    ) {
        Some(p) => p,
        None => {
            return Err(
                GitHubError::Parse {
                    host: host.name.clone(),
                    message: "project item repository name did not include owner and repository".to_owned(),
                },
            );
        },
    };
    let item_type = if str_eq(content.typename.as_str(), "PullRequest") {
        ItemType::PullRequest
    } else if str_eq(content.typename.as_str(), "Issue") {
        ItemType::Issue
    } else {
        return Ok(None);
    };
    let review_status = match item_type {
        ItemType::PullRequest => Some("unknown".to_owned()),
        _ => None,
    };
    let updated_at_github = latest_timestamp(content.updated_at.as_str(), item.updated_at.as_str());
    let (author_login, author_avatar_url) = match &content.author {
        Some(a) => (Some(a.login.clone()), a.avatar_url.clone()),
        None => (None, None),
    };
    let out = FetchedStreamItem {
        node_id: Some(content.id.clone()),
        repository_owner,
        repository_name,
        number: content.number,
        item_type,
        title: content.title.clone(),
        author_login,
        author_avatar_url,
        html_url: content.url.clone(),
        api_url: None,
        state: normalize_state(content.state.as_str()).to_owned(),
        is_draft: content.is_draft,
        is_merged: content.merged,
        review_status,
        comment_count: content.comment_count,
        created_at_github: content.created_at.clone(),
        updated_at_github,
        closed_at_github: content.closed_at.clone(),
        merged_at_github: content.merged_at.clone(),
        labels: project_label_names(&content.labels),
        assignees: project_assignees(&content.assignees),
        review_requests: Vec::new(),
        reviewers: Vec::new(),
        participants: Vec::new(),
        mentions: Vec::new(),
        graphql_enriched: false,
    };
    Ok(Some(out))
}

/// The listed items of a page: those that are there, not archived, and kept.
pub open spec fn listed_items(nodes: Seq<Option<ProjectItem>>) -> Seq<ProjectItem>
    decreases nodes.len(),
{
    if nodes.len() == 0 {
        seq![]
    } else {
        let rest = listed_items(nodes.drop_last());
        match nodes.last() {
            Some(it) => if !it.is_archived && project_item_kept(it) {
                rest.push(it)
            } else {
                rest
            },
            None => rest,
        }
    }
}

/// Some item of the page that is there and not archived fails.
pub open spec fn page_fails(nodes: Seq<Option<ProjectItem>>) -> bool {
    exists|k: int|
        0 <= k < nodes.len() && ((#[trigger] nodes[k]) matches Some(it) && !it.is_archived
            && project_item_fails(it))
}

/// The stream items of a page, or the error of its first failing item.
fn page_items(host: &HostConfig, nodes: &Vec<Option<ProjectItem>>) -> (r: Result<
    Vec<FetchedStreamItem>,
    GitHubError,
>)
    ensures
        match r {
            Ok(items) => !page_fails(nodes@) && items@.len() == listed_items(nodes@).len() && (
            forall|k: int|
                0 <= k < items@.len() ==> is_fetched_of(
                    #[trigger] items@[k],
                    listed_items(nodes@)[k],
                )),
            Err(e) => page_fails(nodes@) && (e matches GitHubError::Parse { host: h, message: m }
                && h == host.name && m@ == project_repository_message()),
        },
{
    let mut items: Vec<FetchedStreamItem> = Vec::new();
    let mut i: usize = 0;
    while i < nodes.len()
        invariant
            i <= nodes@.len(),
            !page_fails(nodes@.take(i as int)),
            items@.len() == listed_items(nodes@.take(i as int)).len(),
            forall|k: int|
                0 <= k < items@.len() ==> is_fetched_of(
                    #[trigger] items@[k],
                    listed_items(nodes@.take(i as int))[k],
                ),
        decreases nodes.len() - i,
    {
        proof {
            assert(nodes@.take(i + 1).drop_last() =~= nodes@.take(i as int));
        }
        match &nodes[i] {
            Some(item) => {
                if !item.is_archived {
                    match project_item_to_fetched(host, item) {
                        Ok(Some(out)) => {
                            items.push(out);
                        },
                        Ok(None) => {},
                        Err(e) => {
                            assert((nodes@[i as int]) matches Some(it) && !it.is_archived
                                && project_item_fails(it));
                            return Err(e);
                        },
                    }
                }
            },
            None => {},
        }
        proof {
            assert forall|k: int| 0 <= k < i + 1 implies !((#[trigger] nodes@.take(i + 1)[k]) matches Some(
                it,
            ) && !it.is_archived && project_item_fails(it)) by {
                if k < i {
                    assert(nodes@.take(i + 1)[k] == nodes@.take(i as int)[k]);
                }
            }
        }
        i = i + 1;
    }
    assert(nodes@.take(nodes@.len() as int) =~= nodes@);
    Ok(items)
}

/// What an answer for a page of a project says: an error naming every
/// message when the answer reports errors; an empty last page when the
/// project or its items are missing; else the listed items of the page,
/// unless one of them fails.
pub fn parse_project_items_response(
    host: &HostConfig,
    locator: &ProjectLocator,
    response: ProjectResponse,
) -> (r: Result<ProjectItemsPage, GitHubError>)
    ensures
        match response.errors {
            Some(errors) => r matches Err(GitHubError::Parse { host: h, message: m }) && h
                == host.name && m@ == joined_messages(errors@),
            None => {
                let project = match response.data {
                    Some(data) => project_of(data, locator@.0),
                    None => None,
                };
                match project {
                    Some(Project { items: Some(page) }) => match r {
                        Ok(out) => !page_fails(page.nodes@) && out.has_next_page == page.has_next_page
                            && out.end_cursor == page.end_cursor && out.items@.len() == listed_items(
                            page.nodes@,
                        ).len() && (forall|k: int|
                            0 <= k < out.items@.len() ==> is_fetched_of(
                                #[trigger] out.items@[k],
                                listed_items(page.nodes@)[k],
                            )),
                        Err(e) => page_fails(page.nodes@) && (e matches GitHubError::Parse {
                            host: h,
                            message: m,
                        } && h == host.name && m@ == project_repository_message()),
                    },
                    _ => r matches Ok(out) && out.items@.len() == 0 && !out.has_next_page
                        && out.end_cursor is None,
                }
            },
        },
{
    match &response.errors {
        Some(errors) => {
            let message = join_messages(errors);
            return Err(GitHubError::Parse { host: host.name.clone(), message });
        },
        None => {},
    }
    let empty = ProjectItemsPage { items: Vec::new(), has_next_page: false, end_cursor: None };
    let project = match response.data {
        Some(data) => data.project(locator),
        None => None,
    };
    let project = match project {
        Some(p) => p,
        None => return Ok(empty),
    };
    let page = match project.items {
        Some(page) => page,
        None => return Ok(empty),
    };
    match page_items(host, &page.nodes) {
        Ok(items) => Ok(
            ProjectItemsPage { items, has_next_page: page.has_next_page, end_cursor: page.end_cursor },
        ),
        Err(e) => Err(e),
    }
}

// ---------------------------------------------------------------------------
// Requests for pages
// ---------------------------------------------------------------------------

/// The fields asked of each item of a project.
pub const PROJECT_ITEMS_FRAGMENT: &'static str = r#"
fragment ProjectItems on ProjectV2 {
  items(first: $first, after: $after) {
    pageInfo {
      hasNextPage
      endCursor
    }
    nodes {
      id
      type
      isArchived
      updatedAt
      content {
        ... on Issue {
          id
          number
          title
          url
          state
          createdAt
          updatedAt
          closedAt
          comments {
            totalCount
          }
          repository {
            nameWithOwner
          }
          author {
            login
            avatarUrl
          }
          labels(first: 20) {
            nodes {
              name
            }
          }
          assignees(first: 20) {
            nodes {
              login
              avatarUrl
            }
          }
        }
        ... on PullRequest {
          id
          number
          title
          url
          state
          isDraft
          merged
          mergedAt
          createdAt
          updatedAt
          closedAt
          comments {
            totalCount
          }
          repository {
            nameWithOwner
          }
          author {
            login
            avatarUrl
          }
          labels(first: 20) {
            nodes {
              name
            }
          }
          assignees(first: 20) {
            nodes {
              login
              avatarUrl
            }
          }
        }
      }
    }
  }
}
"#;

pub const PROJECT_BY_ID_QUERY: &'static str = r#"
query ProjectById($projectId: ID!, $first: Int!, $after: String) {
  node(id: $projectId) {
    ... on ProjectV2 {
      ...ProjectItems
    }
  }
}
"#;

pub const PROJECT_BY_ORG_QUERY: &'static str = r#"
query ProjectByOrg($owner: String!, $number: Int!, $first: Int!, $after: String) {
  organization(login: $owner) {
    projectV2(number: $number) {
      ...ProjectItems
    }
  }
}
"#;

pub const PROJECT_BY_USER_QUERY: &'static str = r#"
query ProjectByUser($owner: String!, $number: Int!, $first: Int!, $after: String) {
  user(login: $owner) {
    projectV2(number: $number) {
      ...ProjectItems
    }
  }
}
"#;

/// The variables of a page request; absent ones are left out.
#[derive(Clone, Debug, PartialEq, Eq)]
pub struct ProjectVariables {
    pub project_id: Option<String>,
    pub owner: Option<String>,
    pub number: Option<i64>,
    pub first: usize,
    pub after: Option<String>,
}

/// A request for one page of a project's items.
#[derive(Clone, Debug, PartialEq, Eq)]
pub struct ProjectRequest {
    pub query: String,
    pub variables: ProjectVariables,
}

/// The query that finds a project named the given way.
pub open spec fn project_query_of(kind: LocatorKind) -> Seq<char> {
    let base = match kind {
        LocatorKind::NodeId => PROJECT_BY_ID_QUERY@,
        LocatorKind::Organization => PROJECT_BY_ORG_QUERY@,
        LocatorKind::User => PROJECT_BY_USER_QUERY@,
    };
    base + "\n"@ + PROJECT_ITEMS_FRAGMENT@
}

fn copy_option(s: &Option<String>) -> (r: Option<String>)
    ensures
        r == *s,
{
    match s {
        Some(v) => Some(v.clone()),
        None => None,
    }
}

impl ProjectRequest {
    /// The request for `first` items after the cursor `after`.
    pub fn new(locator: &ProjectLocator, first: usize, after: &Option<String>) -> (r: Self)
        ensures
            r.query@ == project_query_of(locator@.0),
            r.variables.first == first,
            r.variables.after == *after,
            match *locator {
                ProjectLocator::NodeId(id) => r.variables.project_id == Some(id)
                    && r.variables.owner is None && r.variables.number is None,
                ProjectLocator::Organization { owner, number } => r.variables.project_id is None
                    && r.variables.owner == Some(owner) && r.variables.number == Some(number),
                ProjectLocator::User { owner, number } => r.variables.project_id is None
                    && r.variables.owner == Some(owner) && r.variables.number == Some(number),
            },
    {
        match locator {
            ProjectLocator::NodeId(project_id) => ProjectRequest {
                query: concat3(PROJECT_BY_ID_QUERY, "\n", PROJECT_ITEMS_FRAGMENT),
                variables: ProjectVariables {
                    project_id: Some(project_id.clone()),
                    owner: None,
                    number: None,
                    first,
                    after: copy_option(after),
                },
            },
            ProjectLocator::Organization { owner, number } => ProjectRequest {
                query: concat3(PROJECT_BY_ORG_QUERY, "\n", PROJECT_ITEMS_FRAGMENT),
                variables: ProjectVariables {
                    project_id: None,
                    owner: Some(owner.clone()),
                    number: Some(*number),
                    first,
                    after: copy_option(after),
                },
            },
            ProjectLocator::User { owner, number } => ProjectRequest {
                query: concat3(PROJECT_BY_USER_QUERY, "\n", PROJECT_ITEMS_FRAGMENT),
                variables: ProjectVariables {
                    project_id: None,
                    owner: Some(owner.clone()),
                    number: Some(*number),
                    first,
                    after: copy_option(after),
                },
            },
        }
    }
}

// ---------------------------------------------------------------------------
// Reading a project page by page
// ---------------------------------------------------------------------------

/// A listing of a project's items in progress: the items so far, the
/// cursor of the next page, and whether the listing is over.
pub struct ProjectScan {
    pub items: Vec<FetchedStreamItem>,
    pub after: Option<String>,
    pub finished: bool,
}

impl ProjectScan {
    pub fn new() -> (s: Self)
        ensures
            s.items@.len() == 0,
            s.after is None,
            !s.finished,
    {
        ProjectScan { items: Vec::new(), after: None, finished: false }
    }

    /// How many items to ask for next: `None` once the listing is over or
    /// has reached `PROJECT_ITEMS_LIMIT` items, else at most a page and no
    /// more than the limit leaves.
    pub fn next_page_size(&self) -> (r: Option<usize>)
        ensures
            match r {
                None => self.finished || self.items@.len() >= PROJECT_ITEMS_LIMIT,
                Some(n) => !self.finished && self.items@.len() < PROJECT_ITEMS_LIMIT && n == if PROJECT_ITEMS_LIMIT
                    - self.items@.len() < PROJECT_ITEMS_PAGE_SIZE {
                    PROJECT_ITEMS_LIMIT - self.items@.len()
                } else {
                    PROJECT_ITEMS_PAGE_SIZE as int
                },
            },
    {
        if self.finished || self.items.len() >= PROJECT_ITEMS_LIMIT {
            return None;
        }
        let left = PROJECT_ITEMS_LIMIT - self.items.len();
        if left < PROJECT_ITEMS_PAGE_SIZE {
            Some(left)
        } else {
            Some(PROJECT_ITEMS_PAGE_SIZE)
        }
    }

    /// Takes in a page: its items follow those so far; the listing goes on
    /// only when there is a next page and a cursor for it.
    pub fn record_page(&mut self, page: ProjectItemsPage)
        ensures
            final(self).items@ == old(self).items@ + page.items@,
            final(self).after == page.end_cursor,
            final(self).finished == (old(self).finished || !page.has_next_page
                || page.end_cursor is None),
    {
        let mut page_items = page.items;
        self.items.append(&mut page_items);
        let done = !page.has_next_page || page.end_cursor.is_none();
        self.after = page.end_cursor;
        self.finished = self.finished || done;
    }
}

} // verus!
