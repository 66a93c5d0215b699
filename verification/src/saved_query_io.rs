//! The saved query file: what an export writes and what an import accepts.
//!
//! The file is a versioned YAML document naming its host and listing saved
//! queries with their filter streams. Turning bytes into a
//! [`SavedQueryDocument`] (and back) happens around this module; here the
//! document is built from saved queries, and an imported document is
//! checked and normalised.

use vstd::prelude::*;

use crate::config::{
    config_error_message, host_error, is_normalized_host, required_error, validate_host_config,
    ConfigError,
};
use crate::models::config::HostConfig;
use crate::models::saved_query::{FilterStream, SavedQuery};
use crate::ordering::{
    contains_name, keys_view, lemma_stable_order_indices, lemma_stable_order_no_duplicates,
    stable_order, stable_sort_order,
};
use crate::text::{concat2, decimal_seq, trim, trim_seq, u64_to_string};

verus! {

/// The version of the saved query file this library reads and writes.
pub const SAVED_QUERY_DOCUMENT_VERSION: u32 = 1;

/// Why a saved query file could not be used.
#[derive(Debug)]
pub enum SavedQueryIoError {
    Read(String),
    Write(String),
    Parse(String),
    Validation(String),
}

pub open spec fn saved_query_io_error_message(e: SavedQueryIoError) -> Seq<char> {
    match e {
        SavedQueryIoError::Read(m) => "saved query file could not be read: "@ + m@,
        SavedQueryIoError::Write(m) => "saved query file could not be written: "@ + m@,
        SavedQueryIoError::Parse(m) => "saved query file is not valid YAML: "@ + m@,
        SavedQueryIoError::Validation(m) => "saved query file is invalid: "@ + m@,
    }
}

impl SavedQueryIoError {
    /// The text that `Display` shows for this error.
    pub fn message(&self) -> (r: String)
        ensures
            r@ == saved_query_io_error_message(*self),
    {
        match self {
            SavedQueryIoError::Read(m) => concat2("saved query file could not be read: ", m.as_str()),
            SavedQueryIoError::Write(m) => concat2(
                "saved query file could not be written: ",
                m.as_str(),
            ),
            SavedQueryIoError::Parse(m) => concat2("saved query file is not valid YAML: ", m.as_str()),
            SavedQueryIoError::Validation(m) => concat2("saved query file is invalid: ", m.as_str()),
        }
    }
}

#[derive(Clone, Debug, PartialEq, Eq)]
pub struct ImportedSavedQueries {
    pub host: HostConfig,
    pub queries: Vec<ImportedSavedQuery>,
}

#[derive(Clone, Debug, PartialEq, Eq)]
pub struct ImportedSavedQuery {
    pub name: String,
    pub query: String,
    pub enabled: bool,
    pub position: i64,
    pub filter_streams: Vec<ImportedFilterStream>,
}

#[derive(Clone, Debug, PartialEq, Eq)]
pub struct ImportedFilterStream {
    pub name: String,
    pub filter_query: String,
    pub enabled: bool,
    pub position: i64,
}

/// The saved query file as it is written and read.
#[derive(Clone, Debug, PartialEq, Eq)]
pub struct SavedQueryDocument {
    pub version: u32,
    pub host: HostConfig,
    pub queries: Vec<SavedQueryDocumentEntry>,
}

#[derive(Clone, Debug, PartialEq, Eq)]
pub struct SavedQueryDocumentEntry {
    pub name: String,
    pub query: String,
    pub enabled: bool,
    pub position: i64,
    pub filter_streams: Vec<SavedFilterStreamDocumentEntry>,
}

#[derive(Clone, Debug, PartialEq, Eq)]
pub struct SavedFilterStreamDocumentEntry {
    pub name: String,
    pub filter_query: String,
    pub enabled: bool,
    pub position: i64,
}

// ---------------------------------------------------------------------------
// Export
// ---------------------------------------------------------------------------

/// A filter stream as the file keeps it: no ids, no counts.
pub open spec fn is_stream_entry_of(e: SavedFilterStreamDocumentEntry, f: FilterStream) -> bool {
    &&& e.name == f.name
    &&& e.filter_query == f.filter_query
    &&& e.enabled == f.enabled
    &&& e.position == f.position
}

/// A saved query as the file keeps it: no ids, no source, no counts.
pub open spec fn is_entry_of(e: SavedQueryDocumentEntry, q: SavedQuery) -> bool {
    &&& e.name == q.name
    &&& e.query == q.query
    &&& e.enabled == q.enabled
    &&& e.position == q.position
    &&& e.filter_streams@.len() == q.filter_streams@.len()
    &&& forall|k: int|
        0 <= k < q.filter_streams@.len() ==> is_stream_entry_of(
            #[trigger] e.filter_streams@[k],
            q.filter_streams@[k],
        )
}

fn stream_entries(streams: &Vec<FilterStream>) -> (r: Vec<SavedFilterStreamDocumentEntry>)
    ensures
        r@.len() == streams@.len(),
        forall|k: int| 0 <= k < streams@.len() ==> is_stream_entry_of(#[trigger] r@[k], streams@[k]),
{
    let mut r: Vec<SavedFilterStreamDocumentEntry> = Vec::new();
    let mut i: usize = 0;
    while i < streams.len()
        invariant
            i <= streams.len(),
            r@.len() == i,
            forall|k: int| 0 <= k < i ==> is_stream_entry_of(#[trigger] r@[k], streams@[k]),
        decreases streams.len() - i,
    {
        let f = &streams[i];
        r.push(
            SavedFilterStreamDocumentEntry {
                name: f.name.clone(),
                filter_query: f.filter_query.clone(),
                enabled: f.enabled,
                position: f.position,
            },
        );
        i = i + 1;
    }
    r
}

/// The document an export writes: the current host and every saved query
/// with its filter streams, in the order given.
pub fn saved_query_document(host: &HostConfig, queries: &Vec<SavedQuery>) -> (doc:
    SavedQueryDocument)
    ensures
        doc.version == SAVED_QUERY_DOCUMENT_VERSION,
        doc.host == *host,
        doc.queries@.len() == queries@.len(),
        forall|k: int| 0 <= k < queries@.len() ==> is_entry_of(#[trigger] doc.queries@[k], queries@[k]),
{
    let mut entries: Vec<SavedQueryDocumentEntry> = Vec::new();
    let mut i: usize = 0;
    while i < queries.len()
        invariant
            i <= queries.len(),
            entries@.len() == i,
            forall|k: int| 0 <= k < i ==> is_entry_of(#[trigger] entries@[k], queries@[k]),
        decreases queries.len() - i,
    {
        let q = &queries[i];
        entries.push(
            SavedQueryDocumentEntry {
                name: q.name.clone(),
                query: q.query.clone(),
                enabled: q.enabled,
                position: q.position,
                filter_streams: stream_entries(&q.filter_streams),
            },
        );
        i = i + 1;
    }
    SavedQueryDocument { version: SAVED_QUERY_DOCUMENT_VERSION, host: host.clone(), queries: entries }
}

// ---------------------------------------------------------------------------
// Import: filter streams
// ---------------------------------------------------------------------------

pub open spec fn stream_keys(s: Seq<SavedFilterStreamDocumentEntry>) -> Seq<(i64, Seq<char>)> {
    s.map_values(|e: SavedFilterStreamDocumentEntry| (e.position, e.name@))
}

/// Filter streams are read in `(position, name)` order.
pub open spec fn stream_order(s: Seq<SavedFilterStreamDocumentEntry>) -> Seq<usize> {
    stable_order(stream_keys(s), s.len())
}

/// The trimmed names of the first `k` filter streams in reading order.
pub open spec fn stream_names_before(
    s: Seq<SavedFilterStreamDocumentEntry>,
    order: Seq<usize>,
    k: int,
) -> Seq<Seq<char>> {
    order.take(k).map_values(|i: usize| trim_seq(s[i as int].name@))
}

/// The first rule a filter stream breaks, given the names read before it.
pub open spec fn stream_entry_error(e: SavedFilterStreamDocumentEntry, seen: Seq<Seq<char>>) -> Option<
    Seq<char>,
> {
    match required_error("queries[].filter_streams[].name"@, e.name@) {
        Some(m) => Some(m),
        None => match required_error("queries[].filter_streams[].filter_query"@, e.filter_query@) {
            Some(m) => Some(m),
            None => if seen.contains(trim_seq(e.name@)) {
                Some("duplicate filter stream name in saved query: "@ + trim_seq(e.name@))
            } else {
                None
            },
        },
    }
}

/// The first error among the filter streams read from the `k`-th on.
pub open spec fn streams_error_from(
    s: Seq<SavedFilterStreamDocumentEntry>,
    order: Seq<usize>,
    k: int,
) -> Option<Seq<char>>
    decreases order.len() - k,
{
    if k < 0 || k >= order.len() {
        None
    } else {
        match stream_entry_error(s[order[k] as int], stream_names_before(s, order, k)) {
            Some(m) => Some(m),
            None => streams_error_from(s, order, k + 1),
        }
    }
}

pub open spec fn streams_error(s: Seq<SavedFilterStreamDocumentEntry>) -> Option<Seq<char>> {
    streams_error_from(s, stream_order(s), 0)
}

/// `out` is the `k`-th filter stream read from `e`.
pub open spec fn is_imported_stream(
    out: ImportedFilterStream,
    e: SavedFilterStreamDocumentEntry,
    k: int,
) -> bool {
    &&& out.name@ == trim_seq(e.name@)
    &&& out.filter_query@ == trim_seq(e.filter_query@)
    &&& out.enabled == e.enabled
    &&& out.position == k as i64
}

/// `out` is every filter stream of `s`, in reading order, renumbered from 0.
pub open spec fn imported_streams(
    out: Seq<ImportedFilterStream>,
    s: Seq<SavedFilterStreamDocumentEntry>,
) -> bool {
    &&& out.len() == s.len()
    &&& forall|k: int|
        0 <= k < s.len() ==> is_imported_stream(#[trigger] out[k], s[stream_order(s)[k] as int], k)
}

fn trim_required(path: &str, value: &str) -> (r: Result<String, SavedQueryIoError>)
    ensures
        match r {
            Ok(t) => required_error(path@, value@) is None && t@ == trim_seq(value@),
            Err(SavedQueryIoError::Validation(m)) => required_error(path@, value@) == Some(m@),
            Err(_) => false,
        },
{
    let trimmed = trim(value);
    if trimmed.as_str().is_empty() {
        Err(SavedQueryIoError::Validation(concat2(path, " must not be empty")))
    } else {
        Ok(trimmed)
    }
}

proof fn lemma_names_before_step<T>(order: Seq<usize>, k: int, f: spec_fn(usize) -> T)
    requires
        0 <= k < order.len(),
    ensures
        order.take(k + 1).map_values(f) == order.take(k).map_values(f).push(f(order[k])),
{
    assert(order.take(k + 1).map_values(f) =~= order.take(k).map_values(f).push(f(order[k])));
}

/// Checks the filter streams of one saved query and renumbers them in
/// `(position, name)` order.
pub fn normalize_filter_streams(entries: &Vec<SavedFilterStreamDocumentEntry>) -> (r: Result<
    Vec<ImportedFilterStream>,
    SavedQueryIoError,
>)
    ensures
        match r {
            Ok(out) => streams_error(entries@) is None && imported_streams(out@, entries@),
            Err(SavedQueryIoError::Validation(m)) => streams_error(entries@) == Some(m@),
            Err(_) => false,
        },
{
    let n = entries.len();
    let mut keys: Vec<(i64, String)> = Vec::new();
    let mut i: usize = 0;
    while i < n
        invariant
            n == entries@.len(),
            i <= n,
            keys_view(keys@) == stream_keys(entries@).take(i as int),
            keys@.len() == i,
        decreases n - i,
    {
        let ghost before = keys@;
        let name = entries[i].name.clone();
        keys.push((entries[i].position, name));
        assert(keys@ == before.push((entries@[i as int].position, name)));
        assert(keys_view(keys@).len() == i + 1);
        assert forall|j: int| 0 <= j < i + 1 implies keys_view(keys@)[j] == stream_keys(entries@).take(
            i + 1,
        )[j] by {
            if j < i {
                assert(keys_view(before)[j] == stream_keys(entries@).take(i as int)[j]);
            }
        }
        assert(keys_view(keys@) =~= stream_keys(entries@).take(i + 1));
        i = i + 1;
    }
    assert(keys_view(keys@) =~= stream_keys(entries@));
    let order = stable_sort_order(&keys);
    let ghost s = entries@;
    let ghost ord = stream_order(entries@);
    proof {
        lemma_stable_order_indices(stream_keys(entries@), n as nat);
    }
    let mut seen: Vec<String> = Vec::new();
    let mut out: Vec<ImportedFilterStream> = Vec::new();
    let mut k: usize = 0;
    assert(seen@.map_values(|x: String| x@) =~= stream_names_before(s, ord, 0));
    while k < n
        invariant
            n == s.len(),
            s == entries@,
            ord == stream_order(s),
            order@ == ord,
            ord.len() == n,
            forall|x: usize| #[trigger] ord.contains(x) <==> x < n,
            k <= n,
            seen@.map_values(|x: String| x@) == stream_names_before(s, ord, k as int),
            streams_error_from(s, ord, 0) == streams_error_from(s, ord, k as int),
            out@.len() == k,
            forall|j: int| 0 <= j < k ==> is_imported_stream(#[trigger] out@[j], s[ord[j] as int], j),
        decreases n - k,
    {
        let idx = order[k];
        assert(ord.contains(idx)) by {
            assert(ord[k as int] == idx);
        }
        let e = &entries[idx];
        let name = match trim_required("queries[].filter_streams[].name", e.name.as_str()) {
            Ok(t) => t,
            Err(err) => {
                return Err(err);
            },
        };
        let filter_query = match trim_required(
            "queries[].filter_streams[].filter_query",
            e.filter_query.as_str(),
        ) {
            Ok(t) => t,
            Err(err) => {
                return Err(err);
            },
        };
        if contains_name(&seen, name.as_str()) {
            return Err(
                SavedQueryIoError::Validation(
                    concat2("duplicate filter stream name in saved query: ", name.as_str()),
                ),
            );
        }
        proof {
            lemma_names_before_step(ord, k as int, |i: usize| trim_seq(s[i as int].name@));
        }
        let ghost before = seen@.map_values(|x: String| x@);
        seen.push(name.clone());
        assert(seen@.map_values(|x: String| x@) =~= before.push(name@));
        out.push(ImportedFilterStream { name, filter_query, enabled: e.enabled, position: k as i64 });
        k = k + 1;
    }
    Ok(out)
}

// ---------------------------------------------------------------------------
// Import: saved queries
// ---------------------------------------------------------------------------

pub open spec fn query_keys(s: Seq<SavedQueryDocumentEntry>) -> Seq<(i64, Seq<char>)> {
    s.map_values(|e: SavedQueryDocumentEntry| (e.position, e.name@))
}

/// Saved queries are read in `(position, name)` order.
pub open spec fn query_order(s: Seq<SavedQueryDocumentEntry>) -> Seq<usize> {
    stable_order(query_keys(s), s.len())
}

pub open spec fn query_names_before(s: Seq<SavedQueryDocumentEntry>, order: Seq<usize>, k: int) -> Seq<
    Seq<char>,
> {
    order.take(k).map_values(|i: usize| trim_seq(s[i as int].name@))
}

/// The first rule a saved query breaks, given the names read before it.
pub open spec fn query_entry_error(e: SavedQueryDocumentEntry, seen: Seq<Seq<char>>) -> Option<
    Seq<char>,
> {
    match required_error("queries[].name"@, e.name@) {
        Some(m) => Some(m),
        None => match required_error("queries[].query"@, e.query@) {
            Some(m) => Some(m),
            None => if seen.contains(trim_seq(e.name@)) {
                Some("duplicate saved query name: "@ + trim_seq(e.name@))
            } else {
                streams_error(e.filter_streams@)
            },
        },
    }
}

pub open spec fn queries_error_from(s: Seq<SavedQueryDocumentEntry>, order: Seq<usize>, k: int) -> Option<
    Seq<char>,
>
    decreases order.len() - k,
{
    if k < 0 || k >= order.len() {
        None
    } else {
        match query_entry_error(s[order[k] as int], query_names_before(s, order, k)) {
            Some(m) => Some(m),
            None => queries_error_from(s, order, k + 1),
        }
    }
}

pub open spec fn queries_error(s: Seq<SavedQueryDocumentEntry>) -> Option<Seq<char>> {
    queries_error_from(s, query_order(s), 0)
}

/// `out` is the `k`-th saved query read from `e`.
pub open spec fn is_imported_query(out: ImportedSavedQuery, e: SavedQueryDocumentEntry, k: int) -> bool {
    &&& out.name@ == trim_seq(e.name@)
    &&& out.query@ == trim_seq(e.query@)
    &&& out.enabled == e.enabled
    &&& out.position == k as i64
    &&& imported_streams(out.filter_streams@, e.filter_streams@)
}

pub open spec fn imported_queries(out: Seq<ImportedSavedQuery>, s: Seq<SavedQueryDocumentEntry>) -> bool {
    &&& out.len() == s.len()
    &&& forall|k: int|
        0 <= k < s.len() ==> is_imported_query(#[trigger] out[k], s[query_order(s)[k] as int], k)
}

/// The first reason a document is refused: an unknown version, an invalid
/// host (with the configuration's message), or the first invalid saved
/// query in reading order.
pub open spec fn document_error(doc: SavedQueryDocument) -> Option<Seq<char>> {
    if doc.version != SAVED_QUERY_DOCUMENT_VERSION {
        Some("unsupported saved query file version "@ + decimal_seq(doc.version as nat))
    } else {
        match host_error(doc.host) {
            Some(m) => Some("configuration is invalid: "@ + m),
            None => queries_error(doc.queries@),
        }
    }
}

/// Checks an imported document and normalises it: the host as the
/// configuration normalises hosts, saved queries and their filter streams
/// trimmed, in `(position, name)` order and renumbered from 0.
pub fn validate_document(document: SavedQueryDocument) -> (r: Result<
    ImportedSavedQueries,
    SavedQueryIoError,
>)
    ensures
        match r {
            Ok(imported) => document_error(document) is None && is_normalized_host(
                imported.host,
                document.host,
            ) && imported_queries(imported.queries@, document.queries@),
            Err(SavedQueryIoError::Validation(m)) => document_error(document) == Some(m@),
            Err(_) => false,
        },
{
    let SavedQueryDocument { version, host, queries: entries } = document;
    if version != SAVED_QUERY_DOCUMENT_VERSION {
        let number = u64_to_string(version as u64);
        return Err(
            SavedQueryIoError::Validation(
                concat2("unsupported saved query file version ", number.as_str()),
            ),
        );
    }
    let ghost original_host = host;
    let host = match validate_host_config(host) {
        Ok(h) => h,
        Err(err) => {
            let message = err.message();
            return Err(SavedQueryIoError::Validation(message));
        },
    };
    let n = entries.len();
    let mut keys: Vec<(i64, String)> = Vec::new();
    let mut i: usize = 0;
    while i < n
        invariant
            n == entries@.len(),
            i <= n,
            keys_view(keys@) == query_keys(entries@).take(i as int),
            keys@.len() == i,
        decreases n - i,
    {
        let ghost before = keys@;
        let name = entries[i].name.clone();
        keys.push((entries[i].position, name));
        assert(keys@ == before.push((entries@[i as int].position, name)));
        assert(keys_view(keys@).len() == i + 1);
        assert forall|j: int| 0 <= j < i + 1 implies keys_view(keys@)[j] == query_keys(entries@).take(
            i + 1,
        )[j] by {
            if j < i {
                assert(keys_view(before)[j] == query_keys(entries@).take(i as int)[j]);
            }
        }
        assert(keys_view(keys@) =~= query_keys(entries@).take(i + 1));
        i = i + 1;
    }
    assert(keys_view(keys@) =~= query_keys(entries@));
    let order = stable_sort_order(&keys);
    let ghost s = entries@;
    let ghost ord = query_order(entries@);
    proof {
        lemma_stable_order_indices(query_keys(entries@), n as nat);
    }
    let mut seen: Vec<String> = Vec::new();
    let mut out: Vec<ImportedSavedQuery> = Vec::new();
    let mut k: usize = 0;
    assert(seen@.map_values(|x: String| x@) =~= query_names_before(s, ord, 0));
    assert(document_error(document) == queries_error_from(s, ord, 0));
    while k < n
        invariant
            n == s.len(),
            s == entries@,
            ord == query_order(s),
            order@ == ord,
            ord.len() == n,
            forall|x: usize| #[trigger] ord.contains(x) <==> x < n,
            k <= n,
            seen@.map_values(|x: String| x@) == query_names_before(s, ord, k as int),
            queries_error_from(s, ord, 0) == queries_error_from(s, ord, k as int),
            document_error(document) == queries_error_from(s, ord, 0),
            out@.len() == k,
            forall|j: int| 0 <= j < k ==> is_imported_query(#[trigger] out@[j], s[ord[j] as int], j),
        decreases n - k,
    {
        let idx = order[k];
        assert(ord.contains(idx)) by {
            assert(ord[k as int] == idx);
        }
        let e = &entries[idx];
        assert(s[ord[k as int] as int] == *e);
        let name = match trim_required("queries[].name", e.name.as_str()) {
            Ok(t) => t,
            Err(err) => {
                assert(queries_error_from(s, ord, k as int) == queries_error_from(s, ord, 0));
                return Err(err);
            },
        };
        let query = match trim_required("queries[].query", e.query.as_str()) {
            Ok(t) => t,
            Err(err) => {
                assert(queries_error_from(s, ord, k as int) == queries_error_from(s, ord, 0));
                return Err(err);
            },
        };
        if contains_name(&seen, name.as_str()) {
            return Err(
                SavedQueryIoError::Validation(
                    concat2("duplicate saved query name: ", name.as_str()),
                ),
            );
        }
        let filter_streams = match normalize_filter_streams(&e.filter_streams) {
            Ok(f) => f,
            Err(err) => {
                assert(queries_error_from(s, ord, k as int) == queries_error_from(s, ord, 0));
                return Err(err);
            },
        };
        proof {
            lemma_names_before_step(ord, k as int, |i: usize| trim_seq(s[i as int].name@));
        }
        let ghost before = seen@.map_values(|x: String| x@);
        seen.push(name.clone());
        assert(seen@.map_values(|x: String| x@) =~= before.push(name@));
        out.push(
            ImportedSavedQuery { name, query, enabled: e.enabled, position: k as i64, filter_streams },
        );
        k = k + 1;
    }
    Ok(ImportedSavedQueries { host, queries: out })
}

// ---------------------------------------------------------------------------
// Export, then import
// ---------------------------------------------------------------------------

/// Filter streams that an import accepts: each has a name and a filter
/// once trimmed, and no two names are the same once trimmed.
pub open spec fn exportable_streams(fs: Seq<FilterStream>) -> bool {
    &&& forall|i: int|
        0 <= i < fs.len() ==> trim_seq((#[trigger] fs[i]).name@).len() > 0 && trim_seq(
            fs[i].filter_query@,
        ).len() > 0
    &&& forall|i: int, j: int|
        0 <= i < j < fs.len() ==> trim_seq((#[trigger] fs[i]).name@) != trim_seq(
            (#[trigger] fs[j]).name@,
        )
}

/// Saved queries that an import accepts: each has a name and a query once
/// trimmed, acceptable filter streams, and no two names are the same once
/// trimmed.
pub open spec fn exportable_queries(qs: Seq<SavedQuery>) -> bool {
    &&& forall|i: int|
        0 <= i < qs.len() ==> trim_seq((#[trigger] qs[i]).name@).len() > 0 && trim_seq(
            qs[i].query@,
        ).len() > 0 && exportable_streams(qs[i].filter_streams@)
    &&& forall|i: int, j: int|
        0 <= i < j < qs.len() ==> trim_seq((#[trigger] qs[i]).name@) != trim_seq(
            (#[trigger] qs[j]).name@,
        )
}

proof fn lemma_streams_accepted_from(s: Seq<SavedFilterStreamDocumentEntry>, k: int)
    requires
        0 <= k <= s.len(),
        s.len() <= usize::MAX,
        forall|i: int|
            0 <= i < s.len() ==> trim_seq((#[trigger] s[i]).name@).len() > 0 && trim_seq(
                s[i].filter_query@,
            ).len() > 0,
        forall|i: int, j: int|
            0 <= i < s.len() && 0 <= j < s.len() && i != j ==> trim_seq((#[trigger] s[i]).name@)
                != trim_seq((#[trigger] s[j]).name@),
    ensures
        streams_error_from(s, stream_order(s), k) is None,
    decreases s.len() - k,
{
    let order = stream_order(s);
    lemma_stable_order_indices(stream_keys(s), s.len());
    lemma_stable_order_no_duplicates(stream_keys(s), s.len());
    if k < s.len() {
        lemma_streams_accepted_from(s, k + 1);
        assert(order.contains(order[k]));
        let names = stream_names_before(s, order, k);
        let name = trim_seq(s[order[k] as int].name@);
        assert(!names.contains(name)) by {
            if names.contains(name) {
                let j = choose|j: int| 0 <= j < names.len() && names[j] == name;
                assert(order.contains(order[j]));
                assert(names[j] == trim_seq(s[order[j] as int].name@));
                assert(order[j] != order[k]);
            }
        }
    }
}

proof fn lemma_queries_accepted_from(s: Seq<SavedQueryDocumentEntry>, k: int)
    requires
        0 <= k <= s.len(),
        s.len() <= usize::MAX,
        forall|i: int|
            0 <= i < s.len() ==> trim_seq((#[trigger] s[i]).name@).len() > 0 && trim_seq(
                s[i].query@,
            ).len() > 0 && streams_error(s[i].filter_streams@) is None,
        forall|i: int, j: int|
            0 <= i < s.len() && 0 <= j < s.len() && i != j ==> trim_seq((#[trigger] s[i]).name@)
                != trim_seq((#[trigger] s[j]).name@),
    ensures
        queries_error_from(s, query_order(s), k) is None,
    decreases s.len() - k,
{
    let order = query_order(s);
    lemma_stable_order_indices(query_keys(s), s.len());
    lemma_stable_order_no_duplicates(query_keys(s), s.len());
    if k < s.len() {
        lemma_queries_accepted_from(s, k + 1);
        assert(order.contains(order[k]));
        let names = query_names_before(s, order, k);
        let name = trim_seq(s[order[k] as int].name@);
        assert(!names.contains(name)) by {
            if names.contains(name) {
                let j = choose|j: int| 0 <= j < names.len() && names[j] == name;
                assert(order.contains(order[j]));
                assert(names[j] == trim_seq(s[order[j] as int].name@));
                assert(order[j] != order[k]);
            }
        }
    }
}

/// What an export writes, an import reads back: the document made of a
/// valid host and of saved queries an import accepts passes every check of
/// the import. (What the import then returns is the saved queries,
/// trimmed, in `(position, name)` order and renumbered, as
/// `validate_document` states.)
pub proof fn lemma_exported_document_imports(host: HostConfig, qs: Seq<SavedQuery>, doc: SavedQueryDocument)
    requires
        host_error(host) is None,
        exportable_queries(qs),
        qs.len() <= usize::MAX,
        forall|k: int| 0 <= k < qs.len() ==> (#[trigger] qs[k]).filter_streams@.len() <= usize::MAX,
        doc.version == SAVED_QUERY_DOCUMENT_VERSION,
        doc.host == host,
        doc.queries@.len() == qs.len(),
        forall|k: int| 0 <= k < qs.len() ==> is_entry_of(#[trigger] doc.queries@[k], qs[k]),
    ensures
        document_error(doc) is None,
{
    let s = doc.queries@;
    assert forall|i: int| 0 <= i < s.len() implies trim_seq((#[trigger] s[i]).name@).len() > 0
        && trim_seq(s[i].query@).len() > 0 && streams_error(s[i].filter_streams@) is None by {
        assert(is_entry_of(s[i], qs[i]));
        let fs = s[i].filter_streams@;
        let gs = qs[i].filter_streams@;
        assert forall|a: int, b: int|
            0 <= a < fs.len() && 0 <= b < fs.len() && a != b implies trim_seq(
            (#[trigger] fs[a]).name@,
        ) != trim_seq((#[trigger] fs[b]).name@) by {
            assert(is_stream_entry_of(fs[a], gs[a]));
            assert(is_stream_entry_of(fs[b], gs[b]));
            if a < b {
                assert(trim_seq(gs[a].name@) != trim_seq(gs[b].name@));
            } else {
                assert(trim_seq(gs[b].name@) != trim_seq(gs[a].name@));
            }
        }
        assert forall|a: int| 0 <= a < fs.len() implies trim_seq((#[trigger] fs[a]).name@).len() > 0
            && trim_seq(fs[a].filter_query@).len() > 0 by {
            assert(is_stream_entry_of(fs[a], gs[a]));
        }
        lemma_streams_accepted_from(fs, 0);
    }
    assert forall|i: int, j: int|
        0 <= i < s.len() && 0 <= j < s.len() && i != j implies trim_seq((#[trigger] s[i]).name@)
        != trim_seq((#[trigger] s[j]).name@) by {
        assert(is_entry_of(s[i], qs[i]));
        assert(is_entry_of(s[j], qs[j]));
        if i < j {
            assert(trim_seq(qs[i].name@) != trim_seq(qs[j].name@));
        } else {
            assert(trim_seq(qs[j].name@) != trim_seq(qs[i].name@));
        }
    }
    lemma_queries_accepted_from(s, 0);
}

} // verus!
