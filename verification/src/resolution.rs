//! Finding the key configuration of an identifier.
//!
//! An identifier that is tracked locally, this controller's own or one that
//! was resolved before, is answered from what is held. Any other is looked
//! for in the directories: its key event log is fetched, the event log
//! validates it, and only the state that comes out of that is trusted.
//!
//! Fetching and validating are the caller's work. [`KnownIssuers::get_public_keys`]
//! and [`KnownIssuers::advance`] say what is to be done next.

use vstd::prelude::*;
use crate::bytes::copy_bytes;
use crate::directory::{first_success, key_log_query};
use crate::signature::{KeyConfig, KeyConfigView};
use crate::text::{clone_texts, lemma_texts_push, texts};
use crate::textmap::TextMap;

verus! {

/// Where the search for an identifier's keys stands.
#[derive(Debug, PartialEq, Eq)]
pub enum KeyLookup {
    /// The key event log of `issuer` is being fetched with `queries`, one
    /// per directory.
    Fetching { issuer: String, queries: Vec<String> },
    /// The event log is validating the fetched `log` of `issuer`.
    Validating { issuer: String, log: Vec<u8> },
    /// These are the keys of the identifier.
    Resolved(KeyConfig),
    /// The keys of the identifier cannot be had: the issuer is unknown.
    Unknown,
}

/// The mathematical value of a [`KeyLookup`].
pub enum KeyLookupView {
    Fetching { issuer: Seq<char>, queries: Seq<Seq<char>> },
    Validating { issuer: Seq<char>, log: Seq<u8> },
    Resolved(KeyConfigView),
    Unknown,
}

impl View for KeyLookup {
    type V = KeyLookupView;

    open spec fn view(&self) -> KeyLookupView {
        match *self {
            KeyLookup::Fetching { issuer, queries } => KeyLookupView::Fetching {
                issuer: issuer@,
                queries: texts(queries@),
            },
            KeyLookup::Validating { issuer, log } => KeyLookupView::Validating {
                issuer: issuer@,
                log: log@,
            },
            KeyLookup::Resolved(keys) => KeyLookupView::Resolved(keys@),
            KeyLookup::Unknown => KeyLookupView::Unknown,
        }
    }
}

/// What the caller reports back.
#[derive(Debug, Clone, PartialEq, Eq)]
pub enum Finding {
    /// The directories were asked. Each entry is the log that one directory
    /// delivered, or `None` where it failed.
    Logs(Vec<Option<Vec<u8>>>),
    /// The event log has parsed and validated the fetched log. The entry is
    /// the key configuration that it now holds for the issuer, or `None`
    /// where it refused the log or the log left no state.
    Validated(Option<KeyConfig>),
}

/// What the caller is to do next.
#[derive(Debug, PartialEq, Eq)]
pub enum Request {
    /// Fetch the key event log with each of these requests.
    Fetch(Vec<String>),
    /// Have the event log parse and validate this log.
    Validate(Vec<u8>),
    /// Nothing is left to do: these are the keys.
    Use(KeyConfig),
    /// Nothing is left to do: the issuer is unknown.
    Reject,
}

/// The mathematical value of a [`Request`].
pub enum RequestView {
    Fetch(Seq<Seq<char>>),
    Validate(Seq<u8>),
    Use(KeyConfigView),
    Reject,
}

impl View for Request {
    type V = RequestView;

    open spec fn view(&self) -> RequestView {
        match *self {
            Request::Fetch(queries) => RequestView::Fetch(texts(queries@)),
            Request::Validate(log) => RequestView::Validate(log@),
            Request::Use(keys) => RequestView::Use(keys@),
            Request::Reject => RequestView::Reject,
        }
    }
}

/// The requests that ask each of `resolvers` for the key event log of
/// `issuer`.
pub open spec fn key_log_queries(resolvers: Seq<Seq<char>>, issuer: Seq<char>) -> Seq<Seq<char>> {
    Seq::new(resolvers.len(), |i: int| resolvers[i] + "key_logs/"@ + issuer)
}

/// The first log that a directory delivered.
pub open spec fn first_delivered(logs: Seq<Option<Vec<u8>>>) -> Option<Seq<u8>>
    decreases logs.len(),
{
    if logs.len() == 0 {
        None
    } else {
        match logs.first() {
            Some(log) => Some(log@),
            None => first_delivered(logs.drop_first()),
        }
    }
}

/// The state in which the search for the keys of `issuer` starts: resolved
/// at once where the identifier is tracked, else fetching.
pub open spec fn first_lookup(
    known: Map<Seq<char>, KeyConfig>,
    resolvers: Seq<Seq<char>>,
    issuer: Seq<char>,
) -> KeyLookupView {
    if known.contains_key(issuer) {
        KeyLookupView::Resolved(known[issuer]@)
    } else {
        KeyLookupView::Fetching { issuer, queries: key_log_queries(resolvers, issuer) }
    }
}

/// The state that `state` moves to on `finding`. A finding that the state
/// does not wait for changes nothing.
pub open spec fn next_lookup(state: KeyLookupView, finding: Finding) -> KeyLookupView {
    match (state, finding) {
        (KeyLookupView::Fetching { issuer, queries }, Finding::Logs(logs)) => {
            match first_delivered(logs@) {
                Some(log) => KeyLookupView::Validating { issuer, log },
                None => KeyLookupView::Unknown,
            }
        },
        (KeyLookupView::Validating { issuer, log }, Finding::Validated(validated)) => {
            match validated {
                Some(keys) => KeyLookupView::Resolved(keys@),
                None => KeyLookupView::Unknown,
            }
        },
        _ => state,
    }
}

/// The request that `state` waits for.
pub open spec fn pending_request(state: KeyLookupView) -> RequestView {
    match state {
        KeyLookupView::Fetching { issuer, queries } => RequestView::Fetch(queries),
        KeyLookupView::Validating { issuer, log } => RequestView::Validate(log),
        KeyLookupView::Resolved(keys) => RequestView::Use(keys),
        KeyLookupView::Unknown => RequestView::Reject,
    }
}

/// The tracked identifiers after `finding`: an identifier whose log the
/// event log has validated is tracked from then on, and nothing else
/// changes.
pub open spec fn known_after(
    state: KeyLookupView,
    finding: Finding,
    known: Map<Seq<char>, KeyConfig>,
) -> Map<Seq<char>, KeyConfig> {
    match (state, finding) {
        (KeyLookupView::Validating { issuer, log }, Finding::Validated(Some(keys))) => known.insert(
            issuer,
            keys,
        ),
        _ => known,
    }
}

/// The first log that a directory delivered.
///
/// `logs` holds, in the order of the directories, the log that each one
/// returned, or `None` where it failed.
pub fn first_log(logs: &Vec<Option<Vec<u8>>>) -> (log: Option<Vec<u8>>)
    ensures
        match log {
            Some(bytes) => first_delivered(logs@) == Some(bytes@),
            None => first_delivered(logs@) is None,
        },
{
    match first_success(logs) {
        Some(i) => {
            proof {
                lemma_first_delivered_at(logs@, i as int);
            }
            match &logs[i] {
                Some(bytes) => Some(copy_bytes(bytes.as_slice())),
                None => None,
            }
        },
        None => {
            proof {
                lemma_none_delivered(logs@);
            }
            None
        },
    }
}

/// The first log is the one at the first index that holds a log.
proof fn lemma_first_delivered_at(logs: Seq<Option<Vec<u8>>>, i: int)
    requires
        0 <= i < logs.len(),
        logs[i] is Some,
        forall|j: int| 0 <= j < i ==> logs[j] is None,
    ensures
        first_delivered(logs) == Some(logs[i]->0@),
    decreases i,
{
    if i > 0 {
        let rest = logs.drop_first();
        assert(logs[0] is None);
        assert(rest[i - 1] == logs[i]);
        assert forall|j: int| 0 <= j < i - 1 implies rest[j] is None by {
            assert(rest[j] == logs[j + 1]);
        }
        lemma_first_delivered_at(rest, i - 1);
    }
}

/// Without any log there is no first log.
proof fn lemma_none_delivered(logs: Seq<Option<Vec<u8>>>)
    requires
        forall|j: int| 0 <= j < logs.len() ==> logs[j] is None,
    ensures
        first_delivered(logs) is None,
    decreases logs.len(),
{
    if logs.len() > 0 {
        let rest = logs.drop_first();
        assert(logs[0] is None);
        assert forall|j: int| 0 <= j < rest.len() implies rest[j] is None by {
            assert(rest[j] == logs[j + 1]);
        }
        lemma_none_delivered(rest);
    }
}

impl KeyLookup {
    /// The request that this state waits for.
    pub fn pending(&self) -> (request: Request)
        ensures
            request@ == pending_request(self@),
    {
        match self {
            KeyLookup::Fetching { issuer, queries } => Request::Fetch(clone_texts(queries)),
            KeyLookup::Validating { issuer, log } => Request::Validate(
                copy_bytes(log.as_slice()),
            ),
            KeyLookup::Resolved(keys) => Request::Use(keys.duplicate()),
            KeyLookup::Unknown => Request::Reject,
        }
    }
}

/// The identifiers whose key configuration is held locally.
pub struct KnownIssuers {
    entries: TextMap<KeyConfig>,
}

impl KnownIssuers {
    /// The key configuration held for each tracked identifier.
    pub closed spec fn view(&self) -> Map<Seq<char>, KeyConfig> {
        self.entries@
    }

    /// No identifier is tracked.
    pub fn new() -> (known: Self)
        ensures
            known@ == Map::<Seq<char>, KeyConfig>::empty(),
    {
        KnownIssuers { entries: TextMap::new() }
    }

    /// Tracks `issuer` with the key configuration `keys`, in place of what
    /// was held for it.
    pub fn track(&mut self, issuer: String, keys: KeyConfig)
        ensures
            final(self)@ == old(self)@.insert(issuer@, keys),
    {
        self.entries.insert(issuer, keys);
    }

    /// Starts the search for the keys of `issuer`: they come from what is
    /// held where the identifier is tracked, else from the directories at
    /// `resolvers`.
    pub fn get_public_keys(&self, resolvers: &Vec<String>, issuer: &String) -> (begun: (
        KeyLookup,
        Request,
    ))
        ensures
            begun.0@ == first_lookup(self@, texts(resolvers@), issuer@),
            begun.1@ == pending_request(begun.0@),
    {
        let state = match self.entries.get(issuer) {
            Some(keys) => KeyLookup::Resolved(keys.duplicate()),
            None => {
                let mut queries: Vec<String> = Vec::new();
                let mut i: usize = 0;
                while i < resolvers.len()
                    invariant
                        i <= resolvers.len(),
                        texts(queries@) == key_log_queries(texts(resolvers@), issuer@).take(
                            i as int,
                        ),
                    decreases resolvers.len() - i,
                {
                    let query = key_log_query(&resolvers[i], issuer);
                    proof {
                        lemma_texts_push(queries@, query);
                        assert(key_log_queries(texts(resolvers@), issuer@).take(i as int).push(
                            query@,
                        ) =~= key_log_queries(texts(resolvers@), issuer@).take(i + 1));
                    }
                    queries.push(query);
                    i += 1;
                }
                assert(key_log_queries(texts(resolvers@), issuer@).take(resolvers.len() as int)
                    =~= key_log_queries(texts(resolvers@), issuer@));
                KeyLookup::Fetching { issuer: issuer.clone(), queries }
            },
        };
        let request = state.pending();
        (state, request)
    }

    /// Moves the search on by one finding.
    ///
    /// Returns the next state and the request that it waits for. A finding
    /// that `state` does not wait for changes nothing. An identifier whose
    /// log the event log has validated is tracked from then on.
    pub fn advance(&mut self, state: KeyLookup, finding: Finding) -> (moved: (KeyLookup, Request))
        ensures
            moved.0@ == next_lookup(state@, finding),
            moved.1@ == pending_request(moved.0@),
            final(self)@ == known_after(state@, finding, old(self)@),
    {
        let next = match (state, finding) {
            (KeyLookup::Fetching { issuer, queries }, Finding::Logs(logs)) => {
                match first_log(&logs) {
                    Some(log) => KeyLookup::Validating { issuer, log },
                    None => KeyLookup::Unknown,
                }
            },
            (KeyLookup::Validating { issuer, log }, Finding::Validated(validated)) => {
                match validated {
                    Some(keys) => {
                        let resolved = keys.duplicate();
                        self.track(issuer, keys);
                        KeyLookup::Resolved(resolved)
                    },
                    None => KeyLookup::Unknown,
                }
            },
            (state, _) => state,
        };
        let request = next.pending();
        (next, request)
    }
}

/// Keys are trusted only where they are held or come out of a validated
/// log: a search that was not resolved becomes resolved only by the finding
/// that the event log has validated the fetched log, and then with the keys
/// that the event log holds for the issuer.
pub proof fn lemma_keys_come_from_validation(state: KeyLookupView, finding: Finding)
    requires
        next_lookup(state, finding) is Resolved,
        !(state is Resolved),
    ensures
        state is Validating,
        finding matches Finding::Validated(Some(keys)) && next_lookup(state, finding)
            == KeyLookupView::Resolved(keys@),
{
}

/// Without a log from any directory the issuer is unknown.
pub proof fn lemma_no_log_no_keys(
    issuer: Seq<char>,
    queries: Seq<Seq<char>>,
    logs: Vec<Option<Vec<u8>>>,
)
    requires
        forall|i: int| 0 <= i < logs.len() ==> logs[i] is None,
    ensures
        next_lookup(KeyLookupView::Fetching { issuer, queries }, Finding::Logs(logs))
            == KeyLookupView::Unknown,
{
    lemma_none_delivered(logs@);
}

} // verus!
