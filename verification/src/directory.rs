//! Where witnesses and issuers can be reached.
//!
//! A location is looked up in two tiers: first in the local cache, then in
//! the answers of the configured directory services, of which the first
//! successful one counts. Locations that the configuration supplied take
//! precedence over anything a directory says.

use vstd::pervasive::unreached;
use vstd::prelude::*;
use crate::error::ControllerError;
use crate::text::{lemma_filter_start, lemma_filter_step, lemma_texts_push, texts};
use crate::textmap::TextMap;
use crate::witness::{all_identified, identifiers, WitnessConfig};

verus! {

/// The serialization of the URL that `input` parses to, as the `url` crate
/// has it; `None` where `input` is no absolute URL.
pub uninterp spec fn parsed_url(input: Seq<char>) -> Option<Seq<char>>;

/// Calls `url::Url::parse` and hands back the URL's serialization
/// (`Url::as_str`). The contract only names that result: `parsed_url` is what
/// the `url` crate makes of `input`.
#[verifier::external_body]
fn parse_url(input: &str) -> (location: Option<String>)
    ensures
        match location {
            Some(l) => parsed_url(input@) == Some(l@),
            None => parsed_url(input@) is None,
        },
{
    match url::Url::parse(input) {
        Ok(parsed) => Some(parsed.as_str().to_string()),
        Err(_) => None,
    }
}

/// The index of the first answer that is present.
pub fn first_success<T>(answers: &Vec<Option<T>>) -> (first: Option<usize>)
    ensures
        match first {
            Some(i) => {
                &&& i < answers.len()
                &&& answers[i as int] is Some
                &&& forall|j: int| 0 <= j < i ==> answers[j] is None
            },
            None => forall|j: int| 0 <= j < answers.len() ==> answers[j] is None,
        },
{
    let mut i: usize = 0;
    while i < answers.len()
        invariant
            i <= answers.len(),
            forall|j: int| 0 <= j < i ==> answers[j] is None,
        decreases answers.len() - i,
    {
        if answers[i].is_some() {
            return Some(i);
        }
        i += 1;
    }
    None
}

/// The first answer that is present, read as text.
pub open spec fn first_answer(answers: Seq<Option<String>>) -> Option<Seq<char>>
    decreases answers.len(),
{
    if answers.len() == 0 {
        None
    } else {
        match answers.first() {
            Some(a) => Some(a@),
            None => first_answer(answers.drop_first()),
        }
    }
}

/// [`first_answer`] is the answer at the first index that holds one.
pub proof fn lemma_first_answer(answers: Seq<Option<String>>)
    ensures
        match first_answer(answers) {
            Some(a) => exists|i: int|
                0 <= i < answers.len() && (#[trigger] answers[i]) is Some && answers[i]->0@ == a
                    && forall|j: int| 0 <= j < i ==> answers[j] is None,
            None => forall|j: int| 0 <= j < answers.len() ==> answers[j] is None,
        },
    decreases answers.len(),
{
    if answers.len() > 0 {
        match answers.first() {
            Some(a) => {
                assert(answers[0] is Some && answers[0]->0@ == a@);
            },
            None => {
                let rest = answers.drop_first();
                lemma_first_answer(rest);
                match first_answer(rest) {
                    Some(a) => {
                        let i = choose|i: int|
                            0 <= i < rest.len() && (#[trigger] rest[i]) is Some && rest[i]->0@ == a
                                && forall|j: int| 0 <= j < i ==> rest[j] is None;
                        assert(answers[i + 1] == rest[i]);
                        assert forall|j: int| 0 <= j < i + 1 implies answers[j] is None by {
                            if j > 0 {
                                assert(answers[j] == rest[j - 1]);
                            }
                        }
                    },
                    None => {
                        assert forall|j: int| 0 <= j < answers.len() implies answers[j] is None by {
                            if j > 0 {
                                assert(answers[j] == rest[j - 1]);
                            }
                        }
                    },
                }
            },
        }
    }
}

/// The first answer in [`first_answer`]'s sense is the one at the first
/// index that holds an answer.
proof fn lemma_first_answer_at(answers: Seq<Option<String>>, i: int)
    requires
        0 <= i < answers.len(),
        answers[i] is Some,
        forall|j: int| 0 <= j < i ==> answers[j] is None,
    ensures
        first_answer(answers) == Some(answers[i]->0@),
    decreases i,
{
    if i > 0 {
        let rest = answers.drop_first();
        assert(answers[0] is None);
        assert(rest[i - 1] == answers[i]);
        assert forall|j: int| 0 <= j < i - 1 implies rest[j] is None by {
            assert(rest[j] == answers[j + 1]);
        }
        lemma_first_answer_at(rest, i - 1);
    }
}

/// No answer at all gives no first answer.
proof fn lemma_first_answer_none(answers: Seq<Option<String>>)
    requires
        forall|j: int| 0 <= j < answers.len() ==> answers[j] is None,
    ensures
        first_answer(answers) is None,
    decreases answers.len(),
{
    if answers.len() > 0 {
        let rest = answers.drop_first();
        assert(answers[0] is None);
        assert forall|j: int| 0 <= j < rest.len() implies rest[j] is None by {
            assert(rest[j] == answers[j + 1]);
        }
        lemma_first_answer_none(rest);
    }
}

/// The scheme that a directory's bare address answer is completed with.
pub open spec fn location_scheme() -> Seq<char> {
    "http://"@
}

/// The witness location that follows from what the directories answered:
/// the first answer that is present, read as `http://` and the address.
pub open spec fn witness_location(answers: Seq<Option<String>>) -> Option<Seq<char>> {
    match first_answer(answers) {
        Some(address) => parsed_url(location_scheme() + address),
        None => None,
    }
}

/// Picks a witness location from the directories' answers.
///
/// `answers` holds, in the order of the configured directories, the address
/// that each one returned for `witness`, or `None` where it failed or its
/// answer could not be read. Fails with [`ControllerError::MissingIp`] where
/// no directory answered, or where the first answer is no address.
pub fn get_witness_ip(answers: &Vec<Option<String>>, witness: &String) -> (location: Result<
    String,
    ControllerError,
>)
    ensures
        match witness_location(answers@) {
            Some(l) => location matches Ok(found) && found@ == l,
            None => location matches Err(ControllerError::MissingIp(w)) && w@ == witness@,
        },
{
    match first_success(answers) {
        Some(i) => {
            proof {
                lemma_first_answer_at(answers@, i as int);
            }
            match &answers[i] {
                Some(address) => {
                    let mut text = String::from_str("http://");
                    text.append(address.as_str());
                    match parse_url(text.as_str()) {
                        Some(location) => Ok(location),
                        None => Err(ControllerError::MissingIp(witness.clone())),
                    }
                },
                None => Err(ControllerError::MissingIp(witness.clone())),
            }
        },
        None => {
            proof {
                lemma_first_answer_none(answers@);
            }
            Err(ControllerError::MissingIp(witness.clone()))
        },
    }
}

/// `base`, `path` and `id` in a row.
pub fn join_query(base: &String, path: &str, id: &String) -> (query: String)
    ensures
        query@ == base@ + path@ + id@,
{
    let mut query = base.clone();
    query.append(path);
    query.append(id.as_str());
    query
}

/// Where a witness at `location` takes events and receipts.
pub fn publish_endpoint(location: &String) -> (endpoint: String)
    ensures
        endpoint@ == location@ + "publish"@,
{
    let mut endpoint = location.clone();
    endpoint.append("publish");
    endpoint
}

/// The request that asks the directory at `resolver` where `witness` is.
pub fn witness_ip_query(resolver: &String, witness: &String) -> (query: String)
    ensures
        query@ == resolver@ + "witness_ips/"@ + witness@,
{
    join_query(resolver, "witness_ips/", witness)
}

/// The request that asks the directory at `resolver` for the key state of
/// `prefix`.
pub fn key_state_query(resolver: &String, prefix: &String) -> (query: String)
    ensures
        query@ == resolver@ + "key_states/"@ + prefix@,
{
    join_query(resolver, "key_states/", prefix)
}

/// The request that asks the directory at `resolver` for the key event log
/// of `prefix`.
pub fn key_log_query(resolver: &String, prefix: &String) -> (query: String)
    ensures
        query@ == resolver@ + "key_logs/"@ + prefix@,
{
    join_query(resolver, "key_logs/", prefix)
}

/// A cached location, and whether the configuration supplied it.
pub struct CachedLocation {
    pub location: String,
    pub configured: bool,
}

/// The locations that this process knows without asking a directory.
pub struct LocationCache {
    entries: TextMap<CachedLocation>,
}

impl LocationCache {
    /// The location held for each identifier.
    pub closed spec fn view(&self) -> Map<Seq<char>, Seq<char>> {
        Map::new(
            |id: Seq<char>| self.entries@.contains_key(id),
            |id: Seq<char>| self.entries@[id].location@,
        )
    }

    /// The identifiers whose location the configuration supplied.
    pub closed spec fn configured(&self) -> Set<Seq<char>> {
        Set::new(|id: Seq<char>| self.entries@.contains_key(id) && self.entries@[id].configured)
    }

    /// An empty cache.
    pub fn new() -> (cache: Self)
        ensures
            cache@ == Map::<Seq<char>, Seq<char>>::empty(),
            cache.configured() == Set::<Seq<char>>::empty(),
    {
        let cache = LocationCache { entries: TextMap::new() };
        assert(cache@ =~= Map::<Seq<char>, Seq<char>>::empty());
        assert(cache.configured() =~= Set::<Seq<char>>::empty());
        cache
    }

    /// The cached location of `id`.
    pub fn get(&self, id: &String) -> (location: Option<String>)
        ensures
            match location {
                Some(l) => self@.contains_key(id@) && self@[id@] == l@,
                None => !self@.contains_key(id@),
            },
    {
        match self.entries.get(id) {
            Some(cached) => Some(cached.location.clone()),
            None => None,
        }
    }

    /// Records a location that the configuration or a request supplied. It
    /// replaces whatever was held for `id`.
    pub fn insert(&mut self, id: String, location: String)
        ensures
            final(self)@ == old(self)@.insert(id@, location@),
            final(self).configured() == old(self).configured().insert(id@),
    {
        let ghost before = *self;
        let ghost key = id@;
        let ghost value = location@;
        self.entries.insert(id, CachedLocation { location, configured: true });
        assert(self@ =~= before@.insert(key, value));
        assert(self.configured() =~= before.configured().insert(key));
    }

    /// Records a location that a directory answered. A location that the
    /// configuration supplied is never overwritten: the result says whether
    /// the answer was taken.
    pub fn learn(&mut self, id: String, location: String) -> (taken: bool)
        ensures
            taken == !old(self).configured().contains(id@),
            final(self)@ == if taken {
                old(self)@.insert(id@, location@)
            } else {
                old(self)@
            },
            final(self).configured() == old(self).configured(),
    {
        let ghost before = *self;
        let ghost key = id@;
        let ghost value = location@;
        let pinned = match self.entries.get(&id) {
            Some(cached) => cached.configured,
            None => false,
        };
        if pinned {
            false
        } else {
            self.entries.insert(id, CachedLocation { location, configured: false });
            assert(self@ =~= before@.insert(key, value));
            assert(self.configured() =~= before.configured());
            true
        }
    }
}

/// The location of `id` by the two tiers: what the cache holds for it, else
/// what the directories' answers yield.
pub open spec fn resolved_location(
    cache: Map<Seq<char>, Seq<char>>,
    id: Seq<char>,
    answers: Seq<Option<String>>,
) -> Option<Seq<char>> {
    if cache.contains_key(id) {
        Some(cache[id])
    } else {
        witness_location(answers)
    }
}

impl LocationCache {
    /// Resolves the location of `id`: from the cache where it holds one,
    /// else from `answers`, what each directory answered when asked for
    /// `id`. A location that the directories gave is kept for later. Fails
    /// with [`ControllerError::MissingIp`] where neither tier has one.
    pub fn resolve(&mut self, id: &String, answers: &Vec<Option<String>>) -> (location: Result<
        String,
        ControllerError,
    >)
        ensures
            match resolved_location(old(self)@, id@, answers@) {
                Some(l) => location matches Ok(found) && found@ == l,
                None => location matches Err(ControllerError::MissingIp(w)) && w@ == id@,
            },
            final(self)@ == match resolved_location(old(self)@, id@, answers@) {
                Some(l) => old(self)@.insert(id@, l),
                None => old(self)@,
            },
            final(self).configured() == old(self).configured(),
    {
        match self.get(id) {
            Some(location) => {
                assert(self@.insert(id@, location@) =~= self@);
                Ok(location)
            },
            None => {
                let location = get_witness_ip(answers, id)?;
                let taken = self.learn(id.clone(), location.clone());
                assert(taken);
                Ok(location)
            },
        }
    }
}

/// The cache after the configured locations of `configs` have been recorded
/// in order: a witness that names a location gets it, one that names none
/// changes nothing.
pub open spec fn saved_locations(
    cache: Map<Seq<char>, Seq<char>>,
    configs: Seq<WitnessConfig>,
) -> Map<Seq<char>, Seq<char>>
    decreases configs.len(),
{
    if configs.len() == 0 {
        cache
    } else {
        let before = saved_locations(cache, configs.drop_last());
        match configs.last().location {
            Some(location) => before.insert(configs.last().aid->0@, location@),
            None => before,
        }
    }
}

/// The test "has a cached location".
pub open spec fn cached_in(cache: Map<Seq<char>, Seq<char>>) -> spec_fn(Seq<char>) -> bool {
    |id: Seq<char>| cache.contains_key(id)
}

/// The test "has no cached location".
pub open spec fn missing_from(cache: Map<Seq<char>, Seq<char>>) -> spec_fn(Seq<char>) -> bool {
    |id: Seq<char>| !cache.contains_key(id)
}

impl LocationCache {
    /// Records the locations that `witness_config` names and returns the
    /// identifiers of all its witnesses, in order.
    pub fn save_witness_data(&mut self, witness_config: &Vec<WitnessConfig>) -> (ids: Vec<String>)
        requires
            all_identified(witness_config@),
        ensures
            texts(ids@) == identifiers(witness_config@),
            final(self)@ == saved_locations(old(self)@, witness_config@),
    {
        let mut ids: Vec<String> = Vec::new();
        let mut i: usize = 0;
        assert(witness_config@.take(0) =~= Seq::<WitnessConfig>::empty());
        while i < witness_config.len()
            invariant
                i <= witness_config.len(),
                all_identified(witness_config@),
                texts(ids@) == identifiers(witness_config@).take(i as int),
                self@ == saved_locations(old(self)@, witness_config@.take(i as int)),
            decreases witness_config.len() - i,
        {
            let ghost upto = witness_config@.take(i + 1);
            assert(upto.drop_last() =~= witness_config@.take(i as int));
            assert(upto.last() == witness_config@[i as int]);
            match &witness_config[i].aid {
                Some(aid) => {
                    match &witness_config[i].location {
                        Some(location) => {
                            self.insert(aid.clone(), location.clone());
                        },
                        None => {},
                    }
                    let id = aid.clone();
                    proof {
                        lemma_texts_push(ids@, id);
                        assert(identifiers(witness_config@).take(i as int).push(id@)
                            =~= identifiers(witness_config@).take(i + 1));
                    }
                    ids.push(id);
                },
                None => unreached(),
            }
            i += 1;
        }
        assert(identifiers(witness_config@).take(witness_config.len() as int) =~= identifiers(
            witness_config@,
        ));
        assert(witness_config@.take(witness_config.len() as int) =~= witness_config@);
        ids
    }

    /// Splits `witnesses` by the cache: the locations of those that it
    /// holds, and the identifiers of those that a directory has to be asked
    /// for, each in the order of `witnesses`.
    pub fn get_ips(&self, witnesses: &Vec<String>) -> (split: (Vec<String>, Vec<String>))
        ensures
            texts(split.0@) == texts(witnesses@).filter(cached_in(self@)).map_values(
                |id: Seq<char>| self@[id],
            ),
            texts(split.1@) == texts(witnesses@).filter(missing_from(self@)),
    {
        let ghost locate = |id: Seq<char>| self@[id];
        let ghost all = texts(witnesses@);
        let mut found: Vec<String> = Vec::new();
        let mut missing: Vec<String> = Vec::new();
        let mut i: usize = 0;
        proof {
            lemma_filter_start(all, cached_in(self@));
            lemma_filter_start(all, missing_from(self@));
            assert(texts(found@) =~= all.take(0).filter(cached_in(self@)).map_values(locate));
            assert(texts(missing@) =~= all.take(0).filter(missing_from(self@)));
        }
        while i < witnesses.len()
            invariant
                i <= witnesses.len(),
                all == texts(witnesses@),
                locate == (|id: Seq<char>| self@[id]),
                texts(found@) == all.take(i as int).filter(cached_in(self@)).map_values(locate),
                texts(missing@) == all.take(i as int).filter(missing_from(self@)),
            decreases witnesses.len() - i,
        {
            proof {
                lemma_filter_step(all, i as int, cached_in(self@));
                lemma_filter_step(all, i as int, missing_from(self@));
            }
            match self.get(&witnesses[i]) {
                Some(location) => {
                    proof {
                        lemma_texts_push(found@, location);
                        let ids = all.take(i as int).filter(cached_in(self@));
                        assert(ids.push(all[i as int]).map_values(locate) =~= ids.map_values(
                            locate,
                        ).push(location@));
                    }
                    found.push(location);
                },
                None => {
                    let id = witnesses[i].clone();
                    proof {
                        lemma_texts_push(missing@, id);
                    }
                    missing.push(id);
                },
            }
            i += 1;
        }
        assert(all.take(witnesses.len() as int) =~= all);
        (found, missing)
    }
}

/// What the directories yield for the `i`-th witness that the cache does not
/// hold. A witness for which no answers were handed in counts as unanswered.
pub open spec fn directory_outcome(
    missing: Seq<Seq<char>>,
    answers: Seq<Vec<Option<String>>>,
    i: int,
) -> (Seq<char>, Option<Seq<char>>) {
    (
        missing[i],
        if i < answers.len() {
            witness_location(answers[i]@)
        } else {
            None
        },
    )
}

/// The directory outcomes of all witnesses that the cache does not hold.
pub open spec fn directory_outcomes(
    missing: Seq<Seq<char>>,
    answers: Seq<Vec<Option<String>>>,
) -> Seq<(Seq<char>, Option<Seq<char>>)> {
    Seq::new(missing.len(), |i: int| directory_outcome(missing, answers, i))
}

/// Picks the location of an outcome that has one.
pub open spec fn located() -> spec_fn((Seq<char>, Option<Seq<char>>)) -> Option<Seq<char>> {
    |outcome: (Seq<char>, Option<Seq<char>>)| outcome.1
}

/// Picks the witness of an outcome that has no location.
pub open spec fn unlocated() -> spec_fn((Seq<char>, Option<Seq<char>>)) -> Option<Seq<char>> {
    |outcome: (Seq<char>, Option<Seq<char>>)|
        match outcome.1 {
            Some(_) => None,
            None => Some(outcome.0),
        }
}

/// Reads the directories' answers for the witnesses that the cache does not
/// hold.
///
/// `answers[i]` holds what each directory answered for `missing[i]`. The
/// result is the locations of the witnesses that were found, and the
/// identifiers of those that were not, each in the order of `missing`. A
/// witness without a location is reported, and the others are not affected.
pub fn resolve_missing(missing: &Vec<String>, answers: &Vec<Vec<Option<String>>>) -> (split: (
    Vec<String>,
    Vec<String>,
))
    ensures
        texts(split.0@) == directory_outcomes(texts(missing@), answers@).filter_map(located()),
        texts(split.1@) == directory_outcomes(texts(missing@), answers@).filter_map(unlocated()),
{
    let ghost outcomes = directory_outcomes(texts(missing@), answers@);
    let mut resolved: Vec<String> = Vec::new();
    let mut unresolved: Vec<String> = Vec::new();
    let mut i: usize = 0;
    assert(texts(resolved@) =~= outcomes.take(0).filter_map(located()));
    assert(texts(unresolved@) =~= outcomes.take(0).filter_map(unlocated()));
    while i < missing.len()
        invariant
            i <= missing.len(),
            outcomes == directory_outcomes(texts(missing@), answers@),
            texts(resolved@) == outcomes.take(i as int).filter_map(located()),
            texts(unresolved@) == outcomes.take(i as int).filter_map(unlocated()),
        decreases missing.len() - i,
    {
        proof {
            outcomes.lemma_filter_map_take_succ(located(), i as int);
            outcomes.lemma_filter_map_take_succ(unlocated(), i as int);
        }
        let found = if i < answers.len() {
            match get_witness_ip(&answers[i], &missing[i]) {
                Ok(location) => Some(location),
                Err(_) => None,
            }
        } else {
            None
        };
        match found {
            Some(location) => {
                proof {
                    lemma_texts_push(resolved@, location);
                    assert(texts(resolved@).push(location@) =~= texts(resolved@) + seq![
                        location@,
                    ]);
                    assert(texts(unresolved@) + Seq::<Seq<char>>::empty() =~= texts(unresolved@));
                }
                resolved.push(location);
            },
            None => {
                let id = missing[i].clone();
                proof {
                    lemma_texts_push(unresolved@, id);
                    assert(texts(unresolved@).push(id@) =~= texts(unresolved@) + seq![id@]);
                    assert(texts(resolved@) + Seq::<Seq<char>>::empty() =~= texts(resolved@));
                }
                unresolved.push(id);
            },
        }
        i += 1;
    }
    assert(outcomes.take(missing.len() as int) =~= outcomes);
    (resolved, unresolved)
}

/// The cache after the locations of `outcomes` have been learned in order:
/// a location that a directory gave is kept, unless the configuration
/// supplied one for that witness.
pub open spec fn learned_locations(
    cache: Map<Seq<char>, Seq<char>>,
    configured: Set<Seq<char>>,
    outcomes: Seq<(Seq<char>, Option<Seq<char>>)>,
) -> Map<Seq<char>, Seq<char>>
    decreases outcomes.len(),
{
    if outcomes.len() == 0 {
        cache
    } else {
        let before = learned_locations(cache, configured, outcomes.drop_last());
        match outcomes.last().1 {
            Some(location) => if configured.contains(outcomes.last().0) {
                before
            } else {
                before.insert(outcomes.last().0, location)
            },
            None => before,
        }
    }
}

impl LocationCache {
    /// Keeps the locations that the directories gave for the witnesses in
    /// `missing`; `answers[i]` holds what each directory answered for
    /// `missing[i]`. Locations that the configuration supplied stay as they
    /// are.
    pub fn learn_outcomes(&mut self, missing: &Vec<String>, answers: &Vec<Vec<Option<String>>>)
        ensures
            final(self)@ == learned_locations(
                old(self)@,
                old(self).configured(),
                directory_outcomes(texts(missing@), answers@),
            ),
            final(self).configured() == old(self).configured(),
    {
        let ghost outcomes = directory_outcomes(texts(missing@), answers@);
        let ghost start = self@;
        let ghost configured = self.configured();
        let mut i: usize = 0;
        assert(outcomes.take(0) =~= Seq::<(Seq<char>, Option<Seq<char>>)>::empty());
        while i < missing.len()
            invariant
                i <= missing.len(),
                outcomes == directory_outcomes(texts(missing@), answers@),
                self.configured() == configured,
                self@ == learned_locations(start, configured, outcomes.take(i as int)),
            decreases missing.len() - i,
        {
            let ghost upto = outcomes.take(i + 1);
            assert(upto.drop_last() =~= outcomes.take(i as int));
            assert(upto.last() == outcomes[i as int]);
            if i < answers.len() {
                match get_witness_ip(&answers[i], &missing[i]) {
                    Ok(location) => {
                        let _ = self.learn(missing[i].clone(), location);
                    },
                    Err(_) => {},
                }
            }
            i += 1;
        }
        assert(outcomes.take(missing.len() as int) =~= outcomes);
    }
}

} // verus!
