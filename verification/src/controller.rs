//! The controller of one identifier: what it knows of witnesses, directories
//! and other identifiers, and the decisions it takes on the way to an
//! inception or a rotation.
//!
//! The event log and the signing keys are not held here. The caller hands in
//! what the event log says of the identifier's state and carries out what
//! the controller decides.

use keri::signer::CryptoBox;
use vstd::prelude::*;
use crate::bytes::copy_bytes;
use crate::directory::{
    cached_in, first_success, missing_from, resolved_location, saved_locations, witness_ip_query,
    witness_location, LocationCache,
};
use crate::error::{ApiError, ControllerError};
use crate::keystate::{witnesses_after, KeyState, KeyStateView};
use crate::publication::{begin, initial_state, pending_action, Action, Publication};
use crate::resolution::{
    first_lookup, known_after, next_lookup, pending_request, Finding, KeyLookup, KnownIssuers,
    Request,
};
use crate::rollout::{
    advance, cache_after, first_rollout, next_rollout, pending_task, start, Progress, Rollout,
    Task,
};
use crate::rotation::{
    lemma_empty_request_changes_nothing, lemma_threshold_above_witness_count_is_refused,
    plan_rotation, resulting_witnesses, rotation_plan, RotationPlan, RotationPlanView,
};
use crate::signature::{sign, KeyConfig, Signature};
use crate::text::{lemma_texts_push, texts};
use crate::witness::{all_identified, identifiers, witness_ids, WitnessConfig};

verus! {

/// What a rotation request leads to: a plan, or the reason for which it is
/// refused. Before inception there is no state to rotate.
pub open spec fn rotation_outcome(
    state: Option<KeyStateView>,
    new_list: Option<Seq<Seq<char>>>,
    requested: Option<u64>,
) -> Result<RotationPlanView, ControllerError> {
    match state {
        None => Err(ControllerError::NoPriorState),
        Some(current) => match rotation_plan(
            current.witnesses,
            current.threshold,
            new_list,
            requested,
        ) {
            Some(plan) => Ok(plan),
            None => Err(ControllerError::ThresholdViolation),
        },
    }
}

/// The identifiers of a requested witness list, if one was given.
pub open spec fn requested_ids(witness_list: Option<Vec<WitnessConfig>>) -> Option<Seq<Seq<char>>> {
    match witness_list {
        Some(list) => Some(identifiers(list@)),
        None => None,
    }
}

/// The value of a key state, if there is one.
pub open spec fn state_view(state: Option<&KeyState>) -> Option<KeyStateView> {
    match state {
        Some(s) => Some(s@),
        None => None,
    }
}

/// The configuration of a requested witness list; none where no list was
/// given.
pub open spec fn requested_configs(witness_list: Option<Vec<WitnessConfig>>) -> Seq<WitnessConfig> {
    match witness_list {
        Some(list) => list@,
        None => Seq::empty(),
    }
}

/// The controller of one identifier.
pub struct Controller {
    resolver_addresses: Vec<String>,
    saved_witnesses: LocationCache,
    known_issuers: KnownIssuers,
}

impl Controller {
    /// The addresses of the configured directories, in order.
    pub closed spec fn resolvers(&self) -> Seq<Seq<char>> {
        texts(self.resolver_addresses@)
    }

    /// The witness locations that are held locally.
    pub closed spec fn locations(&self) -> Map<Seq<char>, Seq<char>> {
        self.saved_witnesses@
    }

    /// The witnesses whose location the configuration or a request supplied.
    pub closed spec fn configured_witnesses(&self) -> Set<Seq<char>> {
        self.saved_witnesses.configured()
    }

    /// The key configurations of the identifiers that are tracked.
    pub closed spec fn known_keys(&self) -> Map<Seq<char>, KeyConfig> {
        self.known_issuers@
    }

    /// A controller that knows the directories at `resolver_addresses` and
    /// nothing else.
    pub fn new(resolver_addresses: Vec<String>) -> (controller: Self)
        ensures
            controller.resolvers() == texts(resolver_addresses@),
            controller.locations() == Map::<Seq<char>, Seq<char>>::empty(),
            controller.known_keys() == Map::<Seq<char>, KeyConfig>::empty(),
    {
        Controller {
            resolver_addresses,
            saved_witnesses: LocationCache::new(),
            known_issuers: KnownIssuers::new(),
        }
    }

    /// Sets a controller up for inception: records the locations of the
    /// initial witnesses and hands back their identifiers, which the
    /// inception event is to name.
    pub fn init(
        resolver_addresses: Vec<String>,
        initial_witnesses: Option<Vec<WitnessConfig>>,
    ) -> (ready: (Self, Vec<String>))
        requires
            initial_witnesses matches Some(list) ==> all_identified(list@),
        ensures
            ready.0.resolvers() == texts(resolver_addresses@),
            ready.0.locations() == saved_locations(
                Map::empty(),
                requested_configs(initial_witnesses),
            ),
            texts(ready.1@) == identifiers(requested_configs(initial_witnesses)),
    {
        let mut controller = Controller::new(resolver_addresses);
        let witnesses = match initial_witnesses {
            Some(list) => list,
            None => Vec::new(),
        };
        let prefixes = controller.save_witness_data(&witnesses);
        (controller, prefixes)
    }

    /// Records the locations that `witness_config` names and returns the
    /// identifiers of all its witnesses, in order.
    pub fn save_witness_data(&mut self, witness_config: &Vec<WitnessConfig>) -> (ids: Vec<String>)
        requires
            all_identified(witness_config@),
        ensures
            texts(ids@) == identifiers(witness_config@),
            final(self).locations() == saved_locations(old(self).locations(), witness_config@),
            final(self).resolvers() == old(self).resolvers(),
            final(self).known_keys() == old(self).known_keys(),
    {
        self.saved_witnesses.save_witness_data(witness_config)
    }

    /// Splits `witnesses` into the locations that are held for them and the
    /// identifiers that the directories have to be asked about.
    pub fn get_ips(&self, witnesses: &Vec<String>) -> (split: (Vec<String>, Vec<String>))
        ensures
            texts(split.0@) == texts(witnesses@).filter(cached_in(self.locations())).map_values(
                |id: Seq<char>| self.locations()[id],
            ),
            texts(split.1@) == texts(witnesses@).filter(missing_from(self.locations())),
    {
        self.saved_witnesses.get_ips(witnesses)
    }

    /// Starts the publication of an event to `witnesses`.
    pub fn publish_event(&self, witnesses: &Vec<String>) -> (start: (Publication, Action))
        ensures
            start.0@ == initial_state(self.locations(), texts(witnesses@)),
            start.1@ == pending_action(start.0@),
    {
        begin(&self.saved_witnesses, witnesses)
    }

    /// Decides on a rotation request.
    ///
    /// `state` is the identifier's current key state, `None` before
    /// inception. Fails with [`ControllerError::NoPriorState`] where there
    /// is no state and with [`ControllerError::ThresholdViolation`] where
    /// the threshold rule refuses the request; the controller is unchanged
    /// then. Otherwise the locations that the requested witnesses name are
    /// recorded and the plan of the rotation is returned.
    pub fn rotate(
        &mut self,
        state: Option<&KeyState>,
        witness_list: Option<Vec<WitnessConfig>>,
        witness_threshold: Option<u64>,
    ) -> (outcome: Result<RotationPlan, ControllerError>)
        requires
            witness_list matches Some(list) ==> all_identified(list@),
        ensures
            final(self).resolvers() == old(self).resolvers(),
            final(self).known_keys() == old(self).known_keys(),
            match rotation_outcome(
                state_view(state),
                requested_ids(witness_list),
                witness_threshold,
            ) {
                Ok(plan) => {
                    &&& outcome matches Ok(p) && p@ == plan
                    &&& final(self).locations() == saved_locations(
                        old(self).locations(),
                        requested_configs(witness_list),
                    )
                },
                Err(error) => {
                    &&& outcome == Err::<RotationPlan, ControllerError>(error)
                    &&& final(self).locations() == old(self).locations()
                },
            },
    {
        let current = match state {
            Some(current) => current,
            None => {
                return Err(ControllerError::NoPriorState);
            },
        };
        match witness_list {
            Some(list) => {
                let ids = witness_ids(&list);
                let plan = match plan_rotation(current, Some(&ids), witness_threshold) {
                    Ok(plan) => plan,
                    Err(error) => {
                        return Err(error);
                    },
                };
                let _ = self.saved_witnesses.save_witness_data(&list);
                Ok(plan)
            },
            None => plan_rotation(current, None, witness_threshold),
        }
    }

    /// Picks a witness location from the directories' answers; see
    /// [`crate::directory::get_witness_ip`].
    pub fn get_witness_ip(answers: &Vec<Option<String>>, witness: &String) -> (location: Result<
        String,
        ControllerError,
    >)
        ensures
            match witness_location(answers@) {
                Some(l) => location matches Ok(found) && found@ == l,
                None => location matches Err(ControllerError::MissingIp(w)) && w@ == witness@,
            },
    {
        crate::directory::get_witness_ip(answers, witness)
    }

    /// Picks the key state that the directories report: the first one that
    /// arrived and could be read, in the order of the directories. Fails
    /// with [`ControllerError::PeerUnavailable`] where there is none.
    pub fn get_state_from_resolvers(answers: Vec<Option<KeyState>>) -> (state: Result<
        KeyState,
        ControllerError,
    >)
        ensures
            match state {
                Ok(found) => exists|i: int|
                    0 <= i < answers.len() && (#[trigger] answers[i]) == Some(found) && forall|
                        j: int,
                    |
                        0 <= j < i ==> answers[j] is None,
                Err(error) => error == ControllerError::PeerUnavailable && forall|j: int|
                    0 <= j < answers.len() ==> answers[j] is None,
            },
    {
        let mut answers = answers;
        match first_success(&answers) {
            Some(i) => {
                match answers.swap_remove(i) {
                    Some(found) => Ok(found),
                    None => Err(ControllerError::PeerUnavailable),
                }
            },
            None => Err(ControllerError::PeerUnavailable),
        }
    }

    /// Starts the search for the keys of `issuer`: they come from what is
    /// tracked, else from the key event log that the directories deliver.
    pub fn get_public_keys(&self, issuer: &String) -> (begun: (KeyLookup, Request))
        ensures
            begun.0@ == first_lookup(self.known_keys(), self.resolvers(), issuer@),
            begun.1@ == pending_request(begun.0@),
    {
        self.known_issuers.get_public_keys(&self.resolver_addresses, issuer)
    }

    /// Moves the search for an identifier's keys on by one finding; see
    /// [`KnownIssuers::advance`].
    pub fn resolve_keys(&mut self, state: KeyLookup, finding: Finding) -> (moved: (
        KeyLookup,
        Request,
    ))
        ensures
            moved.0@ == next_lookup(state@, finding),
            moved.1@ == pending_request(moved.0@),
            final(self).known_keys() == known_after(state@, finding, old(self).known_keys()),
            final(self).resolvers() == old(self).resolvers(),
            final(self).locations() == old(self).locations(),
    {
        self.known_issuers.advance(state, finding)
    }

    /// Starts the rotation that `plan` describes; see
    /// [`crate::rollout::start`].
    pub fn roll_out(&self, plan: RotationPlan) -> (begun: (Rollout, Task))
        ensures
            begun.0@ == first_rollout(self.locations(), plan@),
            begun.1@ == pending_task(begun.0@),
    {
        start(&self.saved_witnesses, plan)
    }

    /// Moves a rotation on by one piece of progress; see
    /// [`crate::rollout::advance`].
    pub fn advance_rotation(&mut self, state: Rollout, progress: Progress) -> (moved: (
        Rollout,
        Task,
    ))
        ensures
            moved.0@ == next_rollout(state@, progress),
            moved.1@ == pending_task(moved.0@),
            final(self).locations() == cache_after(
                state@,
                progress,
                old(self).locations(),
                old(self).configured_witnesses(),
            ),
            final(self).configured_witnesses() == old(self).configured_witnesses(),
            final(self).resolvers() == old(self).resolvers(),
            final(self).known_keys() == old(self).known_keys(),
    {
        advance(&mut self.saved_witnesses, state, progress)
    }

    /// Resolves the location of `witness` by the two tiers; see
    /// [`LocationCache::resolve`].
    pub fn resolve_witness(&mut self, witness: &String, answers: &Vec<Option<String>>) -> (location:
        Result<String, ControllerError>)
        ensures
            final(self).resolvers() == old(self).resolvers(),
            final(self).known_keys() == old(self).known_keys(),
            match resolved_location(old(self).locations(), witness@, answers@) {
                Some(l) => location matches Ok(found) && found@ == l,
                None => location matches Err(ControllerError::MissingIp(w)) && w@ == witness@,
            },
            final(self).locations() == match resolved_location(
                old(self).locations(),
                witness@,
                answers@,
            ) {
                Some(l) => old(self).locations().insert(witness@, l),
                None => old(self).locations(),
            },
    {
        self.saved_witnesses.resolve(witness, answers)
    }

    /// The requests that ask each directory where `witness` is.
    pub fn witness_ip_queries(&self, witness: &String) -> (queries: Vec<String>)
        ensures
            texts(queries@) == Seq::new(
                self.resolvers().len(),
                |i: int| self.resolvers()[i] + "witness_ips/"@ + witness@,
            ),
    {
        let ghost all = Seq::new(
            self.resolvers().len(),
            |i: int| self.resolvers()[i] + "witness_ips/"@ + witness@,
        );
        let mut queries: Vec<String> = Vec::new();
        let mut i: usize = 0;
        while i < self.resolver_addresses.len()
            invariant
                i <= self.resolver_addresses.len(),
                all == Seq::new(
                    self.resolvers().len(),
                    |i: int| self.resolvers()[i] + "witness_ips/"@ + witness@,
                ),
                texts(queries@) == all.take(i as int),
            decreases self.resolver_addresses.len() - i,
        {
            let query = witness_ip_query(&self.resolver_addresses[i], witness);
            proof {
                lemma_texts_push(queries@, query);
                assert(all.take(i as int).push(query@) =~= all.take(i + 1));
            }
            queries.push(query);
            i += 1;
        }
        assert(all.take(self.resolver_addresses.len() as int) =~= all);
        queries
    }

    /// Signs `data` with the current key of the key manager; see
    /// [`crate::signature::sign`].
    pub fn sign(keys: &CryptoBox, data: &[u8]) -> (signature: Result<Signature, ApiError>)
        ensures
            match signature {
                Ok(made) => made.index == 0,
                Err(error) => error is SomeError,
            },
    {
        sign(keys, data)
    }

    /// Tracks `issuer` with the key configuration `keys`: the controller's
    /// own identifier after each of its events, or another identifier whose
    /// key event log the event log has validated.
    pub fn track(&mut self, issuer: String, keys: KeyConfig)
        ensures
            final(self).known_keys() == old(self).known_keys().insert(issuer@, keys),
            final(self).resolvers() == old(self).resolvers(),
            final(self).locations() == old(self).locations(),
    {
        self.known_issuers.track(issuer, keys);
    }
}

/// What the new witnesses of a rotation are sent before the rotation event:
/// the key event log so far, followed by the receipts that were collected
/// for it.
pub fn bootstrap_log(kel: &[u8], receipts: &[u8]) -> (log: Vec<u8>)
    ensures
        log@ == kel@ + receipts@,
{
    let mut log = copy_bytes(kel);
    let mut i: usize = 0;
    assert(kel@ + receipts@.take(0) =~= kel@);
    while i < receipts.len()
        invariant
            i <= receipts.len(),
            log@ == kel@ + receipts@.take(i as int),
        decreases receipts.len() - i,
    {
        log.push(receipts[i]);
        assert((kel@ + receipts@.take(i as int)).push(receipts@[i as int]) =~= kel@
            + receipts@.take(i + 1));
        i += 1;
    }
    assert(receipts@.take(receipts.len() as int) =~= receipts@);
    log
}

/// A rotation request that asks for nothing is granted and changes nothing:
/// on any key state, a request without witness list and threshold yields a
/// plan that adds and removes no witness, keeps the threshold and leaves the
/// witness list as it was.
pub proof fn lemma_empty_rotation_keeps_state(state: KeyStateView)
    ensures
        rotation_outcome(Some(state), None, None) matches Ok(plan) && {
            &&& plan.threshold == state.threshold
            &&& plan.publish_to == state.witnesses
            &&& witnesses_after(state.witnesses, plan.witness_to_remove, plan.witness_to_add)
                == state.witnesses
        },
{
    lemma_empty_request_changes_nothing(state.witnesses, state.threshold);
}

/// A rotation request whose threshold is above the size of the resulting
/// witness set is refused with [`ControllerError::ThresholdViolation`]. The
/// key state is only read, so it is as it was.
pub proof fn lemma_unreachable_threshold_is_refused(
    state: KeyStateView,
    new_list: Option<Seq<Seq<char>>>,
    requested: u64,
)
    requires
        requested > resulting_witnesses(state.witnesses, new_list).len(),
    ensures
        rotation_outcome(Some(state), new_list, Some(requested)) == Err::<
            RotationPlanView,
            ControllerError,
        >(ControllerError::ThresholdViolation),
{
    lemma_threshold_above_witness_count_is_refused(
        state.witnesses,
        state.threshold,
        new_list,
        requested,
    );
}

} // verus!
