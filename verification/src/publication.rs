//! Publishing a signed event to witnesses and bringing their receipts home.
//!
//! Publication alternates between work on the network and decisions. The
//! decisions are made here: [`begin`] and [`step`] take what happened and
//! say what is to be done next. The caller performs each [`Action`] and
//! reports back with an [`Event`].
//!
//! A witness whose location cannot be found, or that does not answer, is
//! passed over; the others are not affected. Publication fails only where
//! witnesses were named and none of them answered, or where the event log
//! refuses a receipt. Whether the receipts reach the threshold is for the
//! event log to say.

use vstd::prelude::*;
use vstd::seq_lib::lemma_flatten_concat;
use crate::directory::{
    cached_in, directory_outcomes, located, missing_from, publish_endpoint, resolve_missing,
    unlocated, LocationCache,
};
use crate::error::ControllerError;
use crate::text::{chain_texts, clone_texts, lemma_texts_push, texts};

verus! {

/// What a witness answers to a published event or receipt.
#[derive(Debug, Clone, PartialEq, Eq)]
pub struct RespondData {
    pub parsed: u64,
    pub not_parsed: String,
    pub receipts: Vec<String>,
    pub errors: Vec<String>,
}

/// All of `parts` in a row.
pub fn join_all(parts: &Vec<String>) -> (whole: String)
    ensures
        whole@ == texts(parts@).flatten(),
{
    let mut whole = String::new();
    let mut i: usize = 0;
    assert(texts(parts@).take(0) =~= Seq::<Seq<char>>::empty());
    while i < parts.len()
        invariant
            i <= parts.len(),
            whole@ == texts(parts@).take(i as int).flatten(),
        decreases parts.len() - i,
    {
        proof {
            let done = texts(parts@).take(i as int);
            let one = seq![parts@[i as int]@];
            assert(texts(parts@).take(i + 1) =~= done + one);
            lemma_flatten_concat(done, one);
            one.lemma_flatten_one_element();
        }
        whole.append(parts[i].as_str());
        i += 1;
    }
    assert(texts(parts@).take(parts.len() as int) =~= texts(parts@));
    whole
}

/// The endpoints that the witnesses at `locations` take events at.
pub open spec fn endpoints_of(locations: Seq<Seq<char>>) -> Seq<Seq<char>> {
    Seq::new(locations.len(), |i: int| locations[i] + "publish"@)
}

/// Builds the endpoint of each location.
pub fn endpoints(locations: &Vec<String>) -> (all: Vec<String>)
    ensures
        texts(all@) == endpoints_of(texts(locations@)),
{
    let mut all: Vec<String> = Vec::new();
    let mut i: usize = 0;
    while i < locations.len()
        invariant
            i <= locations.len(),
            texts(all@) == endpoints_of(texts(locations@)).take(i as int),
        decreases locations.len() - i,
    {
        let endpoint = publish_endpoint(&locations[i]);
        proof {
            lemma_texts_push(all@, endpoint);
            assert(endpoints_of(texts(locations@)).take(i as int).push(endpoint@)
                =~= endpoints_of(texts(locations@)).take(i + 1));
        }
        all.push(endpoint);
        i += 1;
    }
    assert(endpoints_of(texts(locations@)).take(locations.len() as int) =~= endpoints_of(
        texts(locations@),
    ));
    all
}

/// Picks the receipts of a response that arrived.
pub open spec fn receipts_of() -> spec_fn(Option<RespondData>) -> Option<Seq<Seq<char>>> {
    |response: Option<RespondData>|
        match response {
            Some(data) => Some(texts(data.receipts@)),
            None => None,
        }
}

/// Every receipt of every response that arrived, in the order of the
/// responses.
pub open spec fn collected_receipts(responses: Seq<Option<RespondData>>) -> Seq<Seq<char>> {
    responses.filter_map(receipts_of()).flatten()
}

/// Whether any response arrived.
pub open spec fn any_response(responses: Seq<Option<RespondData>>) -> bool {
    exists|i: int| 0 <= i < responses.len() && (#[trigger] responses[i]) is Some
}

/// Gathers the receipts of the responses that arrived and tells whether
/// there was any response at all.
pub fn collect_receipts(responses: &Vec<Option<RespondData>>) -> (gathered: (Vec<String>, bool))
    ensures
        texts(gathered.0@) == collected_receipts(responses@),
        gathered.1 == any_response(responses@),
{
    let mut receipts: Vec<String> = Vec::new();
    let mut answered = false;
    let mut i: usize = 0;
    assert(texts(receipts@) =~= responses@.take(0).filter_map(receipts_of()).flatten());
    while i < responses.len()
        invariant
            i <= responses.len(),
            texts(receipts@) == responses@.take(i as int).filter_map(receipts_of()).flatten(),
            answered == exists|j: int| 0 <= j < i && (#[trigger] responses@[j]) is Some,
        decreases responses.len() - i,
    {
        let ghost groups = responses@.take(i as int).filter_map(receipts_of());
        proof {
            responses@.lemma_filter_map_take_succ(receipts_of(), i as int);
        }
        match &responses[i] {
            Some(data) => {
                let ghost base = texts(receipts@);
                let ghost added = texts(data.receipts@);
                let mut j: usize = 0;
                assert(base + added.take(0) =~= base);
                while j < data.receipts.len()
                    invariant
                        j <= data.receipts.len(),
                        added == texts(data.receipts@),
                        texts(receipts@) == base + added.take(j as int),
                    decreases data.receipts.len() - j,
                {
                    let receipt = data.receipts[j].clone();
                    proof {
                        lemma_texts_push(receipts@, receipt);
                        assert((base + added.take(j as int)).push(receipt@) =~= base + added.take(
                            j + 1,
                        ));
                    }
                    receipts.push(receipt);
                    j += 1;
                }
                proof {
                    assert(added.take(data.receipts.len() as int) =~= added);
                    let one = seq![added];
                    lemma_flatten_concat(groups, one);
                    one.lemma_flatten_one_element();
                }
                answered = true;
            },
            None => {
                assert(groups + Seq::<Seq<Seq<char>>>::empty() =~= groups);
            },
        }
        i += 1;
    }
    assert(responses@.take(responses.len() as int) =~= responses@);
    (receipts, answered)
}

/// Where a publication stands.
#[derive(Debug, PartialEq, Eq)]
pub enum Publication {
    /// The directories are being asked about the witnesses in `missing`;
    /// `found` holds the locations that the cache gave.
    Locating { found: Vec<String>, missing: Vec<String> },
    /// The event is on its way to the witnesses at `targets`. The witnesses
    /// in `unresolved` have no location and are passed over.
    Sending { targets: Vec<String>, unresolved: Vec<String> },
    /// The first `applied` of `receipts` are in the event log. Once all are,
    /// the receipts go back to the witnesses at `targets`.
    Applying { targets: Vec<String>, receipts: Vec<String>, applied: usize },
    /// The publication succeeded.
    Done,
    /// The publication failed.
    Failed(ControllerError),
}

/// The mathematical value of a [`Publication`].
pub enum PublicationView {
    Locating { found: Seq<Seq<char>>, missing: Seq<Seq<char>> },
    Sending { targets: Seq<Seq<char>>, unresolved: Seq<Seq<char>> },
    Applying { targets: Seq<Seq<char>>, receipts: Seq<Seq<char>>, applied: nat },
    Done,
    Failed(ControllerError),
}

impl View for Publication {
    type V = PublicationView;

    open spec fn view(&self) -> PublicationView {
        match *self {
            Publication::Locating { found, missing } => PublicationView::Locating {
                found: texts(found@),
                missing: texts(missing@),
            },
            Publication::Sending { targets, unresolved } => PublicationView::Sending {
                targets: texts(targets@),
                unresolved: texts(unresolved@),
            },
            Publication::Applying { targets, receipts, applied } => PublicationView::Applying {
                targets: texts(targets@),
                receipts: texts(receipts@),
                applied: applied as nat,
            },
            Publication::Done => PublicationView::Done,
            Publication::Failed(error) => PublicationView::Failed(error),
        }
    }
}

/// What the caller reports back.
#[derive(Debug, Clone, PartialEq, Eq)]
pub enum Event {
    /// The directories were asked. The `i`-th entry holds, per directory,
    /// the address it gave for the `i`-th missing witness, or `None`.
    Located(Vec<Vec<Option<String>>>),
    /// The event was sent. Each entry is what one witness answered, or
    /// `None` where it could not be reached or its answer not be read.
    Responded(Vec<Option<RespondData>>),
    /// The event log took the receipt (`true`) or refused it.
    Applied(bool),
    /// The receipts were sent back to the witnesses.
    Delivered,
}

/// What the caller is to do next.
#[derive(Debug, PartialEq, Eq)]
pub enum Action {
    /// Ask every directory for the address of each of these witnesses.
    AskDirectories(Vec<String>),
    /// Send the signed event to each of these endpoints.
    Send(Vec<String>),
    /// Hand this receipt to the event log.
    Apply(String),
    /// Send `body`, all receipts in a row, to each of the endpoints.
    Rebroadcast { endpoints: Vec<String>, body: String },
    /// Nothing is left to do: the publication succeeded.
    Finish,
    /// Nothing is left to do: the publication failed.
    Fail(ControllerError),
}

/// The mathematical value of an [`Action`].
pub enum ActionView {
    AskDirectories(Seq<Seq<char>>),
    Send(Seq<Seq<char>>),
    Apply(Seq<char>),
    Rebroadcast { endpoints: Seq<Seq<char>>, body: Seq<char> },
    Finish,
    Fail(ControllerError),
}

impl View for Action {
    type V = ActionView;

    open spec fn view(&self) -> ActionView {
        match *self {
            Action::AskDirectories(witnesses) => ActionView::AskDirectories(texts(witnesses@)),
            Action::Send(endpoints) => ActionView::Send(texts(endpoints@)),
            Action::Apply(receipt) => ActionView::Apply(receipt@),
            Action::Rebroadcast { endpoints, body } => ActionView::Rebroadcast {
                endpoints: texts(endpoints@),
                body: body@,
            },
            Action::Finish => ActionView::Finish,
            Action::Fail(error) => ActionView::Fail(error),
        }
    }
}

/// The state once it is known which witnesses have a location: with no
/// target there is nothing to send, and that is a failure unless no witness
/// was named at all.
pub open spec fn located_state(
    targets: Seq<Seq<char>>,
    unresolved: Seq<Seq<char>>,
) -> PublicationView {
    if targets.len() > 0 {
        PublicationView::Sending { targets, unresolved }
    } else if unresolved.len() > 0 {
        PublicationView::Failed(ControllerError::PeerUnavailable)
    } else {
        PublicationView::Done
    }
}

/// The state in which a publication to `witnesses` starts, given what the
/// cache holds.
pub open spec fn initial_state(
    cache: Map<Seq<char>, Seq<char>>,
    witnesses: Seq<Seq<char>>,
) -> PublicationView {
    let found = witnesses.filter(cached_in(cache)).map_values(|id: Seq<char>| cache[id]);
    let missing = witnesses.filter(missing_from(cache));
    if missing.len() > 0 {
        PublicationView::Locating { found, missing }
    } else {
        located_state(found, Seq::empty())
    }
}

/// The state that `state` moves to on `event`. An event that the state does
/// not wait for changes nothing.
pub open spec fn next_state(state: PublicationView, event: Event) -> PublicationView {
    match (state, event) {
        (PublicationView::Locating { found, missing }, Event::Located(answers)) => {
            let outcomes = directory_outcomes(missing, answers@);
            located_state(
                found + outcomes.filter_map(located()),
                outcomes.filter_map(unlocated()),
            )
        },
        (PublicationView::Sending { targets, unresolved }, Event::Responded(responses)) => {
            if any_response(responses@) {
                PublicationView::Applying {
                    targets,
                    receipts: collected_receipts(responses@),
                    applied: 0,
                }
            } else {
                PublicationView::Failed(ControllerError::PeerUnavailable)
            }
        },
        (PublicationView::Applying { targets, receipts, applied }, Event::Applied(taken)) => {
            if applied >= receipts.len() {
                state
            } else if taken {
                PublicationView::Applying { targets, receipts, applied: applied + 1 }
            } else {
                PublicationView::Failed(ControllerError::ReceiptRejected)
            }
        },
        (PublicationView::Applying { targets, receipts, applied }, Event::Delivered) => {
            if applied >= receipts.len() {
                PublicationView::Done
            } else {
                state
            }
        },
        _ => state,
    }
}

/// The action that `state` waits for.
pub open spec fn pending_action(state: PublicationView) -> ActionView {
    match state {
        PublicationView::Locating { found, missing } => ActionView::AskDirectories(missing),
        PublicationView::Sending { targets, unresolved } => ActionView::Send(
            endpoints_of(targets),
        ),
        PublicationView::Applying { targets, receipts, applied } => {
            if applied < receipts.len() {
                ActionView::Apply(receipts[applied as int])
            } else {
                ActionView::Rebroadcast {
                    endpoints: endpoints_of(targets),
                    body: receipts.flatten(),
                }
            }
        },
        PublicationView::Done => ActionView::Finish,
        PublicationView::Failed(error) => ActionView::Fail(error),
    }
}

/// The state for the located witnesses, as [`located_state`] has it.
fn located_publication(targets: Vec<String>, unresolved: Vec<String>) -> (state: Publication)
    ensures
        state@ == located_state(texts(targets@), texts(unresolved@)),
{
    if targets.len() > 0 {
        Publication::Sending { targets, unresolved }
    } else if unresolved.len() > 0 {
        Publication::Failed(ControllerError::PeerUnavailable)
    } else {
        Publication::Done
    }
}

impl Publication {
    /// The action that this state waits for.
    pub fn pending(&self) -> (action: Action)
        ensures
            action@ == pending_action(self@),
    {
        match self {
            Publication::Locating { found, missing } => Action::AskDirectories(
                clone_texts(missing),
            ),
            Publication::Sending { targets, unresolved } => Action::Send(endpoints(targets)),
            Publication::Applying { targets, receipts, applied } => {
                if *applied < receipts.len() {
                    Action::Apply(receipts[*applied].clone())
                } else {
                    Action::Rebroadcast { endpoints: endpoints(targets), body: join_all(receipts) }
                }
            },
            Publication::Done => Action::Finish,
            Publication::Failed(error) => Action::Fail(error.duplicate()),
        }
    }
}

/// Starts the publication of an event to `witnesses`.
///
/// Returns the first state and the action that it waits for.
pub fn begin(cache: &LocationCache, witnesses: &Vec<String>) -> (start: (Publication, Action))
    ensures
        start.0@ == initial_state(cache@, texts(witnesses@)),
        start.1@ == pending_action(start.0@),
{
    let (found, missing) = cache.get_ips(witnesses);
    let state = if missing.len() > 0 {
        Publication::Locating { found, missing }
    } else {
        let none: Vec<String> = Vec::new();
        assert(texts(none@) =~= Seq::<Seq<char>>::empty());
        located_publication(found, none)
    };
    let action = state.pending();
    (state, action)
}

/// Moves a publication on by one event.
///
/// Returns the next state and the action that it waits for. An event that
/// `state` does not wait for changes nothing, and the pending action is
/// returned once more.
pub fn step(state: Publication, event: Event) -> (moved: (Publication, Action))
    ensures
        moved.0@ == next_state(state@, event),
        moved.1@ == pending_action(moved.0@),
{
    let next = match (state, event) {
        (Publication::Locating { found, missing }, Event::Located(answers)) => {
            let (resolved, unresolved) = resolve_missing(&missing, &answers);
            located_publication(chain_texts(found, resolved), unresolved)
        },
        (Publication::Sending { targets, unresolved }, Event::Responded(responses)) => {
            let (receipts, answered) = collect_receipts(&responses);
            if answered {
                Publication::Applying { targets, receipts, applied: 0 }
            } else {
                Publication::Failed(ControllerError::PeerUnavailable)
            }
        },
        (Publication::Applying { targets, receipts, applied }, Event::Applied(taken)) => {
            if applied >= receipts.len() {
                Publication::Applying { targets, receipts, applied }
            } else if taken {
                Publication::Applying { targets, receipts, applied: applied + 1 }
            } else {
                Publication::Failed(ControllerError::ReceiptRejected)
            }
        },
        (Publication::Applying { targets, receipts, applied }, Event::Delivered) => {
            if applied >= receipts.len() {
                Publication::Done
            } else {
                Publication::Applying { targets, receipts, applied }
            }
        },
        (state, _) => state,
    };
    let action = next.pending();
    (next, action)
}

/// The state that `state` moves to on a run of events.
pub open spec fn run(state: PublicationView, events: Seq<Event>) -> PublicationView
    decreases events.len(),
{
    if events.len() == 0 {
        state
    } else {
        run(next_state(state, events.first()), events.drop_first())
    }
}

/// `count` receipts that the event log takes, and the delivery that follows.
pub open spec fn receipts_taken(count: nat) -> Seq<Event> {
    Seq::new(count, |i: int| Event::Applied(true)) + seq![Event::Delivered]
}

/// Once the receipts are gathered, the publication ends well if the event
/// log takes each of them and the receipts are sent back.
proof fn lemma_taken_receipts_finish(
    targets: Seq<Seq<char>>,
    receipts: Seq<Seq<char>>,
    applied: nat,
)
    requires
        applied <= receipts.len(),
    ensures
        run(
            PublicationView::Applying { targets, receipts, applied },
            receipts_taken((receipts.len() - applied) as nat),
        ) == PublicationView::Done,
    decreases receipts.len() - applied,
{
    let state = PublicationView::Applying { targets, receipts, applied };
    let events = receipts_taken((receipts.len() - applied) as nat);
    if applied == receipts.len() {
        assert(events.first() == Event::Delivered);
        assert(events.drop_first() =~= Seq::<Event>::empty());
        assert(run(PublicationView::Done, events.drop_first()) == PublicationView::Done);
    } else {
        assert(events.first() == Event::Applied(true));
        assert(events.drop_first() =~= receipts_taken((receipts.len() - applied - 1) as nat));
        lemma_taken_receipts_finish(targets, receipts, applied + 1);
    }
}

/// One answer carries a publication: where the event was sent and at least
/// one witness answered, however many did not, the publication ends well as
/// soon as the event log has taken the gathered receipts and they have been
/// sent back. Witnesses without a location do not stand in the way.
pub proof fn lemma_one_answer_carries_publication(
    targets: Seq<Seq<char>>,
    unresolved: Seq<Seq<char>>,
    responses: Vec<Option<RespondData>>,
)
    requires
        any_response(responses@),
    ensures
        run(
            PublicationView::Sending { targets, unresolved },
            seq![Event::Responded(responses)] + receipts_taken(
                collected_receipts(responses@).len(),
            ),
        ) == PublicationView::Done,
{
    let receipts = collected_receipts(responses@);
    let events = seq![Event::Responded(responses)] + receipts_taken(receipts.len());
    assert(events.first() == Event::Responded(responses));
    assert(events.drop_first() =~= receipts_taken(receipts.len()));
    lemma_taken_receipts_finish(targets, receipts, 0);
}

/// No answer fails a publication: where the event was sent and no witness
/// answered, the publication ends with
/// [`ControllerError::PeerUnavailable`].
pub proof fn lemma_no_answer_fails_publication(
    targets: Seq<Seq<char>>,
    unresolved: Seq<Seq<char>>,
    responses: Vec<Option<RespondData>>,
)
    requires
        !any_response(responses@),
    ensures
        next_state(PublicationView::Sending { targets, unresolved }, Event::Responded(responses))
            == PublicationView::Failed(ControllerError::PeerUnavailable),
{
}

} // verus!
