//! Carrying a rotation through, from the plan to the publication of the
//! rotation event.
//!
//! The witnesses that a rotation adds have to know the identifier's history
//! before its rotation event reaches them. So their locations are resolved
//! first and the log so far is sent to them; only then is the event log
//! asked for the rotation event, which is published to the resulting
//! witness set. A new witness that cannot be located, or to which the log
//! cannot be delivered, stops the rotation before any event is made.
//!
//! As with publication, the decisions are made here and the caller does the
//! work: [`start`] and [`advance`] say what is to be done next.

use vstd::prelude::*;
use crate::directory::{
    cached_in, directory_outcomes, learned_locations, located, missing_from, resolve_missing,
    unlocated, LocationCache,
};
use crate::error::{ControllerError, ControllerErrorView};
use crate::keystate::Threshold;
use crate::publication::{endpoints, endpoints_of};
use crate::rotation::{RotationPlan, RotationPlanView};
use crate::text::{chain_texts, clone_texts, lemma_filter_start, texts};

verus! {

/// Where a rotation stands.
#[derive(Debug, PartialEq, Eq)]
pub enum Rollout {
    /// The directories are being asked about the new witnesses in `missing`;
    /// `found` holds the locations that the cache gave for the others.
    Locating { plan: RotationPlan, found: Vec<String>, missing: Vec<String> },
    /// The log so far is on its way to the new witnesses at `targets`.
    Bootstrapping { plan: RotationPlan, targets: Vec<String> },
    /// The event log is asked for the rotation event.
    Rotating { plan: RotationPlan },
    /// The rotation event exists and is to be published to `witnesses`.
    Publishing { witnesses: Vec<String> },
    /// These new witnesses have no location; no event was made.
    Unlocated { witnesses: Vec<String> },
    /// The log could not be delivered to a new witness; no event was made.
    Undelivered,
}

/// The mathematical value of a [`Rollout`].
pub enum RolloutView {
    Locating { plan: RotationPlanView, found: Seq<Seq<char>>, missing: Seq<Seq<char>> },
    Bootstrapping { plan: RotationPlanView, targets: Seq<Seq<char>> },
    Rotating { plan: RotationPlanView },
    Publishing { witnesses: Seq<Seq<char>> },
    Unlocated { witnesses: Seq<Seq<char>> },
    Undelivered,
}

impl View for Rollout {
    type V = RolloutView;

    open spec fn view(&self) -> RolloutView {
        match *self {
            Rollout::Locating { plan, found, missing } => RolloutView::Locating {
                plan: plan@,
                found: texts(found@),
                missing: texts(missing@),
            },
            Rollout::Bootstrapping { plan, targets } => RolloutView::Bootstrapping {
                plan: plan@,
                targets: texts(targets@),
            },
            Rollout::Rotating { plan } => RolloutView::Rotating { plan: plan@ },
            Rollout::Publishing { witnesses } => RolloutView::Publishing {
                witnesses: texts(witnesses@),
            },
            Rollout::Unlocated { witnesses } => RolloutView::Unlocated {
                witnesses: texts(witnesses@),
            },
            Rollout::Undelivered => RolloutView::Undelivered,
        }
    }
}

/// What the caller reports back.
#[derive(Debug, Clone, PartialEq, Eq)]
pub enum Progress {
    /// The directories were asked. The `i`-th entry holds, per directory,
    /// the address it gave for the `i`-th missing witness, or `None`.
    Located(Vec<Vec<Option<String>>>),
    /// The log was sent to the new witnesses: to all of them (`true`), or
    /// not to all.
    Delivered(bool),
    /// The event log made the rotation event and took it.
    Rotated,
}

/// What the caller is to do next.
#[derive(Debug, PartialEq, Eq)]
pub enum Task {
    /// Ask every directory for the address of each of these witnesses.
    AskDirectories(Vec<String>),
    /// Send the key event log so far, with its receipts, to each of these
    /// endpoints.
    SendLog(Vec<String>),
    /// Have the event log make the rotation event with this delta and
    /// threshold.
    Rotate { witness_to_add: Vec<String>, witness_to_remove: Vec<String>, threshold: Threshold },
    /// Publish the rotation event to these witnesses.
    Publish(Vec<String>),
    /// Give up: the rotation failed before any event was made.
    Fail(ControllerError),
}

/// The mathematical value of a [`Task`].
pub enum TaskView {
    AskDirectories(Seq<Seq<char>>),
    SendLog(Seq<Seq<char>>),
    Rotate {
        witness_to_add: Seq<Seq<char>>,
        witness_to_remove: Seq<Seq<char>>,
        threshold: Threshold,
    },
    Publish(Seq<Seq<char>>),
    Fail(ControllerErrorView),
}

impl View for Task {
    type V = TaskView;

    open spec fn view(&self) -> TaskView {
        match *self {
            Task::AskDirectories(witnesses) => TaskView::AskDirectories(texts(witnesses@)),
            Task::SendLog(endpoints) => TaskView::SendLog(texts(endpoints@)),
            Task::Rotate { witness_to_add, witness_to_remove, threshold } => TaskView::Rotate {
                witness_to_add: texts(witness_to_add@),
                witness_to_remove: texts(witness_to_remove@),
                threshold,
            },
            Task::Publish(witnesses) => TaskView::Publish(texts(witnesses@)),
            Task::Fail(error) => TaskView::Fail(error@),
        }
    }
}

/// The state once the new witnesses are located: with new witnesses the log
/// goes to them first, without any the rotation event is next.
pub open spec fn located_rollout(plan: RotationPlanView, targets: Seq<Seq<char>>) -> RolloutView {
    if targets.len() > 0 {
        RolloutView::Bootstrapping { plan, targets }
    } else {
        RolloutView::Rotating { plan }
    }
}

/// The state in which the rotation of `plan` starts, given what the cache
/// holds.
pub open spec fn first_rollout(
    cache: Map<Seq<char>, Seq<char>>,
    plan: RotationPlanView,
) -> RolloutView {
    let found = plan.witness_to_add.filter(cached_in(cache)).map_values(
        |id: Seq<char>| cache[id],
    );
    let missing = plan.witness_to_add.filter(missing_from(cache));
    if missing.len() > 0 {
        RolloutView::Locating { plan, found, missing }
    } else {
        located_rollout(plan, found)
    }
}

/// The state that `state` moves to on `progress`. Progress that the state
/// does not wait for changes nothing.
pub open spec fn next_rollout(state: RolloutView, progress: Progress) -> RolloutView {
    match (state, progress) {
        (RolloutView::Locating { plan, found, missing }, Progress::Located(answers)) => {
            let outcomes = directory_outcomes(missing, answers@);
            if outcomes.filter_map(unlocated()).len() > 0 {
                RolloutView::Unlocated { witnesses: outcomes.filter_map(unlocated()) }
            } else {
                located_rollout(plan, found + outcomes.filter_map(located()))
            }
        },
        (RolloutView::Bootstrapping { plan, targets }, Progress::Delivered(all)) => {
            if all {
                RolloutView::Rotating { plan }
            } else {
                RolloutView::Undelivered
            }
        },
        (RolloutView::Rotating { plan }, Progress::Rotated) => RolloutView::Publishing {
            witnesses: plan.publish_to,
        },
        _ => state,
    }
}

/// The task that `state` waits for. A rotation that failed for want of a
/// location names the first witness that has none.
pub open spec fn pending_task(state: RolloutView) -> TaskView {
    match state {
        RolloutView::Locating { plan, found, missing } => TaskView::AskDirectories(missing),
        RolloutView::Bootstrapping { plan, targets } => TaskView::SendLog(endpoints_of(targets)),
        RolloutView::Rotating { plan } => TaskView::Rotate {
            witness_to_add: plan.witness_to_add,
            witness_to_remove: plan.witness_to_remove,
            threshold: plan.threshold,
        },
        RolloutView::Publishing { witnesses } => TaskView::Publish(witnesses),
        RolloutView::Unlocated { witnesses } => if witnesses.len() > 0 {
            TaskView::Fail(ControllerErrorView::MissingIp(witnesses[0]))
        } else {
            TaskView::Fail(ControllerErrorView::PeerUnavailable)
        },
        RolloutView::Undelivered => TaskView::Fail(ControllerErrorView::PeerUnavailable),
    }
}

/// The locations that the cache holds after `progress`: what the
/// directories said of the new witnesses is kept, and nothing else changes.
pub open spec fn cache_after(
    state: RolloutView,
    progress: Progress,
    cache: Map<Seq<char>, Seq<char>>,
    configured: Set<Seq<char>>,
) -> Map<Seq<char>, Seq<char>> {
    match (state, progress) {
        (RolloutView::Locating { plan, found, missing }, Progress::Located(answers)) => {
            learned_locations(cache, configured, directory_outcomes(missing, answers@))
        },
        _ => cache,
    }
}

/// The state for the located new witnesses, as [`located_rollout`] has it.
fn after_location(plan: RotationPlan, targets: Vec<String>) -> (state: Rollout)
    ensures
        state@ == located_rollout(plan@, texts(targets@)),
{
    if targets.len() > 0 {
        Rollout::Bootstrapping { plan, targets }
    } else {
        Rollout::Rotating { plan }
    }
}

impl Rollout {
    /// The task that this state waits for.
    pub fn pending(&self) -> (task: Task)
        ensures
            task@ == pending_task(self@),
    {
        match self {
            Rollout::Locating { plan, found, missing } => Task::AskDirectories(
                clone_texts(missing),
            ),
            Rollout::Bootstrapping { plan, targets } => Task::SendLog(endpoints(targets)),
            Rollout::Rotating { plan } => Task::Rotate {
                witness_to_add: clone_texts(&plan.witness_to_add),
                witness_to_remove: clone_texts(&plan.witness_to_remove),
                threshold: plan.threshold,
            },
            Rollout::Publishing { witnesses } => Task::Publish(clone_texts(witnesses)),
            Rollout::Unlocated { witnesses } => {
                if witnesses.len() > 0 {
                    Task::Fail(ControllerError::MissingIp(witnesses[0].clone()))
                } else {
                    Task::Fail(ControllerError::PeerUnavailable)
                }
            },
            Rollout::Undelivered => Task::Fail(ControllerError::PeerUnavailable),
        }
    }
}

/// Starts the rotation that `plan` describes.
///
/// Returns the first state and the task that it waits for.
pub fn start(cache: &LocationCache, plan: RotationPlan) -> (begun: (Rollout, Task))
    ensures
        begun.0@ == first_rollout(cache@, plan@),
        begun.1@ == pending_task(begun.0@),
{
    let (found, missing) = cache.get_ips(&plan.witness_to_add);
    let state = if missing.len() > 0 {
        Rollout::Locating { plan, found, missing }
    } else {
        after_location(plan, found)
    };
    let task = state.pending();
    (state, task)
}

/// Moves a rotation on by one piece of progress.
///
/// Returns the next state and the task that it waits for. Progress that
/// `state` does not wait for changes nothing, and the pending task is
/// returned once more. The locations that the directories gave for new
/// witnesses are kept in `cache`.
pub fn advance(cache: &mut LocationCache, state: Rollout, progress: Progress) -> (moved: (
    Rollout,
    Task,
))
    ensures
        moved.0@ == next_rollout(state@, progress),
        moved.1@ == pending_task(moved.0@),
        final(cache)@ == cache_after(state@, progress, old(cache)@, old(cache).configured()),
        final(cache).configured() == old(cache).configured(),
{
    let next = match (state, progress) {
        (Rollout::Locating { plan, found, missing }, Progress::Located(answers)) => {
            cache.learn_outcomes(&missing, &answers);
            let (resolved, unresolved) = resolve_missing(&missing, &answers);
            if unresolved.len() > 0 {
                Rollout::Unlocated { witnesses: unresolved }
            } else {
                after_location(plan, chain_texts(found, resolved))
            }
        },
        (Rollout::Bootstrapping { plan, targets }, Progress::Delivered(all)) => {
            if all {
                Rollout::Rotating { plan }
            } else {
                Rollout::Undelivered
            }
        },
        (Rollout::Rotating { plan }, Progress::Rotated) => Rollout::Publishing {
            witnesses: plan.publish_to,
        },
        (state, _) => state,
    };
    let task = next.pending();
    (next, task)
}

/// A rotation that adds no witness goes straight to the rotation event, and
/// from there to the publication to the resulting witness set.
pub proof fn lemma_rotation_without_new_witnesses(
    cache: Map<Seq<char>, Seq<char>>,
    plan: RotationPlanView,
)
    requires
        plan.witness_to_add.len() == 0,
    ensures
        first_rollout(cache, plan) == (RolloutView::Rotating { plan }),
        next_rollout(first_rollout(cache, plan), Progress::Rotated) == (RolloutView::Publishing {
            witnesses: plan.publish_to,
        }),
{
    lemma_filter_start(plan.witness_to_add, cached_in(cache));
    lemma_filter_start(plan.witness_to_add, missing_from(cache));
    assert(plan.witness_to_add.take(0) =~= plan.witness_to_add);
}

/// A new witness without a location stops the rotation: where the
/// directories leave a new witness out, no log is sent and no event is
/// made, and the failure names the first witness that was left out.
pub proof fn lemma_unlocated_witness_stops_rotation(
    plan: RotationPlanView,
    found: Seq<Seq<char>>,
    missing: Seq<Seq<char>>,
    answers: Vec<Vec<Option<String>>>,
)
    requires
        directory_outcomes(missing, answers@).filter_map(unlocated()).len() > 0,
    ensures
        pending_task(
            next_rollout(
                RolloutView::Locating { plan, found, missing },
                Progress::Located(answers),
            ),
        ) == TaskView::Fail(
            ControllerErrorView::MissingIp(
                directory_outcomes(missing, answers@).filter_map(unlocated())[0],
            ),
        ),
{
}

/// The rotation event waits for the log: while the log is on its way to the
/// new witnesses, only its delivery to all of them leads to the rotation
/// event, and a failed delivery ends the rotation without one.
pub proof fn lemma_event_waits_for_delivery(
    plan: RotationPlanView,
    targets: Seq<Seq<char>>,
    progress: Progress,
)
    ensures
        pending_task(RolloutView::Bootstrapping { plan, targets }) is SendLog,
        next_rollout(RolloutView::Bootstrapping { plan, targets }, progress) is Rotating
            <==> progress == Progress::Delivered(true),
        next_rollout(RolloutView::Bootstrapping { plan, targets }, Progress::Delivered(false))
            == RolloutView::Undelivered,
        pending_task(RolloutView::Undelivered) == TaskView::Fail(
            ControllerErrorView::PeerUnavailable,
        ),
{
}

} // verus!
