//! Planning a witness rotation: which threshold the rotation event carries,
//! which witnesses it adds and removes, and which witness set the event is
//! published to afterwards.

use vstd::prelude::*;
use crate::error::ControllerError;
use crate::keystate::{witnesses_after, KeyState, Threshold};
use crate::text::{
    clone_texts, contains_text, lemma_filter_start, lemma_filter_step, lemma_texts_push, texts,
};

verus! {

/// The threshold that a rotation carries, or `None` where the request is
/// refused.
///
/// `old_count` is the number of current witnesses, `new_count` the length of
/// the requested witness list and `requested` the requested threshold.
///
/// | list    | threshold | rule                                              |
/// |---------|-----------|---------------------------------------------------|
/// | absent  | absent    | the old threshold is kept                         |
/// | absent  | present   | accepted if `old_count >= requested`              |
/// | present | absent    | accepted if the old threshold is a plain count     |
/// |         |           | and `new_count` reaches it                        |
/// | present | present   | accepted if `new_count >= requested`              |
pub open spec fn threshold_after(
    old_threshold: Threshold,
    old_count: nat,
    new_count: Option<nat>,
    requested: Option<u64>,
) -> Option<Threshold> {
    match (new_count, requested) {
        (None, None) => Some(old_threshold),
        (None, Some(t)) => if old_count >= t {
            Some(Threshold::Simple(t))
        } else {
            None
        },
        (Some(n), None) => match old_threshold {
            Threshold::Simple(t) => if n >= t {
                Some(old_threshold)
            } else {
                None
            },
            Threshold::Weighted => None,
        },
        (Some(n), Some(t)) => if n >= t {
            Some(Threshold::Simple(t))
        } else {
            None
        },
    }
}

/// The test "does not occur in `list`".
pub open spec fn absent_from(list: Seq<Seq<char>>) -> spec_fn(Seq<char>) -> bool {
    |w: Seq<char>| !list.contains(w)
}

/// The witnesses of `new_list` that `old_list` does not hold, in the order of
/// `new_list`.
pub open spec fn witnesses_to_add(old_list: Seq<Seq<char>>, new_list: Seq<Seq<char>>) -> Seq<
    Seq<char>,
> {
    new_list.filter(absent_from(old_list))
}

/// The witnesses of `old_list` that `new_list` does not hold, in the order of
/// `old_list`.
pub open spec fn witnesses_to_remove(old_list: Seq<Seq<char>>, new_list: Seq<Seq<char>>) -> Seq<
    Seq<char>,
> {
    old_list.filter(absent_from(new_list))
}

/// The witness set that a rotation leads to: the requested list where one was
/// given, else the old one.
pub open spec fn resulting_witnesses(
    old_list: Seq<Seq<char>>,
    new_list: Option<Seq<Seq<char>>>,
) -> Seq<Seq<char>> {
    match new_list {
        Some(list) => list,
        None => old_list,
    }
}

/// What a rotation event is built from, and where it is published.
#[derive(Debug, Clone, PartialEq, Eq)]
pub struct RotationPlan {
    /// Witnesses that join, in the order of the requested list.
    pub witness_to_add: Vec<String>,
    /// Witnesses that leave, in the order of the old list.
    pub witness_to_remove: Vec<String>,
    /// The threshold that the rotation event carries.
    pub threshold: Threshold,
    /// The witness set that the rotation event is published to.
    pub publish_to: Vec<String>,
}

/// The mathematical value of a [`RotationPlan`].
pub struct RotationPlanView {
    pub witness_to_add: Seq<Seq<char>>,
    pub witness_to_remove: Seq<Seq<char>>,
    pub threshold: Threshold,
    pub publish_to: Seq<Seq<char>>,
}

impl View for RotationPlan {
    type V = RotationPlanView;

    open spec fn view(&self) -> RotationPlanView {
        RotationPlanView {
            witness_to_add: texts(self.witness_to_add@),
            witness_to_remove: texts(self.witness_to_remove@),
            threshold: self.threshold,
            publish_to: texts(self.publish_to@),
        }
    }
}

/// The plan for rotating away from `old_list` and `old_threshold`, or `None`
/// where the threshold rule refuses the request.
pub open spec fn rotation_plan(
    old_list: Seq<Seq<char>>,
    old_threshold: Threshold,
    new_list: Option<Seq<Seq<char>>>,
    requested: Option<u64>,
) -> Option<RotationPlanView> {
    let new_count = match new_list {
        Some(list) => Some(list.len()),
        None => None,
    };
    match threshold_after(old_threshold, old_list.len(), new_count, requested) {
        None => None,
        Some(threshold) => Some(
            RotationPlanView {
                witness_to_add: match new_list {
                    Some(list) => witnesses_to_add(old_list, list),
                    None => Seq::empty(),
                },
                witness_to_remove: match new_list {
                    Some(list) => witnesses_to_remove(old_list, list),
                    None => Seq::empty(),
                },
                threshold,
                publish_to: resulting_witnesses(old_list, new_list),
            },
        ),
    }
}

/// Applies the threshold rule of a rotation request.
///
/// Fails with [`ControllerError::ThresholdViolation`] exactly where
/// [`threshold_after`] refuses.
pub fn check_threshold(
    old_threshold: Threshold,
    old_count: usize,
    new_count: Option<usize>,
    requested: Option<u64>,
) -> (outcome: Result<Threshold, ControllerError>)
    ensures
        outcome == match threshold_after(
            old_threshold,
            old_count as nat,
            match new_count {
                Some(n) => Some(n as nat),
                None => None,
            },
            requested,
        ) {
            Some(t) => Ok::<Threshold, ControllerError>(t),
            None => Err(ControllerError::ThresholdViolation),
        },
{
    match (new_count, requested) {
        (None, None) => Ok(old_threshold),
        (None, Some(t)) => {
            if old_count as u64 >= t {
                Ok(Threshold::Simple(t))
            } else {
                Err(ControllerError::ThresholdViolation)
            }
        },
        (Some(n), None) => {
            match old_threshold {
                Threshold::Simple(t) => {
                    if n as u64 >= t {
                        Ok(old_threshold)
                    } else {
                        Err(ControllerError::ThresholdViolation)
                    }
                },
                Threshold::Weighted => Err(ControllerError::ThresholdViolation),
            }
        },
        (Some(n), Some(t)) => {
            if n as u64 >= t {
                Ok(Threshold::Simple(t))
            } else {
                Err(ControllerError::ThresholdViolation)
            }
        },
    }
}

/// The entries of `list` that `other` does not hold, in the order of `list`.
pub fn without(list: &Vec<String>, other: &Vec<String>) -> (rest: Vec<String>)
    ensures
        texts(rest@) == texts(list@).filter(absent_from(texts(other@))),
{
    let ghost keep = absent_from(texts(other@));
    let mut rest: Vec<String> = Vec::new();
    let mut i: usize = 0;
    proof {
        lemma_filter_start(texts(list@), keep);
        assert(texts(rest@) =~= texts(list@).take(0).filter(keep));
    }
    while i < list.len()
        invariant
            i <= list.len(),
            keep == absent_from(texts(other@)),
            texts(rest@) == texts(list@).take(i as int).filter(keep),
        decreases list.len() - i,
    {
        proof {
            lemma_filter_step(texts(list@), i as int, keep);
        }
        if !contains_text(other, &list[i]) {
            let item = list[i].clone();
            proof {
                lemma_texts_push(rest@, item);
            }
            rest.push(item);
        }
        i += 1;
    }
    assert(texts(list@).take(list.len() as int) =~= texts(list@));
    rest
}

/// The witnesses that a rotation from `old_list` to `new_list` adds and
/// removes.
pub fn witness_delta(old_list: &Vec<String>, new_list: &Vec<String>) -> (delta: (
    Vec<String>,
    Vec<String>,
))
    ensures
        texts(delta.0@) == witnesses_to_add(texts(old_list@), texts(new_list@)),
        texts(delta.1@) == witnesses_to_remove(texts(old_list@), texts(new_list@)),
{
    (without(new_list, old_list), without(old_list, new_list))
}

/// Plans the rotation of `state` to the requested witness list and
/// threshold.
///
/// Fails with [`ControllerError::ThresholdViolation`] exactly where the
/// threshold rule refuses the request; `state` is only read.
pub fn plan_rotation(
    state: &KeyState,
    new_list: Option<&Vec<String>>,
    requested: Option<u64>,
) -> (outcome: Result<RotationPlan, ControllerError>)
    ensures
        match rotation_plan(
            state@.witnesses,
            state@.threshold,
            match new_list {
                Some(list) => Some(texts(list@)),
                None => None,
            },
            requested,
        ) {
            Some(plan) => outcome matches Ok(p) && p@ == plan,
            None => outcome == Err::<RotationPlan, ControllerError>(
                ControllerError::ThresholdViolation,
            ),
        },
{
    let new_count = match new_list {
        Some(list) => Some(list.len()),
        None => None,
    };
    let threshold = match check_threshold(
        state.threshold,
        state.witnesses.len(),
        new_count,
        requested,
    ) {
        Ok(t) => t,
        Err(e) => {
            return Err(e);
        },
    };
    match new_list {
        Some(list) => {
            let (witness_to_add, witness_to_remove) = witness_delta(&state.witnesses, list);
            Ok(
                RotationPlan {
                    witness_to_add,
                    witness_to_remove,
                    threshold,
                    publish_to: clone_texts(list),
                },
            )
        },
        None => {
            let plan = RotationPlan {
                witness_to_add: Vec::new(),
                witness_to_remove: Vec::new(),
                threshold,
                publish_to: clone_texts(&state.witnesses),
            };
            assert(texts(plan.witness_to_add@) =~= Seq::<Seq<char>>::empty());
            assert(texts(plan.witness_to_remove@) =~= Seq::<Seq<char>>::empty());
            Ok(plan)
        },
    }
}

/// Filtering by "does not occur in the empty list" keeps everything.
proof fn lemma_nothing_absent_keeps_all(list: Seq<Seq<char>>)
    ensures
        list.filter(absent_from(Seq::empty())) == list,
    decreases list.len(),
{
    reveal(Seq::filter);
    if list.len() > 0 {
        lemma_nothing_absent_keeps_all(list.drop_last());
        assert(list.drop_last().push(list.last()) =~= list);
    }
}

/// A rotation that asks for neither a witness list nor a threshold is always
/// accepted; it adds and removes no witness, keeps the threshold, is
/// published to the old witnesses, and leaves the witness list as it was.
pub proof fn lemma_empty_request_changes_nothing(
    old_list: Seq<Seq<char>>,
    old_threshold: Threshold,
)
    ensures
        rotation_plan(old_list, old_threshold, None, None) matches Some(plan) && {
            &&& plan.witness_to_add == Seq::<Seq<char>>::empty()
            &&& plan.witness_to_remove == Seq::<Seq<char>>::empty()
            &&& plan.threshold == old_threshold
            &&& plan.publish_to == old_list
            &&& witnesses_after(old_list, plan.witness_to_remove, plan.witness_to_add)
                == old_list
        },
{
    lemma_nothing_absent_keeps_all(old_list);
    assert(old_list + Seq::<Seq<char>>::empty() =~= old_list);
}

/// A requested threshold above the size of the resulting witness set is
/// refused, whatever the old threshold was.
pub proof fn lemma_threshold_above_witness_count_is_refused(
    old_list: Seq<Seq<char>>,
    old_threshold: Threshold,
    new_list: Option<Seq<Seq<char>>>,
    requested: u64,
)
    requires
        requested > resulting_witnesses(old_list, new_list).len(),
    ensures
        rotation_plan(old_list, old_threshold, new_list, Some(requested)) is None,
{
}

/// An accepted rotation carries a plain threshold that the resulting witness
/// set can meet, unless it keeps a weighted one untouched.
pub proof fn lemma_accepted_threshold_is_reachable(
    old_list: Seq<Seq<char>>,
    old_threshold: Threshold,
    new_list: Option<Seq<Seq<char>>>,
    requested: Option<u64>,
)
    requires
        rotation_plan(old_list, old_threshold, new_list, requested) is Some,
        new_list is Some || requested is Some,
    ensures
        rotation_plan(old_list, old_threshold, new_list, requested)->0.threshold matches
            Threshold::Simple(t) && t <= resulting_witnesses(old_list, new_list).len(),
{
}

/// The witnesses that a rotation adds are none of the old ones and all come
/// from the requested list; the witnesses that it removes are all old ones
/// and none of the requested list.
pub proof fn lemma_delta_is_disjoint(old_list: Seq<Seq<char>>, new_list: Seq<Seq<char>>)
    ensures
        forall|w: Seq<char>| #[trigger]
            witnesses_to_add(old_list, new_list).contains(w) ==> !old_list.contains(w)
                && new_list.contains(w),
        forall|w: Seq<char>| #[trigger]
            witnesses_to_remove(old_list, new_list).contains(w) ==> old_list.contains(w)
                && !new_list.contains(w),
{
    let to_add = witnesses_to_add(old_list, new_list);
    let to_remove = witnesses_to_remove(old_list, new_list);
    assert forall|w: Seq<char>| #[trigger] to_add.contains(w) implies !old_list.contains(w)
        && new_list.contains(w) by {
        let i = choose|i: int| 0 <= i < to_add.len() && to_add[i] == w;
        new_list.lemma_filter_pred(absent_from(old_list), i);
        new_list.lemma_filter_contains_rev(absent_from(old_list), w);
    }
    assert forall|w: Seq<char>| #[trigger] to_remove.contains(w) implies old_list.contains(w)
        && !new_list.contains(w) by {
        let i = choose|i: int| 0 <= i < to_remove.len() && to_remove[i] == w;
        old_list.lemma_filter_pred(absent_from(new_list), i);
        old_list.lemma_filter_contains_rev(absent_from(new_list), w);
    }
}

/// Pruning and grafting by the delta of a rotation leads to exactly the
/// members of the requested list.
pub proof fn lemma_delta_reaches_requested_set(
    old_list: Seq<Seq<char>>,
    new_list: Seq<Seq<char>>,
)
    ensures
        witnesses_after(
            old_list,
            witnesses_to_remove(old_list, new_list),
            witnesses_to_add(old_list, new_list),
        ).to_set() == new_list.to_set(),
{
    let to_add = witnesses_to_add(old_list, new_list);
    let to_remove = witnesses_to_remove(old_list, new_list);
    let kept = old_list.filter(absent_from(to_remove));
    let after = witnesses_after(old_list, to_remove, to_add);
    lemma_delta_is_disjoint(old_list, new_list);
    assert forall|w: Seq<char>| after.contains(w) implies new_list.contains(w) by {
        let i = choose|i: int| 0 <= i < after.len() && after[i] == w;
        if i < kept.len() {
            assert(kept[i] == w);
            old_list.lemma_filter_pred(absent_from(to_remove), i);
            assert(!to_remove.contains(w));
            assert(kept.contains(w));
            old_list.lemma_filter_contains_rev(absent_from(to_remove), w);
            if !new_list.contains(w) {
                let j = choose|j: int| 0 <= j < old_list.len() && old_list[j] == w;
                old_list.lemma_filter_contains(absent_from(new_list), j);
                assert(to_remove.contains(w));
            }
        } else {
            assert(to_add[i - kept.len()] == w);
            assert(to_add.contains(w));
        }
    }
    assert forall|w: Seq<char>| new_list.contains(w) implies after.contains(w) by {
        if old_list.contains(w) {
            let j = choose|j: int| 0 <= j < old_list.len() && old_list[j] == w;
            assert(!to_remove.contains(w));
            old_list.lemma_filter_contains(absent_from(to_remove), j);
            let k = choose|k: int| 0 <= k < kept.len() && kept[k] == w;
            assert(after[k] == w);
        } else {
            let j = choose|j: int| 0 <= j < new_list.len() && new_list[j] == w;
            new_list.lemma_filter_contains(absent_from(old_list), j);
            let k = choose|k: int| 0 <= k < to_add.len() && to_add[k] == w;
            assert(after[kept.len() + k] == w);
        }
    }
    assert(after.to_set() =~= new_list.to_set());
}

} // verus!
