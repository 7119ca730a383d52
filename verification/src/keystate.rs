//! The key state of an identifier, as far as the controller reads it.

use vstd::prelude::*;
use crate::rotation::{absent_from, without, RotationPlan};
use crate::text::{chain_texts, clone_texts, texts};

verus! {

/// How many witness receipts an event needs.
#[derive(Debug, Clone, Copy, PartialEq, Eq, Structural)]
pub enum Threshold {
    /// A plain count of distinct witnesses.
    Simple(u64),
    /// A weighted threshold. Its clauses stay with the event log; the
    /// controller only needs to know that it is not a plain count.
    Weighted,
}

/// The current state of an identifier: its sequence number, its witnesses in
/// order, and the receipt threshold.
#[derive(Debug, Clone, PartialEq, Eq)]
pub struct KeyState {
    pub sequence: u64,
    pub witnesses: Vec<String>,
    pub threshold: Threshold,
}

/// The mathematical value of a [`KeyState`].
pub struct KeyStateView {
    pub sequence: nat,
    pub witnesses: Seq<Seq<char>>,
    pub threshold: Threshold,
}

impl View for KeyState {
    type V = KeyStateView;

    open spec fn view(&self) -> KeyStateView {
        KeyStateView {
            sequence: self.sequence as nat,
            witnesses: texts(self.witnesses@),
            threshold: self.threshold,
        }
    }
}

/// The witness list after `to_remove` has been pruned from `old` and `to_add`
/// grafted behind what is left.
pub open spec fn witnesses_after(
    old_witnesses: Seq<Seq<char>>,
    to_remove: Seq<Seq<char>>,
    to_add: Seq<Seq<char>>,
) -> Seq<Seq<char>> {
    old_witnesses.filter(absent_from(to_remove)) + to_add
}

impl KeyState {
    /// The state that a rotation built from `plan` leads to: one event
    /// further, without the pruned witnesses, with the grafted ones behind
    /// the rest, under the plan's threshold.
    pub fn rotated(&self, plan: &RotationPlan) -> (next: KeyState)
        requires
            self.sequence < u64::MAX,
        ensures
            next@.sequence == self@.sequence + 1,
            next@.witnesses == witnesses_after(
                self@.witnesses,
                plan@.witness_to_remove,
                plan@.witness_to_add,
            ),
            next@.threshold == plan@.threshold,
    {
        let kept = without(&self.witnesses, &plan.witness_to_remove);
        let witnesses = chain_texts(kept, clone_texts(&plan.witness_to_add));
        KeyState { sequence: self.sequence + 1, witnesses, threshold: plan.threshold }
    }
}

} // verus!
