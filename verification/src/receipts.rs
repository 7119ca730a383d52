//! Counting witness receipts.
//!
//! An event is established once receipts from at least the threshold's count
//! of distinct witnesses of the witness set are collected. A witness counts
//! once, however many receipts it sent, and receipts of strangers do not
//! count.

use vstd::prelude::*;
use crate::keystate::Threshold;
use crate::text::{contains_text, texts};

verus! {

/// The witnesses of `witness_set` that occur among `receipted`.
pub open spec fn receipting_witnesses(
    witness_set: Seq<Seq<char>>,
    receipted: Seq<Seq<char>>,
) -> Set<Seq<char>> {
    witness_set.to_set().intersect(receipted.to_set())
}

/// Whether receipts from `receipted` establish an event under `threshold`.
/// A weighted threshold is for the event log to judge, and is never met
/// here.
pub open spec fn establishes(
    witness_set: Seq<Seq<char>>,
    threshold: Threshold,
    receipted: Seq<Seq<char>>,
) -> bool {
    match threshold {
        Threshold::Simple(tally) => receipting_witnesses(witness_set, receipted).len() >= tally,
        Threshold::Weighted => false,
    }
}

/// The number of distinct witnesses of `witness_set` that occur among
/// `receipted`.
pub fn count_receipts(witness_set: &Vec<String>, receipted: &Vec<String>) -> (count: usize)
    ensures
        count == receipting_witnesses(texts(witness_set@), texts(receipted@)).len(),
{
    let ghost all = texts(witness_set@);
    let ghost senders = texts(receipted@).to_set();
    let mut seen: Vec<String> = Vec::new();
    let mut count: usize = 0;
    let mut i: usize = 0;
    assert(all.take(0).to_set().intersect(senders) =~= Set::<Seq<char>>::empty());
    while i < witness_set.len()
        invariant
            i <= witness_set.len(),
            all == texts(witness_set@),
            senders == texts(receipted@).to_set(),
            texts(seen@) == all.take(i as int),
            all.take(i as int).to_set().intersect(senders).finite(),
            count == all.take(i as int).to_set().intersect(senders).len(),
            count <= i,
        decreases witness_set.len() - i,
    {
        let ghost head = all.take(i as int);
        let ghost upto = all.take(i + 1);
        let ghost before = head.to_set();
        let ghost witness = all[i as int];
        proof {
            assert(upto =~= head.push(witness));
            assert forall|w: Seq<char>| upto.to_set().contains(w) == before.insert(
                witness,
            ).contains(w) by {
                if upto.contains(w) {
                    let j = choose|j: int| 0 <= j < upto.len() && upto[j] == w;
                    if j < i {
                        assert(head[j] == w);
                    }
                }
                if before.contains(w) {
                    let j = choose|j: int| 0 <= j < head.len() && head[j] == w;
                    assert(upto[j] == w);
                }
                if w == witness {
                    assert(upto[i as int] == w);
                }
            }
            assert(upto.to_set() =~= before.insert(witness));
            if senders.contains(witness) {
                assert(before.insert(witness).intersect(senders) =~= before.intersect(
                    senders,
                ).insert(witness));
            } else {
                assert(before.insert(witness).intersect(senders) =~= before.intersect(senders));
            }
            assert(texts(receipted@).contains(witness) == senders.contains(witness));
            assert(all.take(i as int).contains(witness) == before.contains(witness));
        }
        let repeated = contains_text(&seen, &witness_set[i]);
        let sent = contains_text(receipted, &witness_set[i]);
        if sent && !repeated {
            count += 1;
        }
        let item = witness_set[i].clone();
        proof {
            crate::text::lemma_texts_push(seen@, item);
        }
        seen.push(item);
        i += 1;
    }
    assert(all.take(witness_set.len() as int) =~= all);
    count
}

/// Whether receipts from `receipted` establish an event that is witnessed by
/// `witness_set` under `threshold`.
pub fn is_established(
    witness_set: &Vec<String>,
    threshold: Threshold,
    receipted: &Vec<String>,
) -> (established: bool)
    ensures
        established == establishes(texts(witness_set@), threshold, texts(receipted@)),
{
    match threshold {
        Threshold::Simple(tally) => count_receipts(witness_set, receipted) as u64 >= tally,
        Threshold::Weighted => false,
    }
}

} // verus!
