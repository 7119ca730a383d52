//! Identifiers and locations are held as text. These helpers relate vectors
//! of strings to sequences of character sequences, the model that the
//! contracts of this library speak of.

use vstd::prelude::*;

verus! {

/// The character sequences of a sequence of strings, in order.
pub open spec fn texts(v: Seq<String>) -> Seq<Seq<char>> {
    Seq::new(v.len(), |i: int| v[i]@)
}

/// Appending one string appends its characters to [`texts`].
pub proof fn lemma_texts_push(v: Seq<String>, s: String)
    ensures
        texts(v.push(s)) == texts(v).push(s@),
{
    assert(texts(v.push(s)) =~= texts(v).push(s@));
}

/// Filtering one element more of a sequence either appends that element or
/// changes nothing.
pub proof fn lemma_filter_step<A>(s: Seq<A>, i: int, keep: spec_fn(A) -> bool)
    requires
        0 <= i < s.len(),
    ensures
        s.take(i + 1).filter(keep) == if keep(s[i]) {
            s.take(i).filter(keep).push(s[i])
        } else {
            s.take(i).filter(keep)
        },
{
    assert(s.take(i + 1) =~= s.take(i).push(s[i]));
    s.take(i).lemma_filter_push(s[i], keep);
}

/// Filtering the empty prefix of a sequence gives the empty sequence.
pub proof fn lemma_filter_start<A>(s: Seq<A>, keep: spec_fn(A) -> bool)
    ensures
        s.take(0).filter(keep) == Seq::<A>::empty(),
{
    reveal(Seq::filter);
    assert(s.take(0).filter(keep) =~= Seq::<A>::empty());
}

/// Whether `needle` occurs among `haystack`.
pub fn contains_text(haystack: &Vec<String>, needle: &String) -> (found: bool)
    ensures
        found == texts(haystack@).contains(needle@),
{
    let mut i: usize = 0;
    while i < haystack.len()
        invariant
            i <= haystack.len(),
            forall|j: int| 0 <= j < i ==> texts(haystack@)[j] != needle@,
        decreases haystack.len() - i,
    {
        if haystack[i] == *needle {
            assert(texts(haystack@)[i as int] == needle@);
            return true;
        }
        i += 1;
    }
    false
}

/// A copy of `source` that holds the same texts in the same order.
pub fn clone_texts(source: &Vec<String>) -> (copy: Vec<String>)
    ensures
        texts(copy@) == texts(source@),
{
    let mut copy: Vec<String> = Vec::new();
    let mut i: usize = 0;
    while i < source.len()
        invariant
            i <= source.len(),
            texts(copy@) == texts(source@).take(i as int),
        decreases source.len() - i,
    {
        let item = source[i].clone();
        proof {
            lemma_texts_push(copy@, item);
            assert(texts(source@).take(i as int).push(item@) =~= texts(source@).take(i + 1));
        }
        copy.push(item);
        i += 1;
    }
    assert(texts(source@).take(source.len() as int) =~= texts(source@));
    copy
}

/// `first` followed by `second`.
pub fn chain_texts(first: Vec<String>, second: Vec<String>) -> (both: Vec<String>)
    ensures
        texts(both@) == texts(first@) + texts(second@),
{
    let mut both = first;
    let ghost head = texts(both@);
    let mut i: usize = 0;
    assert(head + texts(second@).take(0) =~= head);
    while i < second.len()
        invariant
            i <= second.len(),
            texts(both@) == head + texts(second@).take(i as int),
        decreases second.len() - i,
    {
        let item = second[i].clone();
        proof {
            lemma_texts_push(both@, item);
            assert((head + texts(second@).take(i as int)).push(item@) =~= head + texts(
                second@,
            ).take(i + 1));
        }
        both.push(item);
        i += 1;
    }
    assert(texts(second@).take(second.len() as int) =~= texts(second@));
    both
}

} // verus!
