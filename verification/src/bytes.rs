//! Copies of byte vectors.

use vstd::prelude::*;

verus! {

/// A copy of `source`.
pub fn copy_bytes(source: &[u8]) -> (copy: Vec<u8>)
    ensures
        copy@ == source@,
{
    let mut copy: Vec<u8> = Vec::new();
    let mut i: usize = 0;
    while i < source.len()
        invariant
            i <= source.len(),
            copy@ == source@.take(i as int),
        decreases source.len() - i,
    {
        copy.push(source[i]);
        assert(source@.take(i as int).push(source@[i as int]) =~= source@.take(i + 1));
        i += 1;
    }
    assert(source@.take(source.len() as int) =~= source@);
    copy
}

/// The byte sequences of a sequence of byte vectors, in order.
pub open spec fn byte_views(v: Seq<Vec<u8>>) -> Seq<Seq<u8>> {
    Seq::new(v.len(), |i: int| v[i]@)
}

/// A copy of `source`, item by item.
pub fn copy_all(source: &Vec<Vec<u8>>) -> (copy: Vec<Vec<u8>>)
    ensures
        byte_views(copy@) == byte_views(source@),
{
    let mut copy: Vec<Vec<u8>> = Vec::new();
    let mut i: usize = 0;
    while i < source.len()
        invariant
            i <= source.len(),
            byte_views(copy@) == byte_views(source@).take(i as int),
        decreases source.len() - i,
    {
        let item = copy_bytes(source[i].as_slice());
        assert(byte_views(copy@.push(item)) =~= byte_views(copy@).push(item@));
        assert(byte_views(source@).take(i as int).push(item@) =~= byte_views(source@).take(
            i + 1,
        ));
        copy.push(item);
        i += 1;
    }
    assert(byte_views(source@).take(source.len() as int) =~= byte_views(source@));
    copy
}

} // verus!
