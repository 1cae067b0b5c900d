//! Byte-vector helpers: copying and concatenation with their exact contents.
use vstd::prelude::*;

verus! {

/// A copy of a byte slice.
pub fn copy_bytes(v: &[u8]) -> (out: Vec<u8>)
    ensures
        out@ == v@,
{
    let mut out: Vec<u8> = Vec::new();
    extend_bytes(&mut out, v);
    assert(out@ =~= v@);
    out
}

/// Appends bytes to a vector.
pub fn extend_bytes(out: &mut Vec<u8>, more: &[u8])
    ensures
        final(out)@ == old(out)@ + more@,
{
    let ghost start = out@;
    let mut i: usize = 0;
    while i < more.len()
        invariant
            i <= more.len(),
            out@ == start + more@.take(i as int),
        decreases more.len() - i,
    {
        out.push(more[i]);
        assert(start + more@.take(i as int).push(more@[i as int]) =~= start + more@.take(i + 1));
        i += 1;
    }
    assert(more@.take(more.len() as int) =~= more@);
}

/// The concatenation of a list of byte strings.
pub open spec fn concat_all(parts: Seq<Seq<u8>>) -> Seq<u8>
    decreases parts.len(),
{
    if parts.len() == 0 {
        Seq::empty()
    } else {
        concat_all(parts.drop_last()) + parts.last()
    }
}

/// The views of a list of byte vectors.
pub open spec fn byte_views(v: Seq<Vec<u8>>) -> Seq<Seq<u8>> {
    v.map_values(|b: Vec<u8>| b@)
}

/// All the parts, one after another, with nothing between them.
pub fn concat_bytes(parts: &[Vec<u8>]) -> (out: Vec<u8>)
    ensures
        out@ == concat_all(byte_views(parts@)),
{
    let mut out: Vec<u8> = Vec::new();
    let mut i: usize = 0;
    while i < parts.len()
        invariant
            i <= parts.len(),
            out@ == concat_all(byte_views(parts@).take(i as int)),
        decreases parts.len() - i,
    {
        extend_bytes(&mut out, &parts[i]);
        assert(byte_views(parts@).take(i + 1).drop_last() =~= byte_views(parts@).take(i as int));
        i += 1;
    }
    assert(byte_views(parts@).take(parts.len() as int) =~= byte_views(parts@));
    out
}

} // verus!
