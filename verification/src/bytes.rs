//! Small operations on byte vectors that the buffers of the crate are made of.

use vstd::prelude::*;

verus! {

broadcast use vstd::seq::group_seq_axioms;

/// Copies `bytes` into a new vector.
pub fn copy_bytes(bytes: &[u8]) -> (r: Vec<u8>)
    ensures
        r@ == bytes@,
{
    let mut r: Vec<u8> = Vec::new();
    let mut i: usize = 0;
    while i < bytes.len()
        invariant
            i <= bytes@.len(),
            r@ == bytes@.take(i as int),
        decreases bytes@.len() - i,
    {
        r.push(bytes[i]);
        i = i + 1;
        assert(r@ =~= bytes@.take(i as int));
    }
    assert(bytes@.take(i as int) =~= bytes@);
    r
}

/// Appends `bytes` to the end of `buf`.
pub fn append_bytes(buf: &mut Vec<u8>, bytes: &[u8])
    ensures
        final(buf)@ == old(buf)@ + bytes@,
{
    let mut i: usize = 0;
    let ghost start = buf@;
    while i < bytes.len()
        invariant
            i <= bytes@.len(),
            buf@ == start + bytes@.take(i as int),
        decreases bytes@.len() - i,
    {
        buf.push(bytes[i]);
        i = i + 1;
        assert(buf@ =~= start + bytes@.take(i as int));
    }
    assert(bytes@.take(i as int) =~= bytes@);
}

/// Takes the first `n` bytes out of `buf` and returns them.
pub fn take_front(buf: &mut Vec<u8>, n: usize) -> (front: Vec<u8>)
    requires
        n <= old(buf)@.len(),
    ensures
        front@ == old(buf)@.take(n as int),
        final(buf)@ == old(buf)@.skip(n as int),
        old(buf)@ == front@ + final(buf)@,
{
    let ghost all = buf@;
    let mut front: Vec<u8> = Vec::new();
    let mut rest: Vec<u8> = Vec::new();
    let mut i: usize = 0;
    while i < buf.len()
        invariant
            buf@ == all,
            i <= all.len(),
            n <= all.len(),
            i <= n ==> front@ == all.take(i as int) && rest@ == Seq::<u8>::empty(),
            i > n ==> front@ == all.take(n as int) && rest@ == all.subrange(n as int, i as int),
        decreases all.len() - i,
    {
        if i < n {
            front.push(buf[i]);
        } else {
            rest.push(buf[i]);
        }
        i = i + 1;
        assert(front@ =~= all.take(if i <= n { i as int } else { n as int }));
        assert(i > n ==> rest@ =~= all.subrange(n as int, i as int));
    }
    if i <= n {
        assert(rest@ =~= all.skip(n as int));
    } else {
        assert(rest@ =~= all.skip(n as int));
    }
    assert(front@ =~= all.take(n as int));
    *buf = rest;
    assert(all =~= front@ + buf@);
    front
}

} // verus!
