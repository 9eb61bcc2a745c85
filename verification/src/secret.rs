//! Wiping of memory that has held a password.

use vstd::prelude::*;
use zeroize::Zeroize;

verus! {

/// `Zeroize::zeroize` for `String`: overwrites the text in memory and leaves an
/// empty string.
#[verifier::external_body]
pub(crate) fn wipe_text(text: &mut String)
    ensures
        final(text)@ == Seq::<char>::empty(),
{
    text.zeroize();
}

/// `Zeroize::zeroize` for `Vec<u8>`: overwrites the bytes in memory and leaves
/// an empty vector.
#[verifier::external_body]
pub(crate) fn wipe_bytes(bytes: &mut Vec<u8>)
    ensures
        final(bytes)@ == Seq::<u8>::empty(),
{
    bytes.zeroize();
}

/// `Zeroize::zeroize` for `[u8]`, on the first `n` bytes: they become zero, and
/// the others stay.
#[verifier::external_body]
pub(crate) fn wipe_front(bytes: &mut Vec<u8>, n: usize)
    requires
        n <= old(bytes).len(),
    ensures
        final(bytes)@ == Seq::new(n as nat, |i: int| 0u8) + old(bytes)@.skip(n as int),
{
    bytes[..n].zeroize();
}

/// Wipes the first `n` bytes and removes them.
pub(crate) fn wipe_and_drop_front(bytes: &mut Vec<u8>, n: usize)
    requires
        n <= old(bytes).len(),
    ensures
        final(bytes)@ == old(bytes)@.skip(n as int),
{
    let ghost before = bytes@;
    wipe_front(bytes, n);
    let mut rest: Vec<u8> = Vec::new();
    let mut i: usize = n;
    while i < bytes.len()
        invariant
            n <= i <= bytes.len(),
            bytes.len() == before.len(),
            bytes@ == Seq::new(n as nat, |i: int| 0u8) + before.skip(n as int),
            rest@ == before.subrange(n as int, i as int),
        decreases bytes.len() - i,
    {
        let b: u8 = bytes[i];
        assert(b == before[i as int]);
        rest.push(b);
        i += 1;
        assert(before.subrange(n as int, i as int) =~= before.subrange(n as int, i - 1).push(b));
    }
    wipe_bytes(bytes);
    *bytes = rest;
    assert(bytes@ =~= before.skip(n as int));
}

} // verus!
