//! What the conversions share.

use vstd::prelude::*;

verus! {

/// Why a field that must be present could not be read.
#[derive(Debug)]
pub enum ParseRequiredError<E> {
    /// The field is absent.
    Missing,
    /// The field is present and its content was rejected.
    Other(E),
}

/// Why a repeated field could not be read: the first element that was
/// rejected, and why.
#[derive(Debug)]
pub struct ParseVecError<E> {
    pub idx: usize,
    pub source: E,
}

/// A copy of `bytes`.
pub fn copy_bytes(bytes: &Vec<u8>) -> (copy: Vec<u8>)
    ensures
        copy@ == bytes@,
{
    let mut copy: Vec<u8> = Vec::new();
    let mut i: usize = 0;
    while i < bytes.len()
        invariant
            i <= bytes.len(),
            copy@ == bytes@.subrange(0, i as int),
        decreases bytes.len() - i,
    {
        copy.push(bytes[i]);
        i = i + 1;
        assert(copy@ =~= bytes@.subrange(0, i as int));
    }
    assert(bytes@.subrange(0, bytes@.len() as int) =~= bytes@);
    copy
}

} // verus!
