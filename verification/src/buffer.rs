//! Bounded buffer marshalling: copying a produced byte string into a
//! caller-owned, fixed-capacity buffer, truncating safely and always
//! leaving a terminator.

use vstd::prelude::*;
use vstd::pervasive::VecAdditionalExecFns;

verus! {

/// Number of content bytes that fit into a destination of the given
/// capacity: one byte is always reserved for the terminator.
pub open spec fn copy_len_spec(source_len: int, dest_len: int) -> int {
    if source_len < dest_len - 1 {
        source_len
    } else {
        dest_len - 1
    }
}

/// Copy as much of `source` into `dest` as fits while reserving one byte
/// for a zero terminator, written right after the copied content. Bytes of
/// `dest` past the terminator keep their previous values, and the length of
/// `dest` never changes. Returns the number of content bytes copied.
pub fn write_truncated(source: &Vec<u8>, dest: &mut Vec<u8>) -> (copy_len: usize)
    requires
        old(dest).len() >= 1,
    ensures
        copy_len == copy_len_spec(source@.len() as int, old(dest)@.len() as int),
        final(dest)@.len() == old(dest)@.len(),
        forall|i: int| 0 <= i < copy_len ==> final(dest)@[i] == source@[i],
        final(dest)@[copy_len as int] == 0u8,
        forall|i: int| copy_len < i < final(dest)@.len() ==> final(dest)@[i] == old(dest)@[i],
{
    let capacity = dest.len();
    let copy_len: usize = if source.len() < capacity - 1 {
        source.len()
    } else {
        capacity - 1
    };
    let mut i: usize = 0;
    while i < copy_len
        invariant
            i <= copy_len,
            copy_len == copy_len_spec(source@.len() as int, old(dest)@.len() as int),
            copy_len < dest@.len(),
            source@.len() >= copy_len,
            dest@.len() == old(dest)@.len(),
            forall|j: int| 0 <= j < i ==> dest@[j] == source@[j],
            forall|j: int| i <= j < dest@.len() ==> dest@[j] == old(dest)@[j],
        decreases copy_len - i,
    {
        dest.set(i, source[i]);
        i = i + 1;
    }
    dest.set(copy_len, 0u8);
    copy_len
}

} // verus!
