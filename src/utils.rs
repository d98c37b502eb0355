use vstd::prelude::*;

verus! {

/// Copies `buf` to exactly `len` bytes: cut at `len`, or filled up with zeros.
pub fn pad_buffer(buf: &[u8], len: usize) -> (r: Vec<u8>)
    ensures
        r@.len() == len,
        forall|i: int| 0 <= i < len ==> #[trigger] r@[i] == if i < buf@.len() { buf@[i] } else { 0u8 },
{
    let mut v: Vec<u8> = Vec::new();
    let mut i: usize = 0;
    while i < len
        invariant
            i <= len,
            v@.len() == i,
            forall|j: int| 0 <= j < i ==> #[trigger] v@[j] == if j < buf@.len() { buf@[j] } else { 0u8 },
        decreases len - i,
    {
        if i < buf.len() {
            v.push(buf[i]);
        } else {
            v.push(0);
        }
        i = i + 1;
    }
    v
}

} // verus!
