//! The choice of what a vectored write over a QUIC stream sends: the stream
//! writes one buffer at a time.

use vstd::prelude::*;

verus! {

/// The index of the first buffer that is not empty, if there is one; a
/// vectored write sends that buffer alone, or nothing.
pub fn first_non_empty(bufs: &[&[u8]]) -> (r: Option<usize>)
    ensures
        match r {
            Some(k) => k < bufs@.len() && bufs@[k as int]@.len() > 0 && forall|i: int|
                0 <= i < k ==> #[trigger] bufs@[i]@.len() == 0,
            None => forall|i: int| 0 <= i < bufs@.len() ==> #[trigger] bufs@[i]@.len() == 0,
        },
{
    let mut k: usize = 0;
    while k < bufs.len()
        invariant
            k <= bufs@.len(),
            forall|i: int| 0 <= i < k ==> #[trigger] bufs@[i]@.len() == 0,
        decreases bufs@.len() - k,
    {
        if bufs[k].len() > 0 {
            return Some(k);
        }
        k = k + 1;
    }
    None
}

} // verus!
