use vstd::prelude::*;


use core::sync::atomic::{fence, Ordering};

verus! {

/// Every byte of `s` is zero.
pub open spec fn is_zeroed(s: Seq<u8>) -> bool {
    forall|i: int| 0 <= i < s.len() ==> #[trigger] s[i] == 0
}

/// Relies on `std::hint::black_box`: the value is treated as read by
/// unknown code, so the writes or the computation that produced it are not
/// elided.
#[verifier::external_body]
pub(crate) fn keep_observable<T>(value: T) {
    std::hint::black_box(value);
}

/// Relies on `core::sync::atomic::fence` with sequentially consistent ordering.
#[verifier::external_body]
fn full_fence() {
    fence(Ordering::SeqCst);
}

/// Overwrites every byte of `buf` with zero and anchors the writes with a
/// sequentially consistent fence. The length is kept; an empty buffer is
/// left as it is.
pub fn zeroize_vec(buf: &mut Vec<u8>)
    ensures
        final(buf)@.len() == old(buf)@.len(),
        is_zeroed(final(buf)@),
{
    let n = buf.len();
    let mut i: usize = 0;
    while i < n
        invariant
            buf@.len() == n,
            i <= n,
            forall|j: int| 0 <= j < i ==> #[trigger] buf@[j] == 0,
        decreases n - i,
    {
        buf[i] = 0;
        i += 1;
    }
    keep_observable(buf.as_slice());
    full_fence();
}

/// Overwrites every byte of a fixed-size buffer with zero, as `zeroize_vec`.
pub fn zeroize_bytes(buf: &mut [u8])
    ensures
        final(buf)@.len() == old(buf)@.len(),
        is_zeroed(final(buf)@),
{
    let n = buf.len();
    let mut i: usize = 0;
    while i < n
        invariant
            buf@.len() == n,
            i <= n,
            forall|j: int| 0 <= j < i ==> #[trigger] buf@[j] == 0,
        decreases n - i,
    {
        buf[i] = 0;
        i += 1;
    }
    let view: &[u8] = buf;
    keep_observable(view);
    full_fence();
}

} // verus!
