use vstd::prelude::*;

use rand_chacha::ChaCha20Rng;
use rand_core::{RngCore, SeedableRng};

verus! {

/// Byte `index` of the ChaCha20 keystream that `rand_chacha::ChaCha20Rng`
/// produces from the 32-byte `seed` (stream 0, starting at word 0).
pub uninterp spec fn chacha20_stream_byte(seed: Seq<u8>, index: int) -> u8;

/// Relies on `ChaCha20Rng::from_seed` followed by one `RngCore::fill_bytes`:
/// a freshly seeded generator fills the buffer with the keystream bytes in
/// order from the start.
#[verifier::external_body]
fn chacha20_fill(seed: [u8; 32], count: usize) -> (r: Vec<u8>)
    ensures
        r@.len() == count,
        forall|i: int| 0 <= i < count ==> r@[i] == chacha20_stream_byte(seed@, i),
{
    let mut rng = ChaCha20Rng::from_seed(seed);
    let mut buf = vec![0u8; count];
    rng.fill_bytes(&mut buf);
    buf
}

/// The first `n` bytes of the keystream keyed by `seed`.
pub open spec fn expand_of(seed: Seq<u8>, n: nat) -> Seq<u8> {
    Seq::new(n, |i: int| chacha20_stream_byte(seed, i))
}

/// Expands a 32-byte seed into `count` bytes of the ChaCha20 keystream.
pub fn generate(seed: [u8; 32], count: usize) -> (r: Vec<u8>)
    ensures
        r@ == expand_of(seed@, count as nat),
{
    let out = chacha20_fill(seed, count);
    assert(out@ =~= expand_of(seed@, count as nat));
    out
}

/// Stream consistency: the expansion to `n` bytes is the prefix of the
/// expansion of the same seed to `n + k` bytes.
pub proof fn lemma_expand_prefix(seed: Seq<u8>, n: nat, k: nat)
    ensures
        expand_of(seed, n) == expand_of(seed, n + k).subrange(0, n as int),
{
    assert(expand_of(seed, n) =~= expand_of(seed, n + k).subrange(0, n as int));
}

} // verus!
