use vstd::prelude::*;

use crate::mixer::le_u64;
use crate::zeroize::keep_observable;

verus! {

/// Bytes of timing samples gathered so far and the accumulator that
/// drives the next busy-spin.
#[derive(Debug)]
pub struct JitterState {
    /// Little-endian 8-byte timestamps, one per sample.
    pub samples: Vec<u8>,
    /// XOR of the timestamps so far.
    pub accumulator: u64,
    /// Number of samples taken.
    pub taken: usize,
}

/// Number of spin iterations before the next sample: 1000 plus the low nine
/// bits of the accumulator.
pub open spec fn spin_count_of(accumulator: u64) -> nat {
    1000 + (accumulator & 0x1ffu64) as nat
}

/// The timestamps recorded so far, in order, as little-endian bytes.
pub open spec fn samples_of(ts: Seq<u64>) -> Seq<u8>
    decreases ts.len(),
{
    if ts.len() == 0 {
        Seq::empty()
    } else {
        samples_of(ts.drop_last()) + le_u64(ts.last())
    }
}

/// The timestamps XOR-folded together.
pub open spec fn accumulated(ts: Seq<u64>) -> u64
    decreases ts.len(),
{
    if ts.len() == 0 {
        0
    } else {
        accumulated(ts.drop_last()) ^ ts.last()
    }
}

/// One step of the spin's linear congruential sequence, modulo 2^64.
pub open spec fn lcg_step(x: u64) -> u64 {
    ((x as int * 0x5DEECE66Dint + 0xBint) % 0x1_0000_0000_0000_0000int) as u64
}

/// `n` spin steps from `x`.
pub open spec fn lcg_spin(x: u64, n: nat) -> u64
    decreases n,
{
    if n == 0 {
        x
    } else {
        lcg_step(lcg_spin(x, (n - 1) as nat))
    }
}

/// The value the spin starts from for sample `index`.
pub open spec fn spin_start(index: usize) -> u64 {
    ((index as int * 0x6C62272E07BB0142int) % 0x1_0000_0000_0000_0000int) as u64
}

impl JitterState {
    /// The state holds exactly the samples of the timestamps `ts`.
    pub open spec fn holds(&self, ts: Seq<u64>) -> bool {
        &&& self.samples@ == samples_of(ts)
        &&& self.accumulator == accumulated(ts)
        &&& self.taken == ts.len()
    }

    /// A collection with no samples yet.
    pub fn new(count: usize) -> (r: JitterState)
        ensures
            r.holds(Seq::empty()),
    {
        JitterState { samples: Vec::with_capacity(count), accumulator: 0, taken: 0 }
    }

    /// Spin iterations before the next sample.
    pub fn spin_count(&self) -> (r: usize)
        ensures
            r == spin_count_of(self.accumulator),
    {
        let acc = self.accumulator;
        let low = acc & 0x1ff;
        assert(low <= 0x1ff) by (bit_vector)
            requires
                low == acc & 0x1ffu64,
        ;
        1000 + low as usize
    }

    /// The data-dependent busy-spin that precedes the next sample: an LCG
    /// step repeated `spin_count()` times from a value derived from the
    /// sample index. Its result is kept observable so the work is done.
    pub fn spin(&self) -> (r: u64)
        ensures
            r == lcg_spin(spin_start(self.taken), spin_count_of(self.accumulator)),
    {
        let spins = self.spin_count();
        let mut x: u64 = (self.taken as u64).wrapping_mul(0x6C62272E07BB0142);
        let mut k: usize = 0;
        while k < spins
            invariant
                k <= spins,
                x == lcg_spin(spin_start(self.taken), k as nat),
            decreases spins - k,
        {
            let m = x.wrapping_mul(0x5DEECE66D);
            let next = m.wrapping_add(0xB);
            proof {
                let p = x as int * 0x5DEECE66Dint;
                let big = 0x1_0000_0000_0000_0000int;
                assert(m == p % big);
                assert(next == (m + 11) % big);
                assert((p % big + 11) % big == (p + 11) % big) by {
                    vstd::arithmetic::div_mod::lemma_add_mod_noop(p, 11, big);
                    vstd::arithmetic::div_mod::lemma_mod_twice(11, big);
                }
            }
            x = next;
            k += 1;
        }
        keep_observable(x);
        x
    }

    /// Records a timestamp in nanoseconds: its little-endian bytes are
    /// appended and it is XOR-folded into the accumulator.
    pub fn record(&mut self, ts: u64)
        requires
            old(self).taken < usize::MAX,
        ensures
            forall|prev: Seq<u64>| old(self).holds(prev) ==> final(self).holds(prev.push(ts)),
    {
        self.accumulator = self.accumulator ^ ts;
        self.samples.push((ts & 0xff) as u8);
        self.samples.push(((ts >> 8) & 0xff) as u8);
        self.samples.push(((ts >> 16) & 0xff) as u8);
        self.samples.push(((ts >> 24) & 0xff) as u8);
        self.samples.push(((ts >> 32) & 0xff) as u8);
        self.samples.push(((ts >> 40) & 0xff) as u8);
        self.samples.push(((ts >> 48) & 0xff) as u8);
        self.samples.push(((ts >> 56) & 0xff) as u8);
        self.taken = self.taken + 1;
        assert forall|prev: Seq<u64>| old(self).holds(prev) implies final(self).holds(prev.push(ts)) by {
            assert(prev.push(ts).drop_last() =~= prev);
            assert(final(self).samples@ =~= samples_of(prev.push(ts)));
        }
    }
}

} // verus!
