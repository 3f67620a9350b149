use vstd::prelude::*;
use vstd::string::*;

use crate::csprng::{expand_of, generate};
use crate::mixer::{
    entries_view, mix_entropy, mix_seed,
};
use crate::zeroize::{is_zeroed, zeroize_bytes, zeroize_vec};

verus! {

/// The bytes of an ASCII text.
pub open spec fn ascii_bytes(c: Seq<char>) -> Seq<u8> {
    Seq::new(c.len(), |i: int| c[i] as u8)
}

/// The raw material of the fallback source, each buffer read from its
/// origin: 32 bytes of `/dev/urandom`, the contents of `/proc/interrupts`,
/// `/proc/stat` and `/proc/diskstats` (empty where unreadable), the jitter
/// samples, and the best-effort CPU entropy.
#[derive(Debug)]
pub struct FallbackInputs {
    pub urandom: Vec<u8>,
    pub interrupts: Vec<u8>,
    pub stat: Vec<u8>,
    pub diskstats: Vec<u8>,
    pub jitter: Vec<u8>,
    pub cpu: Vec<u8>,
}

impl FallbackInputs {
    /// The labelled inputs, in mixing order.
    pub open spec fn entries(&self) -> Seq<(Seq<u8>, Seq<u8>)> {
        seq![
            (ascii_bytes("urandom"@), self.urandom@),
            (ascii_bytes("interrupts"@), self.interrupts@),
            (ascii_bytes("stat"@), self.stat@),
            (ascii_bytes("diskstats"@), self.diskstats@),
            (ascii_bytes("jitter"@), self.jitter@),
            (ascii_bytes("cpu-rng"@), self.cpu@),
        ]
    }

    /// Every buffer has been overwritten with zeros.
    pub open spec fn all_zeroed(&self) -> bool {
        &&& is_zeroed(self.urandom@)
        &&& is_zeroed(self.interrupts@)
        &&& is_zeroed(self.stat@)
        &&& is_zeroed(self.diskstats@)
        &&& is_zeroed(self.jitter@)
        &&& is_zeroed(self.cpu@)
    }
}

proof fn lemma_literal_bytes(s: &str)
    requires
        is_ascii(s),
    ensures
        s.spec_bytes() == ascii_bytes(s@),
{
    is_ascii_spec_bytes(s);
    assert(s.spec_bytes() =~= ascii_bytes(s@));
}

/// The fallback source's output: the six inputs mixed under the labels
/// "urandom", "interrupts", "stat", "diskstats", "jitter" and "cpu-rng", in
/// that order, and the seed expanded to `count` bytes. Every input buffer
/// and the seed are zeroized before returning.
pub fn mix_fallback(count: usize, inputs: &mut FallbackInputs) -> (r: Vec<u8>)
    ensures
        r@ == expand_of(mix_seed(old(inputs).entries()), count as nat),
        final(inputs).all_zeroed(),
{
    let l0 = "urandom";
    let l1 = "interrupts";
    let l2 = "stat";
    let l3 = "diskstats";
    let l4 = "jitter";
    let l5 = "cpu-rng";
    proof {
        reveal_strlit("urandom");
        reveal_strlit("interrupts");
        reveal_strlit("stat");
        reveal_strlit("diskstats");
        reveal_strlit("jitter");
        reveal_strlit("cpu-rng");
        assert(is_ascii(l0));
        assert(is_ascii(l1));
        assert(is_ascii(l2));
        assert(is_ascii(l3));
        assert(is_ascii(l4));
        assert(is_ascii(l5));
        lemma_literal_bytes(l0);
        lemma_literal_bytes(l1);
        lemma_literal_bytes(l2);
        lemma_literal_bytes(l3);
        lemma_literal_bytes(l4);
        lemma_literal_bytes(l5);
    }
    let mut seed = {
        let list = [
            (l0, inputs.urandom.as_slice()),
            (l1, inputs.interrupts.as_slice()),
            (l2, inputs.stat.as_slice()),
            (l3, inputs.diskstats.as_slice()),
            (l4, inputs.jitter.as_slice()),
            (l5, inputs.cpu.as_slice()),
        ];
        proof {
            assert(entries_view(list@) =~= inputs.entries());
        }
        mix_entropy(&list)
    };
    let output = generate(seed, count);
    zeroize_vec(&mut inputs.urandom);
    zeroize_vec(&mut inputs.interrupts);
    zeroize_vec(&mut inputs.stat);
    zeroize_vec(&mut inputs.diskstats);
    zeroize_vec(&mut inputs.jitter);
    zeroize_vec(&mut inputs.cpu);
    zeroize_bytes(&mut seed);
    output
}

} // verus!
