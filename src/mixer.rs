use vstd::prelude::*;
use vstd::string::*;

use blake2::digest::consts::U32;
use blake2::{Blake2b, Digest};

use crate::zeroize::zeroize_vec;

verus! {

/// BLAKE2b with a 256-bit output, as computed by the `blake2` crate.
pub uninterp spec fn blake2b_256_of(msg: Seq<u8>) -> Seq<u8>;

/// Relies on `blake2::Blake2b::<U32>::digest`: the 32-byte BLAKE2b-256 digest
/// of the message, which depends on the message alone.
#[verifier::external_body]
fn blake2b_256(msg: &[u8]) -> (r: [u8; 32])
    ensures
        r@ == blake2b_256_of(msg@),
{
    Blake2b::<U32>::digest(msg).into()
}

/// The eight little-endian bytes of `n`.
pub open spec fn le_u64(n: u64) -> Seq<u8> {
    seq![
        (n & 0xff) as u8,
        ((n >> 8u64) & 0xff) as u8,
        ((n >> 16u64) & 0xff) as u8,
        ((n >> 24u64) & 0xff) as u8,
        ((n >> 32u64) & 0xff) as u8,
        ((n >> 40u64) & 0xff) as u8,
        ((n >> 48u64) & 0xff) as u8,
        ((n >> 56u64) & 0xff) as u8,
    ]
}

/// A byte string preceded by its length as a little-endian `u64`.
pub open spec fn length_prefixed(bytes: Seq<u8>) -> Seq<u8> {
    le_u64(bytes.len() as u64) + bytes
}

/// One labelled input: its length-prefixed label, then its length-prefixed data.
pub open spec fn entry_encoding(entry: (Seq<u8>, Seq<u8>)) -> Seq<u8> {
    length_prefixed(entry.0) + length_prefixed(entry.1)
}

/// The labelled inputs encoded one after the other, in order.
pub open spec fn entries_encoding(entries: Seq<(Seq<u8>, Seq<u8>)>) -> Seq<u8>
    decreases entries.len(),
{
    if entries.len() == 0 {
        Seq::empty()
    } else {
        entry_encoding(entries[0]) + entries_encoding(entries.drop_first())
    }
}

/// The domain-separation tag "mixrand-entropy-v1" as bytes.
pub open spec fn domain_tag() -> Seq<u8> {
    seq![
        0x6du8, 0x69, 0x78, 0x72, 0x61, 0x6e, 0x64, 0x2d, 0x65,
        0x6e, 0x74, 0x72, 0x6f, 0x70, 0x79, 0x2d, 0x76, 0x31,
    ]
}

/// The whole hashed message: the tag followed by the encoded inputs.
pub open spec fn mix_message_of(entries: Seq<(Seq<u8>, Seq<u8>)>) -> Seq<u8> {
    domain_tag() + entries_encoding(entries)
}

/// The (label bytes, data) pairs that a mixer input list stands for.
pub open spec fn entries_view(inputs: Seq<(&str, &[u8])>) -> Seq<(Seq<u8>, Seq<u8>)> {
    inputs.map_values(|p: (&str, &[u8])| (p.0.spec_bytes(), p.1@))
}

/// The seed that mixing `entries` yields.
pub open spec fn mix_seed(entries: Seq<(Seq<u8>, Seq<u8>)>) -> Seq<u8> {
    blake2b_256_of(mix_message_of(entries))
}

proof fn lemma_entries_encoding_push(entries: Seq<(Seq<u8>, Seq<u8>)>, e: (Seq<u8>, Seq<u8>))
    ensures
        entries_encoding(entries.push(e)) == entries_encoding(entries) + entry_encoding(e),
    decreases entries.len(),
{
    if entries.len() == 0 {
        let s = entries.push(e);
        assert(s.drop_first() =~= Seq::<(Seq<u8>, Seq<u8>)>::empty());
        assert(entries_encoding(s.drop_first()) == Seq::<u8>::empty());
        assert(s[0] == e);
        assert(entries_encoding(entries) == Seq::<u8>::empty());
        assert(entries_encoding(s) =~= entry_encoding(e));
    } else {
        assert(entries.push(e).drop_first() =~= entries.drop_first().push(e));
        lemma_entries_encoding_push(entries.drop_first(), e);
        assert(entries_encoding(entries.push(e)) =~= entries_encoding(entries) + entry_encoding(e));
    }
}

pub(crate) fn append_bytes(msg: &mut Vec<u8>, src: &[u8])
    ensures
        final(msg)@ == old(msg)@ + src@,
{
    let ghost start = msg@;
    let mut i: usize = 0;
    while i < src.len()
        invariant
            i <= src@.len(),
            msg@ == start + src@.subrange(0, i as int),
        decreases src@.len() - i,
    {
        msg.push(src[i]);
        i += 1;
        assert(msg@ =~= start + src@.subrange(0, i as int));
    }
    assert(src@.subrange(0, src@.len() as int) =~= src@);
}

fn append_le_u64(msg: &mut Vec<u8>, n: u64)
    ensures
        final(msg)@ == old(msg)@ + le_u64(n),
{
    msg.push((n & 0xff) as u8);
    msg.push(((n >> 8) & 0xff) as u8);
    msg.push(((n >> 16) & 0xff) as u8);
    msg.push(((n >> 24) & 0xff) as u8);
    msg.push(((n >> 32) & 0xff) as u8);
    msg.push(((n >> 40) & 0xff) as u8);
    msg.push(((n >> 48) & 0xff) as u8);
    msg.push(((n >> 56) & 0xff) as u8);
    assert(final(msg)@ =~= old(msg)@ + le_u64(n));
}

/// Builds the byte message that the mixer hashes: the domain tag, then for
/// each (label, data) pair in order the label's length as a little-endian
/// `u64`, the label bytes, the data's length likewise, and the data bytes.
pub fn mix_message(inputs: &[(&str, &[u8])]) -> (r: Vec<u8>)
    ensures
        r@ == mix_message_of(entries_view(inputs@)),
{
    let ghost entries = entries_view(inputs@);
    let mut msg: Vec<u8> = vec![
        0x6d, 0x69, 0x78, 0x72, 0x61, 0x6e, 0x64, 0x2d, 0x65,
        0x6e, 0x74, 0x72, 0x6f, 0x70, 0x79, 0x2d, 0x76, 0x31,
    ];
    assert(msg@ =~= domain_tag() + entries_encoding(entries.subrange(0, 0)));
    let mut i: usize = 0;
    while i < inputs.len()
        invariant
            i <= inputs@.len(),
            entries == entries_view(inputs@),
            msg@ == domain_tag() + entries_encoding(entries.subrange(0, i as int)),
        decreases inputs@.len() - i,
    {
        let (label, data) = inputs[i];
        let lb = label.as_bytes();
        proof {
            assert(entries.subrange(0, i + 1) =~= entries.subrange(0, i as int).push(entries[i as int]));
            lemma_entries_encoding_push(entries.subrange(0, i as int), entries[i as int]);
        }
        append_le_u64(&mut msg, lb.len() as u64);
        append_bytes(&mut msg, lb);
        append_le_u64(&mut msg, data.len() as u64);
        append_bytes(&mut msg, data);
        i += 1;
        assert(msg@ =~= domain_tag() + entries_encoding(entries.subrange(0, i as int)));
    }
    assert(entries.subrange(0, inputs@.len() as int) =~= entries);
    msg
}

/// Mixes labelled entropy inputs into a 32-byte seed: BLAKE2b-256 over the
/// domain tag and the length-prefixed labels and data, in input order. The
/// intermediate message is zeroized before returning.
pub fn mix_entropy(inputs: &[(&str, &[u8])]) -> (r: [u8; 32])
    ensures
        r@ == mix_seed(entries_view(inputs@)),
{
    let mut msg = mix_message(inputs);
    let seed = blake2b_256(msg.as_slice());
    zeroize_vec(&mut msg);
    seed
}

/// Every label and data length is representable in the `u64` length prefix.
pub open spec fn lengths_fit(entries: Seq<(Seq<u8>, Seq<u8>)>) -> bool {
    forall|i: int|
        0 <= i < entries.len() ==> #[trigger] entries[i].0.len() <= u64::MAX && entries[i].1.len()
            <= u64::MAX
}

proof fn lemma_le_u64_injective(a: u64, b: u64)
    requires
        le_u64(a) == le_u64(b),
    ensures
        a == b,
{
    let la = le_u64(a);
    let lb = le_u64(b);
    assert(la[0] == lb[0] && la[1] == lb[1] && la[2] == lb[2] && la[3] == lb[3]);
    assert(la[4] == lb[4] && la[5] == lb[5] && la[6] == lb[6] && la[7] == lb[7]);
    assert(((a & 0xff) as u8 == (b & 0xff) as u8 && ((a >> 8u64) & 0xff) as u8 == ((b >> 8u64)
        & 0xff) as u8 && ((a >> 16u64) & 0xff) as u8 == ((b >> 16u64) & 0xff) as u8 && ((a
        >> 24u64) & 0xff) as u8 == ((b >> 24u64) & 0xff) as u8 && ((a >> 32u64) & 0xff) as u8
        == ((b >> 32u64) & 0xff) as u8 && ((a >> 40u64) & 0xff) as u8 == ((b >> 40u64) & 0xff) as u8
        && ((a >> 48u64) & 0xff) as u8 == ((b >> 48u64) & 0xff) as u8 && ((a >> 56u64) & 0xff) as u8
        == ((b >> 56u64) & 0xff) as u8) ==> a == b) by (bit_vector);
}

/// Splits a length-prefixed field off the front of `m`.
proof fn lemma_split_field(m: Seq<u8>, f: Seq<u8>, rest: Seq<u8>, g: Seq<u8>, rest2: Seq<u8>)
    requires
        m == length_prefixed(f) + rest,
        m == length_prefixed(g) + rest2,
        f.len() <= u64::MAX,
        g.len() <= u64::MAX,
    ensures
        f == g,
        rest == rest2,
{
    assert(m.subrange(0, 8) =~= le_u64(f.len() as u64));
    assert(m.subrange(0, 8) =~= le_u64(g.len() as u64));
    lemma_le_u64_injective(f.len() as u64, g.len() as u64);
    assert(f.len() == g.len());
    assert(m.subrange(8, 8 + f.len() as int) =~= f);
    assert(m.subrange(8, 8 + g.len() as int) =~= g);
    assert(m.subrange(8 + f.len() as int, m.len() as int) =~= rest);
    assert(m.subrange(8 + g.len() as int, m.len() as int) =~= rest2);
}

/// The encoding of a list of labelled inputs determines the list: two lists
/// whose lengths fit the prefixes and whose encodings agree are equal.
pub proof fn lemma_entries_encoding_injective(
    x: Seq<(Seq<u8>, Seq<u8>)>,
    y: Seq<(Seq<u8>, Seq<u8>)>,
)
    requires
        lengths_fit(x),
        lengths_fit(y),
        entries_encoding(x) == entries_encoding(y),
    ensures
        x == y,
    decreases x.len(),
{
    if x.len() == 0 || y.len() == 0 {
        if x.len() != 0 {
            assert(entries_encoding(x).len() >= 16);
            assert(entries_encoding(y) == Seq::<u8>::empty());
        } else if y.len() != 0 {
            assert(entries_encoding(y).len() >= 16);
            assert(entries_encoding(x) == Seq::<u8>::empty());
        }
        assert(x =~= y);
    } else {
        let m = entries_encoding(x);
        let (xl, xd) = x[0];
        let (yl, yd) = y[0];
        let rx = entries_encoding(x.drop_first());
        let ry = entries_encoding(y.drop_first());
        assert(lengths_fit(x.drop_first())) by {
            assert forall|i: int| 0 <= i < x.drop_first().len() implies #[trigger] x.drop_first()[i].0.len() <= u64::MAX && x.drop_first()[i].1.len() <= u64::MAX by {
                assert(x.drop_first()[i] == x[i + 1]);
            }
        }
        assert(lengths_fit(y.drop_first())) by {
            assert forall|i: int| 0 <= i < y.drop_first().len() implies #[trigger] y.drop_first()[i].0.len() <= u64::MAX && y.drop_first()[i].1.len() <= u64::MAX by {
                assert(y.drop_first()[i] == y[i + 1]);
            }
        }
        assert(x[0].0.len() <= u64::MAX && x[0].1.len() <= u64::MAX);
        assert(y[0].0.len() <= u64::MAX && y[0].1.len() <= u64::MAX);
        assert(m =~= length_prefixed(xl) + (length_prefixed(xd) + rx));
        assert(m =~= length_prefixed(yl) + (length_prefixed(yd) + ry));
        lemma_split_field(m, xl, length_prefixed(xd) + rx, yl, length_prefixed(yd) + ry);
        lemma_split_field(length_prefixed(xd) + rx, xd, rx, yd, ry);
        lemma_entries_encoding_injective(x.drop_first(), y.drop_first());
        assert(x =~= seq![x[0]] + x.drop_first());
        assert(y =~= seq![y[0]] + y.drop_first());
    }
}

/// Distinct input lists are hashed as distinct messages, so their seeds
/// differ unless BLAKE2b-256 has a collision.
pub proof fn lemma_mix_message_injective(
    x: Seq<(Seq<u8>, Seq<u8>)>,
    y: Seq<(Seq<u8>, Seq<u8>)>,
)
    requires
        lengths_fit(x),
        lengths_fit(y),
        x != y,
    ensures
        mix_message_of(x) != mix_message_of(y),
{
    if mix_message_of(x) == mix_message_of(y) {
        let m = mix_message_of(x);
        assert(m.subrange(18, m.len() as int) =~= entries_encoding(x));
        assert(m.subrange(18, m.len() as int) =~= entries_encoding(y));
        lemma_entries_encoding_injective(x, y);
    }
}

/// Domain separation: one input under two different labels with the same
/// data is hashed as two different messages.
pub proof fn lemma_mix_domain_separation(a: Seq<u8>, b: Seq<u8>, d: Seq<u8>)
    requires
        a != b,
        a.len() <= u64::MAX,
        b.len() <= u64::MAX,
        d.len() <= u64::MAX,
    ensures
        mix_message_of(seq![(a, d)]) != mix_message_of(seq![(b, d)]),
{
    let x = seq![(a, d)];
    let y = seq![(b, d)];
    assert(x[0] != y[0]);
    lemma_mix_message_injective(x, y);
}

/// Order sensitivity: swapping two adjacent, different inputs changes the
/// hashed message.
pub proof fn lemma_mix_order_sensitive(entries: Seq<(Seq<u8>, Seq<u8>)>, i: int)
    requires
        lengths_fit(entries),
        0 <= i,
        i + 1 < entries.len(),
        entries[i] != entries[i + 1],
    ensures
        mix_message_of(entries) != mix_message_of(
            entries.update(i, entries[i + 1]).update(i + 1, entries[i]),
        ),
{
    let swapped = entries.update(i, entries[i + 1]).update(i + 1, entries[i]);
    assert(swapped[i] != entries[i]);
    assert(lengths_fit(swapped)) by {
        assert forall|j: int| 0 <= j < swapped.len() implies #[trigger] swapped[j].0.len() <= u64::MAX && swapped[j].1.len() <= u64::MAX by {
            if j == i {
                assert(swapped[j] == entries[i + 1]);
            } else if j == i + 1 {
                assert(swapped[j] == entries[i]);
            } else {
                assert(swapped[j] == entries[j]);
            }
        }
    }
    lemma_mix_message_injective(entries, swapped);
}

} // verus!
