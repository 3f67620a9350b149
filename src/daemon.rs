use vstd::prelude::*;
use vstd::string::*;

use crate::error::{invalid_args_with, Error};

verus! {

/// The ioctl request that adds entropy to the kernel pool with a credit.
pub const RNDADDENTROPY: u64 = 0x40085203;

/// The four bytes of `x`, least significant first when `little`, else most
/// significant first.
pub open spec fn u32_bytes(x: u32, little: bool) -> Seq<u8> {
    let le = seq![
        (x & 0xff) as u8,
        ((x >> 8u32) & 0xff) as u8,
        ((x >> 16u32) & 0xff) as u8,
        ((x >> 24u32) & 0xff) as u8,
    ];
    if little {
        le
    } else {
        seq![le[3], le[2], le[1], le[0]]
    }
}

/// Zero bytes that pad `n` bytes up to a multiple of four.
pub open spec fn padding(n: nat) -> nat {
    ((4 - n % 4) % 4) as nat
}

/// The kernel's `rand_pool_info` record: the entropy credit in bits, the
/// payload length, the payload, and zero padding to a 4-byte boundary; both
/// integers in the given byte order.
pub open spec fn pool_record(data: Seq<u8>, entropy_bits: u32, little: bool) -> Seq<u8> {
    u32_bytes(entropy_bits, little) + u32_bytes(data.len() as u32, little) + data + Seq::new(
        padding(data.len()),
        |i: int| 0u8,
    )
}

/// Relies on `u32::to_ne_bytes`: the bytes of `x` in the host's byte order,
/// which is little- or big-endian.
#[verifier::external_body]
fn native_u32_bytes(x: u32) -> (r: [u8; 4])
    ensures
        r@ == u32_bytes(x, true) || r@ == u32_bytes(x, false),
{
    x.to_ne_bytes()
}

fn push_u32(buf: &mut Vec<u8>, x: u32, little: bool)
    ensures
        final(buf)@ == old(buf)@ + u32_bytes(x, little),
{
    let b0 = (x & 0xff) as u8;
    let b1 = ((x >> 8) & 0xff) as u8;
    let b2 = ((x >> 16) & 0xff) as u8;
    let b3 = ((x >> 24) & 0xff) as u8;
    if little {
        buf.push(b0);
        buf.push(b1);
        buf.push(b2);
        buf.push(b3);
    } else {
        buf.push(b3);
        buf.push(b2);
        buf.push(b1);
        buf.push(b0);
    }
    assert(final(buf)@ =~= old(buf)@ + u32_bytes(x, little));
}

/// Lays out the `rand_pool_info` record in the given byte order.
pub fn encode_pool_record(data: &[u8], entropy_bits: u32, little: bool) -> (r: Vec<u8>)
    requires
        data@.len() <= i32::MAX,
    ensures
        r@ == pool_record(data@, entropy_bits, little),
{
    let mut buf: Vec<u8> = Vec::new();
    push_u32(&mut buf, entropy_bits, little);
    push_u32(&mut buf, data.len() as u32, little);
    let ghost head = buf@;
    let mut i: usize = 0;
    while i < data.len()
        invariant
            i <= data@.len(),
            buf@ == head + data@.subrange(0, i as int),
        decreases data@.len() - i,
    {
        buf.push(data[i]);
        i += 1;
        assert(buf@ =~= head + data@.subrange(0, i as int));
    }
    assert(data@.subrange(0, data@.len() as int) =~= data@);
    let ghost body = buf@;
    let pad: usize = (4 - data.len() % 4) % 4;
    let mut j: usize = 0;
    while j < pad
        invariant
            j <= pad,
            pad == padding(data@.len()),
            buf@ == body + Seq::new(j as nat, |k: int| 0u8),
        decreases pad - j,
    {
        buf.push(0);
        j += 1;
        assert(buf@ =~= body + Seq::new(j as nat, |k: int| 0u8));
    }
    assert(buf@ =~= pool_record(data@, entropy_bits, little));
    buf
}

/// Builds the record for the RNDADDENTROPY ioctl in the host's byte order:
/// `entropy_bits`, the payload length, the payload, zero padding to four
/// bytes.
pub fn build_rand_pool_info(data: &[u8], entropy_bits: u32) -> (r: Vec<u8>)
    requires
        data@.len() <= i32::MAX,
    ensures
        r@ == pool_record(data@, entropy_bits, true) || r@ == pool_record(
            data@,
            entropy_bits,
            false,
        ),
{
    let probe = native_u32_bytes(1);
    let little = probe[0] == 1;
    proof {
        assert(((1u32 & 0xffu32) as u8) == 1u8) by (bit_vector);
        assert((((1u32 >> 24u32) & 0xffu32) as u8) == 0u8) by (bit_vector);
    }
    encode_pool_record(data, entropy_bits, little)
}

/// The credit a batch claims: `batch_size * credit_ratio` bits.
pub open spec fn credit_of(batch_size: nat, credit_ratio: nat) -> nat {
    batch_size * credit_ratio
}

/// Checks the daemon's settings and returns the credit in bits that each
/// injected batch claims. The batch must be non-empty, the ratio between 1
/// and 8 bits per byte, and the credit must fit the record's signed 32-bit
/// field.
pub fn daemon_credit(batch_size: usize, credit_ratio: u32) -> (r: Result<u32, Error>)
    ensures
        batch_size == 0 ==> invalid_args_with(r, "batch-size must be greater than 0"@),
        batch_size > 0 && !(1 <= credit_ratio <= 8) ==> invalid_args_with(
            r,
            "credit-ratio must be between 1 and 8"@,
        ),
        batch_size > 0 && 1 <= credit_ratio <= 8 && credit_of(batch_size as nat, credit_ratio as nat)
            > i32::MAX ==> invalid_args_with(r, "batch-size too large for the entropy credit"@),
        r is Ok <==> batch_size > 0 && 1 <= credit_ratio <= 8 && credit_of(
            batch_size as nat,
            credit_ratio as nat,
        ) <= i32::MAX,
        r matches Ok(c) ==> c == credit_of(batch_size as nat, credit_ratio as nat),
{
    if batch_size == 0 {
        return Err(Error::InvalidArgs(String::from_str("batch-size must be greater than 0")));
    }
    if credit_ratio < 1 || credit_ratio > 8 {
        return Err(Error::InvalidArgs(String::from_str("credit-ratio must be between 1 and 8")));
    }
    if batch_size > (i32::MAX as usize) / (credit_ratio as usize) {
        proof {
            let q = (i32::MAX as usize) / (credit_ratio as usize);
            assert(batch_size >= q + 1);
            assert((q + 1) * credit_ratio > i32::MAX) by (nonlinear_arith)
                requires
                    q == (i32::MAX as usize) / (credit_ratio as usize),
                    1 <= credit_ratio <= 8,
            ;
            assert(batch_size * credit_ratio >= (q + 1) * credit_ratio) by (nonlinear_arith)
                requires
                    batch_size >= q + 1,
            ;
        }
        return Err(Error::InvalidArgs(String::from_str("batch-size too large for the entropy credit")));
    }
    proof {
        let q = (i32::MAX as usize) / (credit_ratio as usize);
        assert(q * credit_ratio <= i32::MAX) by (nonlinear_arith)
            requires
                q == (i32::MAX as usize) / (credit_ratio as usize),
                1 <= credit_ratio <= 8,
        ;
        assert(batch_size * credit_ratio <= q * credit_ratio) by (nonlinear_arith)
            requires
                batch_size <= q,
        ;
    }
    Ok((batch_size as u32) * credit_ratio)
}

/// What one daemon tick does after reading the kernel's entropy estimate.
#[derive(Debug, Clone, Copy, PartialEq, Eq, Structural)]
pub enum TickAction {
    /// The estimate is below the threshold: generate a batch and inject it.
    Inject,
    /// The estimate is at or above the threshold: nothing to do.
    Sufficient,
    /// The estimate could not be read or parsed: report it and wait.
    ReadFailed,
}

/// Decides a tick from the estimate that was read (`None` when reading or
/// parsing failed) and the threshold in bits.
pub fn tick_action(entropy_avail: Option<u32>, threshold: u32) -> (r: TickAction)
    ensures
        entropy_avail is None ==> r == TickAction::ReadFailed,
        entropy_avail matches Some(a) ==> (a < threshold ==> r == TickAction::Inject) && (a
            >= threshold ==> r == TickAction::Sufficient),
{
    match entropy_avail {
        None => TickAction::ReadFailed,
        Some(a) => if a < threshold {
            TickAction::Inject
        } else {
            TickAction::Sufficient
        },
    }
}

/// Length of one sleep step in milliseconds; shutdown is noticed between steps.
pub const SLEEP_STEP_MS: u64 = 250;

/// The next sleep step of an interruptible sleep with `remaining_ms` left:
/// at most one step, nothing once shutdown is flagged.
pub fn sleep_step(remaining_ms: u64, shutdown: bool) -> (r: u64)
    ensures
        shutdown ==> r == 0,
        !shutdown ==> r == (if remaining_ms < SLEEP_STEP_MS {
            remaining_ms
        } else {
            SLEEP_STEP_MS
        }),
{
    if shutdown {
        0
    } else if remaining_ms < SLEEP_STEP_MS {
        remaining_ms
    } else {
        SLEEP_STEP_MS
    }
}

} // verus!
