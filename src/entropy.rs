use vstd::prelude::*;
use vstd::string::*;

use crate::config::CpuRngConfig;
use crate::cpurng::CpuRngResult;
use crate::error::Error;
use crate::text::{decimal, push_decimal};

verus! {

/// Bytes for the caller and a description of the source that produced them.
#[derive(Debug)]
pub struct EntropyResult {
    pub bytes: Vec<u8>,
    pub source: String,
}

/// The sources of the generator, in order of preference.
#[derive(Debug, Clone, Copy, PartialEq, Eq, Structural)]
pub enum Stage {
    /// `/dev/hwrng`.
    HwRng,
    /// The CPU instructions, oversampled through the mixer when configured.
    CpuRng,
    /// `/dev/random` while haveged runs.
    Haveged,
    /// The fallback compositor.
    Fallback,
}

/// The outcome of trying one source.
#[derive(Debug)]
pub enum Attempt {
    HwRng(Result<Vec<u8>, Error>),
    CpuRng(Result<CpuRngResult, Error>),
    Haveged(Result<Vec<u8>, Error>),
    Fallback(Result<Vec<u8>, Error>),
}

/// What the generator does after an attempt.
#[derive(Debug)]
pub enum Step {
    /// A source delivered.
    Done(EntropyResult),
    /// The source failed; try this one next.
    Next(Stage),
    /// The last source failed too.
    Failed(Error),
}

/// The first source to try.
pub fn first_stage() -> (r: Stage)
    ensures
        r == Stage::HwRng,
{
    Stage::HwRng
}

/// Description of the CPU source for the instruction `label`.
pub open spec fn cpu_source_text(label: Seq<char>, oversample: u32) -> Seq<char> {
    if oversample > 1 {
        "CPU hardware RNG ("@ + label + ", "@ + decimal(oversample as nat) + "x oversample)"@
    } else {
        "CPU hardware RNG ("@ + label + ")"@
    }
}

/// `s` is the result `Done` with these bytes and this source description.
pub open spec fn done_with(s: Step, bytes: Seq<u8>, source: Seq<char>) -> bool {
    match s {
        Step::Done(res) => res.bytes@ == bytes && res.source@ == source,
        _ => false,
    }
}

fn done(bytes: Vec<u8>, source: &str) -> (r: Step)
    ensures
        done_with(r, bytes@, source@),
{
    Step::Done(EntropyResult { bytes, source: String::from_str(source) })
}

/// Decides the generator's next step from the outcome of the source just
/// tried. The first success wins; a failure passes on to the next source in
/// the order hwrng, CPU RNG, haveged, fallback; a failure of the fallback
/// is final.
pub fn generate(config: &CpuRngConfig, attempt: Attempt) -> (r: Step)
    ensures
        match attempt {
            Attempt::HwRng(Ok(b)) => done_with(r, b@, "hardware RNG (/dev/hwrng)"@),
            Attempt::HwRng(Err(_)) => r == Step::Next(Stage::CpuRng),
            Attempt::CpuRng(Ok(c)) => done_with(
                r,
                c.bytes@,
                cpu_source_text(c.source_label@, config.oversample),
            ),
            Attempt::CpuRng(Err(_)) => r == Step::Next(Stage::Haveged),
            Attempt::Haveged(Ok(b)) => done_with(r, b@, "haveged (/dev/random)"@),
            Attempt::Haveged(Err(_)) => r == Step::Next(Stage::Fallback),
            Attempt::Fallback(Ok(b)) => done_with(
                r,
                b@,
                "fallback (urandom + procfs + jitter + cpu-rng → BLAKE2b → ChaCha20)"@,
            ),
            Attempt::Fallback(Err(e)) => r == Step::Failed(e),
        },
{
    match attempt {
        Attempt::HwRng(Ok(b)) => done(b, "hardware RNG (/dev/hwrng)"),
        Attempt::HwRng(Err(_)) => Step::Next(Stage::CpuRng),
        Attempt::CpuRng(Ok(c)) => {
            let mut s = String::from_str("CPU hardware RNG (");
            s.append(c.source_label);
            if config.oversample > 1 {
                s.append(", ");
                push_decimal(&mut s, config.oversample as u64);
                s.append("x oversample)");
            } else {
                s.append(")");
            }
            assert(s@ =~= cpu_source_text(c.source_label@, config.oversample));
            Step::Done(EntropyResult { bytes: c.bytes, source: s })
        },
        Attempt::CpuRng(Err(_)) => Step::Next(Stage::Haveged),
        Attempt::Haveged(Ok(b)) => done(b, "haveged (/dev/random)"),
        Attempt::Haveged(Err(_)) => Step::Next(Stage::Fallback),
        Attempt::Fallback(Ok(b)) => done(
            b,
            "fallback (urandom + procfs + jitter + cpu-rng → BLAKE2b → ChaCha20)",
        ),
        Attempt::Fallback(Err(e)) => Step::Failed(e),
    }
}

} // verus!
