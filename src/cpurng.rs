use vstd::prelude::*;
use vstd::string::*;

use crate::config::{CpuRngConfig, CpuRngPreference};
use crate::csprng::{expand_of, generate};
use crate::error::{no_entropy_with, Error};
use crate::mixer::{entries_view, le_u64, mix_entropy, mix_seed};
use crate::text::{decimal, with_number};
use crate::zeroize::{zeroize_bytes, zeroize_vec};

verus! {

/// Whether the CPU offers an instruction.
#[derive(Debug, Clone, Copy, PartialEq, Eq, Structural)]
pub enum CpuSupport {
    /// The capability probe found the instruction.
    Present,
    /// The capability probe did not find it.
    Absent,
    /// The build target has no such instructions at all.
    OtherArchitecture,
}

/// What one CPU instruction delivered while it was tried: whether the CPU
/// has it, and the 64-bit words drawn in order (`None` for a draw whose
/// retries ran out). Drawing stops at the first failure, or once enough
/// words are in.
#[derive(Debug)]
pub struct CpuDraws {
    pub support: CpuSupport,
    pub words: Vec<Option<u64>>,
}

/// Bytes from one CPU instruction and the instruction's name.
#[derive(Debug)]
pub struct CpuRngResult {
    pub bytes: Vec<u8>,
    pub source_label: &'static str,
}

/// Words of 8 bytes needed for `count` bytes.
pub open spec fn words_for(count: nat) -> nat {
    (count + 7) / 8
}

/// Number of 64-bit draws that `count` bytes take.
pub fn words_needed(count: usize) -> (r: usize)
    ensures
        r == words_for(count as nat),
{
    count / 8 + if count % 8 == 0 {
        0
    } else {
        1
    }
}

/// The first `words_for(count)` draws all succeeded.
pub open spec fn draws_complete(count: nat, words: Seq<Option<u64>>) -> bool {
    &&& words.len() >= words_for(count)
    &&& forall|i: int| 0 <= i < words_for(count) ==> #[trigger] words[i] is Some
}

/// The value of a successful draw.
pub open spec fn word_value(w: Option<u64>) -> u64 {
    match w {
        Some(v) => v,
        None => 0,
    }
}

/// `count` bytes taken from the words in order, each word in little-endian
/// byte order (the order of the x86_64 CPUs that have these instructions).
pub open spec fn drawn_bytes(count: nat, words: Seq<Option<u64>>) -> Seq<u8> {
    Seq::new(count, |j: int| le_u64(word_value(words[j / 8]))[j % 8])
}

/// The instruction was present and every draw it took succeeded.
pub open spec fn attempt_ok(count: nat, d: CpuDraws) -> bool {
    d.support == CpuSupport::Present && draws_complete(count, d.words@)
}

fn le_byte(w: u64, t: usize) -> (b: u8)
    requires
        t < 8,
    ensures
        b == le_u64(w)[t as int],
{
    match t {
        0 => (w & 0xff) as u8,
        1 => ((w >> 8) & 0xff) as u8,
        2 => ((w >> 16) & 0xff) as u8,
        3 => ((w >> 24) & 0xff) as u8,
        4 => ((w >> 32) & 0xff) as u8,
        5 => ((w >> 40) & 0xff) as u8,
        6 => ((w >> 48) & 0xff) as u8,
        _ => ((w >> 56) & 0xff) as u8,
    }
}

fn assemble_words(count: usize, words: &Vec<Option<u64>>) -> (r: Vec<u8>)
    requires
        draws_complete(count as nat, words@),
    ensures
        r@ == drawn_bytes(count as nat, words@),
{
    let mut buf: Vec<u8> = Vec::new();
    let mut j: usize = 0;
    while j < count
        invariant
            j <= count,
            draws_complete(count as nat, words@),
            buf@ == drawn_bytes(j as nat, words@),
        decreases count - j,
    {
        assert(j / 8 < words_for(count as nat));
        let w = match words[j / 8] {
            Some(v) => v,
            None => 0,
        };
        buf.push(le_byte(w, j % 8));
        j += 1;
        assert(buf@ =~= drawn_bytes(j as nat, words@));
    }
    buf
}

/// Whether an instruction's draws delivered `count` bytes in full; an
/// attempt that did is the last one the caller needs to make.
pub fn attempt_delivered(count: usize, draws: &CpuDraws) -> (r: bool)
    ensures
        r == attempt_ok(count as nat, *draws),
{
    if draws.support != CpuSupport::Present {
        return false;
    }
    let need = words_needed(count);
    if draws.words.len() < need {
        return false;
    }
    let mut i: usize = 0;
    while i < need
        invariant
            i <= need,
            need == words_for(count as nat),
            draws.words@.len() >= need,
            forall|k: int| 0 <= k < i ==> #[trigger] draws.words@[k] is Some,
        decreases need - i,
    {
        if draws.words[i].is_none() {
            return false;
        }
        i += 1;
    }
    true
}

/// RDRAND is present: CPUID leaf 1 reports bit 30 of ECX.
pub fn rdrand_in_cpuid(ecx: u32) -> (r: bool)
    ensures
        r == ((ecx >> 30u32) & 1 == 1),
{
    (ecx >> 30) & 1 == 1
}

/// RDSEED is present: CPUID leaf 7, subleaf 0 reports bit 18 of EBX.
pub fn rdseed_in_cpuid(ebx: u32) -> (r: bool)
    ensures
        r == ((ebx >> 18u32) & 1 == 1),
{
    (ebx >> 18) & 1 == 1
}

/// The Centaur leaf range reaches the PadLock leaf 0xC0000001.
pub fn centaur_leaf_available(max_centaur: u32) -> (r: bool)
    ensures
        r == (max_centaur >= 0xC0000001),
{
    max_centaur >= 0xC0000001
}

/// XSTORE is present and enabled: bits 2 and 3 of EDX of leaf 0xC0000001.
pub fn xstore_in_cpuid(edx: u32) -> (r: bool)
    ensures
        r == ((edx & 0b1100) == 0b1100),
{
    (edx & 0b1100) == 0b1100
}

/// Detail of the error for an instruction that the target cannot have.
pub open spec fn arch_message() -> Seq<char> {
    "CPU hardware RNG not available on this architecture"@
}

fn collect_words(
    count: usize,
    draws: &CpuDraws,
    absent: &str,
    failed: String,
) -> (r: Result<Vec<u8>, Error>)
    ensures
        draws.support == CpuSupport::OtherArchitecture ==> no_entropy_with(r, arch_message()),
        draws.support == CpuSupport::Absent ==> no_entropy_with(r, absent@),
        draws.support == CpuSupport::Present && !draws_complete(count as nat, draws.words@)
            ==> no_entropy_with(r, failed@),
        attempt_ok(count as nat, *draws) ==> (r matches Ok(b) && b@ == drawn_bytes(count as nat, draws.words@)),
{
    match draws.support {
        CpuSupport::OtherArchitecture => {
            Err(Error::NoEntropy(String::from_str("CPU hardware RNG not available on this architecture")))
        },
        CpuSupport::Absent => Err(Error::NoEntropy(String::from_str(absent))),
        CpuSupport::Present => {
            let need = words_needed(count);
            if draws.words.len() < need {
                return Err(Error::NoEntropy(failed));
            }
            let mut i: usize = 0;
            while i < need
                invariant
                    i <= need,
                    need == words_for(count as nat),
                    draws.support == CpuSupport::Present,
                    draws.words@.len() >= need,
                    forall|k: int| 0 <= k < i ==> #[trigger] draws.words@[k] is Some,
                decreases need - i,
            {
                if draws.words[i].is_none() {
                    return Err(Error::NoEntropy(failed));
                }
                i += 1;
            }
            Ok(assemble_words(count, &draws.words))
        },
    }
}

/// Collects `count` bytes from RDSEED draws.
pub fn collect_rdseed(count: usize, retries: u32, draws: &CpuDraws) -> (r: Result<Vec<u8>, Error>)
    ensures
        draws.support == CpuSupport::OtherArchitecture ==> no_entropy_with(r, arch_message()),
        draws.support == CpuSupport::Absent ==> no_entropy_with(r, "RDSEED not supported on this CPU"@),
        draws.support == CpuSupport::Present && !draws_complete(count as nat, draws.words@)
            ==> no_entropy_with(r, "RDSEED failed after "@ + decimal(
            retries as nat,
        ) + " retries"@),
        attempt_ok(count as nat, *draws) ==> (r matches Ok(b) && b@ == drawn_bytes(count as nat, draws.words@)),
{
    collect_words(
        count,
        draws,
        "RDSEED not supported on this CPU",
        with_number("RDSEED failed after ", retries as u64, " retries"),
    )
}

/// Collects `count` bytes from RDRAND draws.
pub fn collect_rdrand(count: usize, retries: u32, draws: &CpuDraws) -> (r: Result<Vec<u8>, Error>)
    ensures
        draws.support == CpuSupport::OtherArchitecture ==> no_entropy_with(r, arch_message()),
        draws.support == CpuSupport::Absent ==> no_entropy_with(r, "RDRAND not supported on this CPU"@),
        draws.support == CpuSupport::Present && !draws_complete(count as nat, draws.words@)
            ==> no_entropy_with(r, "RDRAND failed after "@ + decimal(
            retries as nat,
        ) + " retries"@),
        attempt_ok(count as nat, *draws) ==> (r matches Ok(b) && b@ == drawn_bytes(count as nat, draws.words@)),
{
    collect_words(
        count,
        draws,
        "RDRAND not supported on this CPU",
        with_number("RDRAND failed after ", retries as u64, " retries"),
    )
}

/// Collects `count` bytes from XSTORE draws; each successful draw is the
/// instruction's 8-byte output read as a little-endian word.
pub fn collect_xstore(count: usize, quality: u32, draws: &CpuDraws) -> (r: Result<
    Vec<u8>,
    Error,
>)
    ensures
        draws.support == CpuSupport::OtherArchitecture ==> no_entropy_with(r, arch_message()),
        draws.support == CpuSupport::Absent ==> no_entropy_with(r, "XSTORE not supported on this CPU"@),
        draws.support == CpuSupport::Present && !draws_complete(count as nat, draws.words@)
            ==> no_entropy_with(r, "XSTORE instruction failed"@),
        attempt_ok(count as nat, *draws) ==> (r matches Ok(b) && b@ == drawn_bytes(count as nat, draws.words@)),
{
    collect_words(
        count,
        draws,
        "XSTORE not supported on this CPU",
        String::from_str("XSTORE instruction failed"),
    )
}

/// The three instructions with the preferred one first; the other two
/// follow in the fixed order RDSEED, RDRAND, XSTORE.
pub open spec fn rotation(prefer: CpuRngPreference) -> Seq<CpuRngPreference> {
    match prefer {
        CpuRngPreference::Rdseed => seq![
            CpuRngPreference::Rdseed,
            CpuRngPreference::Rdrand,
            CpuRngPreference::Xstore,
        ],
        CpuRngPreference::Rdrand => seq![
            CpuRngPreference::Rdrand,
            CpuRngPreference::Rdseed,
            CpuRngPreference::Xstore,
        ],
        CpuRngPreference::Xstore => seq![
            CpuRngPreference::Xstore,
            CpuRngPreference::Rdseed,
            CpuRngPreference::Rdrand,
        ],
    }
}

/// The configuration enables instruction `p`.
pub open spec fn is_enabled(config: CpuRngConfig, p: CpuRngPreference) -> bool {
    match p {
        CpuRngPreference::Rdseed => config.enable_rdseed,
        CpuRngPreference::Rdrand => config.enable_rdrand,
        CpuRngPreference::Xstore => config.enable_xstore,
    }
}

/// The enabled instructions of `ps`, in order.
pub open spec fn keep_enabled(config: CpuRngConfig, ps: Seq<CpuRngPreference>) -> Seq<
    CpuRngPreference,
>
    decreases ps.len(),
{
    if ps.len() == 0 {
        Seq::empty()
    } else {
        (if is_enabled(config, ps[0]) {
            seq![ps[0]]
        } else {
            Seq::empty()
        }) + keep_enabled(config, ps.drop_first())
    }
}

/// The order in which the instructions are tried.
pub open spec fn order_of(config: CpuRngConfig) -> Seq<CpuRngPreference> {
    keep_enabled(config, rotation(config.prefer))
}

fn push_if_enabled(v: &mut Vec<CpuRngPreference>, config: &CpuRngConfig, p: CpuRngPreference)
    ensures
        final(v)@ == old(v)@ + (if is_enabled(*config, p) {
            seq![p]
        } else {
            Seq::empty()
        }),
{
    let on = match p {
        CpuRngPreference::Rdseed => config.enable_rdseed,
        CpuRngPreference::Rdrand => config.enable_rdrand,
        CpuRngPreference::Xstore => config.enable_xstore,
    };
    if on {
        v.push(p);
    }
    assert(final(v)@ =~= old(v)@ + (if is_enabled(*config, p) {
        seq![p]
    } else {
        Seq::empty()
    }));
}

/// The enabled instructions, the preferred one first and the other two in
/// their fixed secondary order.
pub fn instruction_order(config: &CpuRngConfig) -> (r: Vec<CpuRngPreference>)
    ensures
        r@ == order_of(*config),
{
    let (a, b, c) = match config.prefer {
        CpuRngPreference::Rdseed => (
            CpuRngPreference::Rdseed,
            CpuRngPreference::Rdrand,
            CpuRngPreference::Xstore,
        ),
        CpuRngPreference::Rdrand => (
            CpuRngPreference::Rdrand,
            CpuRngPreference::Rdseed,
            CpuRngPreference::Xstore,
        ),
        CpuRngPreference::Xstore => (
            CpuRngPreference::Xstore,
            CpuRngPreference::Rdseed,
            CpuRngPreference::Rdrand,
        ),
    };
    let ghost rot = rotation(config.prefer);
    assert(rot =~= seq![a, b, c]);
    let mut v: Vec<CpuRngPreference> = Vec::new();
    push_if_enabled(&mut v, config, a);
    push_if_enabled(&mut v, config, b);
    push_if_enabled(&mut v, config, c);
    proof {
        reveal_with_fuel(keep_enabled, 4);
        assert(rot.drop_first() =~= seq![b, c]);
        assert(rot.drop_first().drop_first() =~= seq![c]);
        assert(rot.drop_first().drop_first().drop_first() =~= Seq::<CpuRngPreference>::empty());
        assert(v@ =~= order_of(*config));
    }
    v
}

/// The name of an instruction as a source label.
pub open spec fn label_of(p: CpuRngPreference) -> Seq<char> {
    match p {
        CpuRngPreference::Rdseed => "RDSEED"@,
        CpuRngPreference::Rdrand => "RDRAND"@,
        CpuRngPreference::Xstore => "XSTORE"@,
    }
}

/// Detail of the error that a failed attempt of instruction `p` reports.
pub open spec fn attempt_error(p: CpuRngPreference, config: CpuRngConfig, d: CpuDraws) -> Seq<char> {
    match d.support {
        CpuSupport::OtherArchitecture => arch_message(),
        CpuSupport::Absent => label_of(p) + " not supported on this CPU"@,
        CpuSupport::Present => match p {
            CpuRngPreference::Rdseed => "RDSEED failed after "@ + decimal(
                config.rdseed_retries as nat,
            ) + " retries"@,
            CpuRngPreference::Rdrand => "RDRAND failed after "@ + decimal(
                config.rdrand_retries as nat,
            ) + " retries"@,
            CpuRngPreference::Xstore => "XSTORE instruction failed"@,
        },
    }
}

/// Tries one instruction with the retry count or quality that the
/// configuration gives it.
fn try_instruction(
    pref: CpuRngPreference,
    count: usize,
    config: &CpuRngConfig,
    draws: &CpuDraws,
) -> (r: Result<(Vec<u8>, &'static str), Error>)
    ensures
        attempt_ok(count as nat, *draws) <==> r is Ok,
        r matches Ok((b, l)) ==> b@ == drawn_bytes(count as nat, draws.words@) && l@ == label_of(
            pref,
        ),
        r matches Err(e) ==> e is NoEntropy && e.detail() == attempt_error(pref, *config, *draws),
{
    proof {
        reveal_strlit("RDSEED");
        reveal_strlit("RDRAND");
        reveal_strlit("XSTORE");
        reveal_strlit(" not supported on this CPU");
        reveal_strlit("RDSEED not supported on this CPU");
        reveal_strlit("RDRAND not supported on this CPU");
        reveal_strlit("XSTORE not supported on this CPU");
        assert("RDSEED not supported on this CPU"@ =~= "RDSEED"@ + " not supported on this CPU"@);
        assert("RDRAND not supported on this CPU"@ =~= "RDRAND"@ + " not supported on this CPU"@);
        assert("XSTORE not supported on this CPU"@ =~= "XSTORE"@ + " not supported on this CPU"@);
    }
    match pref {
        CpuRngPreference::Rdseed => {
            let bytes = collect_rdseed(count, config.rdseed_retries, draws)?;
            Ok((bytes, "RDSEED"))
        },
        CpuRngPreference::Rdrand => {
            let bytes = collect_rdrand(count, config.rdrand_retries, draws)?;
            Ok((bytes, "RDRAND"))
        },
        CpuRngPreference::Xstore => {
            let bytes = collect_xstore(count, config.xstore_quality, draws)?;
            Ok((bytes, "XSTORE"))
        },
    }
}

/// Index of the first attempt in `[i, n)` that succeeded, or `n` if none did.
pub open spec fn first_ok_from(count: nat, attempts: Seq<CpuDraws>, n: int, i: int) -> int
    decreases n - i,
{
    if i >= n {
        n
    } else if attempt_ok(count, attempts[i]) {
        i
    } else {
        first_ok_from(count, attempts, n, i + 1)
    }
}

/// Number of instructions that were tried.
pub open spec fn tried(config: CpuRngConfig, attempts: Seq<CpuDraws>) -> int {
    if order_of(config).len() < attempts.len() {
        order_of(config).len() as int
    } else {
        attempts.len() as int
    }
}

/// Index of the attempt that delivers, or `tried` if none did.
pub open spec fn winner(count: nat, config: CpuRngConfig, attempts: Seq<CpuDraws>) -> int {
    first_ok_from(count, attempts, tried(config, attempts), 0)
}

/// When and how trying the instructions in order fails: every instruction
/// disabled, none tried, or the error of the last one tried. `r` is `Ok`
/// exactly when one of the tried instructions delivered in full.
pub open spec fn cpu_failure_ok(
    r: Result<CpuRngResult, Error>,
    count: nat,
    config: CpuRngConfig,
    attempts: Seq<CpuDraws>,
) -> bool {
    let k = winner(count, config, attempts);
    let n = tried(config, attempts);
    &&& order_of(config).len() == 0 ==> no_entropy_with(
        r,
        "all CPU RNG instructions are disabled"@,
    )
    &&& (r is Ok <==> k < n)
    &&& (r matches Err(e) ==> e is NoEntropy)
    &&& (order_of(config).len() > 0 && k == n ==> if n == 0 {
        no_entropy_with(r, "no CPU RNG instruction succeeded"@)
    } else {
        no_entropy_with(r, attempt_error(order_of(config)[n - 1], config, attempts[n - 1]))
    })
}

/// The outcome of trying the instructions in order: the first that
/// delivers wins, with its bytes and name.
pub open spec fn cpu_outcome_ok(
    r: Result<CpuRngResult, Error>,
    count: nat,
    config: CpuRngConfig,
    attempts: Seq<CpuDraws>,
) -> bool {
    let k = winner(count, config, attempts);
    &&& cpu_failure_ok(r, count, config, attempts)
    &&& (r matches Ok(res) ==> res.bytes@ == drawn_bytes(count, attempts[k].words@)
        && res.source_label@ == label_of(order_of(config)[k]))
}

/// Collects `count` bytes of CPU entropy. `attempts[i]` holds what the
/// `i`-th instruction of `instruction_order(config)` delivered; the first
/// that delivered in full wins. With every instruction disabled the result
/// is an error saying so.
pub fn collect_cpu_entropy(count: usize, config: &CpuRngConfig, attempts: &[CpuDraws]) -> (r:
    Result<CpuRngResult, Error>)
    ensures
        cpu_outcome_ok(r, count as nat, *config, attempts@),
{
    let order = instruction_order(config);
    if order.len() == 0 {
        return Err(Error::NoEntropy(String::from_str("all CPU RNG instructions are disabled")));
    }
    let ghost n = tried(*config, attempts@);
    let mut last_err: Option<Error> = None;
    let mut i: usize = 0;
    while i < order.len() && i < attempts.len()
        invariant
            order@ == order_of(*config),
            n == tried(*config, attempts@),
            0 <= i <= n,
            first_ok_from(count as nat, attempts@, n, 0) == first_ok_from(
                count as nat,
                attempts@,
                n,
                i as int,
            ),
            last_err is None ==> i == 0,
            last_err matches Some(e) ==> i > 0 && e is NoEntropy && e.detail() == attempt_error(
                order@[i - 1],
                *config,
                attempts@[i - 1],
            ),
        decreases n - i,
    {
        match try_instruction(order[i], count, config, &attempts[i]) {
            Ok((bytes, label)) => {
                return Ok(CpuRngResult { bytes, source_label: label });
            },
            Err(e) => {
                last_err = Some(e);
            },
        }
        i += 1;
    }
    match last_err {
        Some(e) => Err(e),
        None => Err(Error::NoEntropy(String::from_str("no CPU RNG instruction succeeded"))),
    }
}

/// Number of raw bytes that a standalone request of `count` bytes draws.
pub open spec fn raw_count_of(count: nat, config: CpuRngConfig) -> nat {
    if config.oversample <= 1 {
        count
    } else {
        count * config.oversample as nat
    }
}

/// Raw bytes to draw for a standalone request of `count` bytes: `count`
/// times the oversample factor.
pub fn oversample_count(count: usize, config: &CpuRngConfig) -> (r: usize)
    requires
        raw_count_of(count as nat, *config) <= usize::MAX,
    ensures
        r == raw_count_of(count as nat, *config),
{
    if config.oversample <= 1 {
        count
    } else {
        count * (config.oversample as usize)
    }
}

/// Label under which oversampled CPU bytes are mixed.
pub open spec fn oversample_label() -> Seq<u8> {
    seq![
        0x63u8, 0x70, 0x75, 0x2d, 0x72, 0x6e, 0x67, 0x2d, 0x6f,
        0x76, 0x65, 0x72, 0x73, 0x61, 0x6d, 0x70, 0x6c, 0x65,
    ]
}

/// CPU entropy for direct use. With an oversample factor above one,
/// `attempts` hold draws for `oversample_count(count, config)` raw bytes; the
/// raw bytes of the winning instruction are mixed under the label
/// "cpu-rng-oversample", expanded to `count` bytes, and zeroized. Otherwise
/// the raw bytes are returned as they are.
pub fn collect_cpu_entropy_standalone(
    count: usize,
    config: &CpuRngConfig,
    attempts: &[CpuDraws],
) -> (r: Result<CpuRngResult, Error>)
    requires
        raw_count_of(count as nat, *config) <= usize::MAX,
    ensures
        config.oversample <= 1 ==> cpu_outcome_ok(r, count as nat, *config, attempts@),
        config.oversample > 1 ==> {
            let raw = raw_count_of(count as nat, *config);
            let k = winner(raw, *config, attempts@);
            &&& cpu_failure_ok(r, raw, *config, attempts@)
            &&& (r matches Ok(res) ==> res.bytes@ == expand_of(
                mix_seed(seq![(oversample_label(), drawn_bytes(raw, attempts@[k].words@))]),
                count as nat,
            ) && res.source_label@ == label_of(order_of(*config)[k]))
        },
{
    if config.oversample <= 1 {
        return collect_cpu_entropy(count, config, attempts);
    }
    let raw_count = oversample_count(count, config);
    let result = collect_cpu_entropy(raw_count, config, attempts)?;
    let mut raw_bytes = result.bytes;
    let label = "cpu-rng-oversample";
    proof {
        reveal_strlit("cpu-rng-oversample");
        assert(label@.len() == 18);
        assert(is_ascii(label));
        is_ascii_spec_bytes(label);
        assert(label.spec_bytes() =~= oversample_label());
    }
    let inputs = [(label, raw_bytes.as_slice())];
    proof {
        assert(entries_view(inputs@) =~= seq![(oversample_label(), raw_bytes@)]);
    }
    let mut seed = mix_entropy(&inputs);
    let output = generate(seed, count);
    zeroize_vec(&mut raw_bytes);
    zeroize_bytes(&mut seed);
    Ok(CpuRngResult { bytes: output, source_label: result.source_label })
}

/// CPU entropy for mixing in: the bytes of `collect_cpu_entropy`, or
/// nothing when no instruction delivered.
pub fn collect_cpu_entropy_best_effort(
    count: usize,
    config: &CpuRngConfig,
    attempts: &[CpuDraws],
) -> (r: Vec<u8>)
    ensures
        ({
            let k = winner(count as nat, *config, attempts@);
            if k < tried(*config, attempts@) {
                r@ == drawn_bytes(count as nat, attempts@[k].words@)
            } else {
                r@.len() == 0
            }
        }),
{
    match collect_cpu_entropy(count, config, attempts) {
        Ok(res) => res.bytes,
        Err(_) => Vec::new(),
    }
}

} // verus!
