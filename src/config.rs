use vstd::prelude::*;

use crate::error::Error;

verus! {

/// The CPU instruction tried first.
#[derive(Debug, Clone, Copy, PartialEq, Eq, Structural)]
pub enum CpuRngPreference {
    Rdseed,
    Rdrand,
    Xstore,
}

/// Settings of the CPU hardware RNG sources.
#[derive(Debug, Clone, Copy)]
pub struct CpuRngConfig {
    pub enable_rdseed: bool,
    pub enable_rdrand: bool,
    pub enable_xstore: bool,
    pub rdrand_retries: u32,
    pub rdseed_retries: u32,
    pub xstore_quality: u32,
    pub prefer: CpuRngPreference,
    pub fallback_mix_bytes: usize,
    pub oversample: u32,
}

/// `v` brought into `[lo, hi]`.
pub open spec fn clamp(v: int, lo: int, hi: int) -> int {
    if v < lo {
        lo
    } else if v > hi {
        hi
    } else {
        v
    }
}

/// Bounds of the numeric settings.
pub const RETRIES_MIN: u32 = 1;
pub const RETRIES_MAX: u32 = 100;
pub const XSTORE_QUALITY_MAX: u32 = 3;
pub const FALLBACK_MIX_BYTES_MAX: usize = 1024;
pub const OVERSAMPLE_MIN: u32 = 1;
pub const OVERSAMPLE_MAX: u32 = 16;

fn clamp_u32(v: u32, lo: u32, hi: u32) -> (r: u32)
    requires
        lo <= hi,
    ensures
        r == clamp(v as int, lo as int, hi as int),
{
    if v < lo {
        lo
    } else if v > hi {
        hi
    } else {
        v
    }
}

impl CpuRngConfig {
    /// Every numeric field lies in its documented range.
    pub open spec fn is_valid(&self) -> bool {
        &&& RETRIES_MIN <= self.rdrand_retries <= RETRIES_MAX
        &&& RETRIES_MIN <= self.rdseed_retries <= RETRIES_MAX
        &&& self.xstore_quality <= XSTORE_QUALITY_MAX
        &&& self.fallback_mix_bytes <= FALLBACK_MIX_BYTES_MAX
        &&& OVERSAMPLE_MIN <= self.oversample <= OVERSAMPLE_MAX
    }

    /// `self` with every numeric field clamped into its range.
    pub open spec fn clamped(&self) -> CpuRngConfig {
        CpuRngConfig {
            rdrand_retries: clamp(self.rdrand_retries as int, RETRIES_MIN as int, RETRIES_MAX as int) as u32,
            rdseed_retries: clamp(self.rdseed_retries as int, RETRIES_MIN as int, RETRIES_MAX as int) as u32,
            xstore_quality: clamp(self.xstore_quality as int, 0, XSTORE_QUALITY_MAX as int) as u32,
            fallback_mix_bytes: clamp(self.fallback_mix_bytes as int, 0, FALLBACK_MIX_BYTES_MAX as int) as usize,
            oversample: clamp(self.oversample as int, OVERSAMPLE_MIN as int, OVERSAMPLE_MAX as int) as u32,
            ..*self
        }
    }

    /// The documented defaults.
    pub open spec fn spec_default() -> CpuRngConfig {
        CpuRngConfig {
            enable_rdseed: true,
            enable_rdrand: true,
            enable_xstore: true,
            rdrand_retries: 10,
            rdseed_retries: 10,
            xstore_quality: 3,
            prefer: CpuRngPreference::Rdseed,
            fallback_mix_bytes: 32,
            oversample: 2,
        }
    }

    /// Clamps every numeric field into its documented range; flags and the
    /// preference are kept.
    pub fn validate(&mut self)
        ensures
            *final(self) == old(self).clamped(),
            final(self).is_valid(),
            old(self).is_valid() ==> *final(self) == *old(self),
    {
        self.rdrand_retries = clamp_u32(self.rdrand_retries, RETRIES_MIN, RETRIES_MAX);
        self.rdseed_retries = clamp_u32(self.rdseed_retries, RETRIES_MIN, RETRIES_MAX);
        self.xstore_quality = clamp_u32(self.xstore_quality, 0, XSTORE_QUALITY_MAX);
        if self.fallback_mix_bytes > FALLBACK_MIX_BYTES_MAX {
            self.fallback_mix_bytes = FALLBACK_MIX_BYTES_MAX;
        }
        self.oversample = clamp_u32(self.oversample, OVERSAMPLE_MIN, OVERSAMPLE_MAX);
    }
}

impl Default for CpuRngConfig {
    fn default() -> (r: Self)
        ensures
            r == CpuRngConfig::spec_default(),
    {
        CpuRngConfig {
            enable_rdseed: true,
            enable_rdrand: true,
            enable_xstore: true,
            rdrand_retries: 10,
            rdseed_retries: 10,
            xstore_quality: 3,
            prefer: CpuRngPreference::Rdseed,
            fallback_mix_bytes: 32,
            oversample: 2,
        }
    }
}

/// The whole configuration file: one `cpu_rng` table.
#[derive(Debug, Clone, Copy)]
pub struct Config {
    pub cpu_rng: CpuRngConfig,
}

impl Default for Config {
    fn default() -> (r: Self)
        ensures
            r.cpu_rng == CpuRngConfig::spec_default(),
    {
        Config { cpu_rng: CpuRngConfig::default() }
    }
}

/// Command-line overrides of the CPU-RNG settings; `None` keeps the value
/// from the configuration file.
#[derive(Debug, Clone, Copy)]
pub struct CpuRngArgs {
    pub enable_rdseed: Option<bool>,
    pub enable_rdrand: Option<bool>,
    pub enable_xstore: Option<bool>,
    pub rdrand_retries: Option<u32>,
    pub rdseed_retries: Option<u32>,
    pub xstore_quality: Option<u32>,
    pub cpu_rng_prefer: Option<CpuRngPreference>,
    pub fallback_mix_bytes: Option<usize>,
    pub oversample: Option<u32>,
}

/// `o`'s value when present, else `d`.
pub open spec fn or_else<T>(o: Option<T>, d: T) -> T {
    match o {
        Some(v) => v,
        None => d,
    }
}

/// `base` with each override that `args` holds applied, before clamping.
pub open spec fn overridden(base: CpuRngConfig, args: CpuRngArgs) -> CpuRngConfig {
    CpuRngConfig {
        enable_rdseed: or_else(args.enable_rdseed, base.enable_rdseed),
        enable_rdrand: or_else(args.enable_rdrand, base.enable_rdrand),
        enable_xstore: or_else(args.enable_xstore, base.enable_xstore),
        rdrand_retries: or_else(args.rdrand_retries, base.rdrand_retries),
        rdseed_retries: or_else(args.rdseed_retries, base.rdseed_retries),
        xstore_quality: or_else(args.xstore_quality, base.xstore_quality),
        prefer: or_else(args.cpu_rng_prefer, base.prefer),
        fallback_mix_bytes: or_else(args.fallback_mix_bytes, base.fallback_mix_bytes),
        oversample: or_else(args.oversample, base.oversample),
    }
}

/// Layers the settings: the loaded file's table (the defaults when no file
/// exists at the default path), then the command-line overrides; the result
/// is validated. A failed load (an explicit path that does not exist, a file
/// that cannot be read or parsed) is passed on unchanged.
pub fn build_cpu_rng_config(file: Result<Config, Error>, args: &CpuRngArgs) -> (r: Result<
    CpuRngConfig,
    Error,
>)
    ensures
        file matches Err(e) ==> r == Err::<CpuRngConfig, Error>(e),
        file matches Ok(c) ==> r == Ok::<CpuRngConfig, Error>(overridden(c.cpu_rng, *args).clamped()),
        r matches Ok(cfg) ==> cfg.is_valid(),
{
    let mut cfg = match file {
        Ok(c) => c.cpu_rng,
        Err(e) => return Err(e),
    };
    if let Some(v) = args.enable_rdseed {
        cfg.enable_rdseed = v;
    }
    if let Some(v) = args.enable_rdrand {
        cfg.enable_rdrand = v;
    }
    if let Some(v) = args.enable_xstore {
        cfg.enable_xstore = v;
    }
    if let Some(v) = args.rdrand_retries {
        cfg.rdrand_retries = v;
    }
    if let Some(v) = args.rdseed_retries {
        cfg.rdseed_retries = v;
    }
    if let Some(v) = args.xstore_quality {
        cfg.xstore_quality = v;
    }
    if let Some(v) = args.cpu_rng_prefer {
        cfg.prefer = v;
    }
    if let Some(v) = args.fallback_mix_bytes {
        cfg.fallback_mix_bytes = v;
    }
    if let Some(v) = args.oversample {
        cfg.oversample = v;
    }
    cfg.validate();
    Ok(cfg)
}

} // verus!
