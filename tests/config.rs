use mixrand::config::{build_cpu_rng_config, Config, CpuRngArgs, CpuRngConfig, CpuRngPreference};
use mixrand::error::Error;

#[test]
fn test_default_values() {
    let cfg = CpuRngConfig::default();
    assert!(cfg.enable_rdseed);
    assert!(cfg.enable_rdrand);
    assert!(cfg.enable_xstore);
    assert_eq!(cfg.rdrand_retries, 10);
    assert_eq!(cfg.rdseed_retries, 10);
    assert_eq!(cfg.xstore_quality, 3);
    assert_eq!(cfg.prefer, CpuRngPreference::Rdseed);
    assert_eq!(cfg.fallback_mix_bytes, 32);
    assert_eq!(cfg.oversample, 2);
}

#[test]
fn test_validate_clamps_high() {
    let mut cfg = CpuRngConfig {
        rdrand_retries: 200,
        rdseed_retries: 200,
        xstore_quality: 10,
        fallback_mix_bytes: 2000,
        oversample: 50,
        ..Default::default()
    };
    cfg.validate();
    assert_eq!(cfg.rdrand_retries, 100);
    assert_eq!(cfg.rdseed_retries, 100);
    assert_eq!(cfg.xstore_quality, 3);
    assert_eq!(cfg.fallback_mix_bytes, 1024);
    assert_eq!(cfg.oversample, 16);
}

#[test]
fn test_validate_clamps_low() {
    let mut cfg = CpuRngConfig {
        rdrand_retries: 0,
        rdseed_retries: 0,
        xstore_quality: 0,
        fallback_mix_bytes: 0,
        oversample: 0,
        ..Default::default()
    };
    cfg.validate();
    assert_eq!(cfg.rdrand_retries, 1);
    assert_eq!(cfg.rdseed_retries, 1);
    assert_eq!(cfg.xstore_quality, 0); // 0 is valid minimum
    assert_eq!(cfg.fallback_mix_bytes, 0); // 0 is valid minimum
    assert_eq!(cfg.oversample, 1);
}

#[test]
fn validate_is_idempotent() {
    let mut cfg = CpuRngConfig { rdrand_retries: 500, oversample: 0, ..Default::default() };
    cfg.validate();
    let once = cfg;
    cfg.validate();
    assert_eq!(cfg.rdrand_retries, once.rdrand_retries);
    assert_eq!(cfg.oversample, once.oversample);
    assert_eq!(cfg.rdrand_retries, 100);
    assert_eq!(cfg.oversample, 1);
}

#[test]
fn validate_keeps_values_in_range() {
    let mut cfg = CpuRngConfig {
        rdrand_retries: 7,
        rdseed_retries: 100,
        xstore_quality: 2,
        fallback_mix_bytes: 1024,
        oversample: 1,
        ..Default::default()
    };
    cfg.validate();
    assert_eq!(cfg.rdrand_retries, 7);
    assert_eq!(cfg.rdseed_retries, 100);
    assert_eq!(cfg.xstore_quality, 2);
    assert_eq!(cfg.fallback_mix_bytes, 1024);
    assert_eq!(cfg.oversample, 1);
}

fn no_overrides() -> CpuRngArgs {
    CpuRngArgs {
        enable_rdseed: None,
        enable_rdrand: None,
        enable_xstore: None,
        rdrand_retries: None,
        rdseed_retries: None,
        xstore_quality: None,
        cpu_rng_prefer: None,
        fallback_mix_bytes: None,
        oversample: None,
    }
}

#[test]
fn overrides_apply_over_file_and_are_clamped() {
    let mut file = Config::default();
    file.cpu_rng.rdrand_retries = 20;
    file.cpu_rng.enable_rdseed = false;
    let mut args = no_overrides();
    args.cpu_rng_prefer = Some(CpuRngPreference::Xstore);
    args.oversample = Some(99);
    let cfg = build_cpu_rng_config(Ok(file), &args).unwrap();
    assert_eq!(cfg.rdrand_retries, 20);
    assert!(!cfg.enable_rdseed);
    assert_eq!(cfg.prefer, CpuRngPreference::Xstore);
    assert_eq!(cfg.oversample, 16);
}

#[test]
fn failed_load_is_passed_on() {
    let err = build_cpu_rng_config(
        Err(Error::InvalidArgs("config file not found: /nope.toml".to_string())),
        &no_overrides(),
    )
    .unwrap_err();
    assert_eq!(err.message(), "invalid arguments: config file not found: /nope.toml");
}

#[test]
fn default_file_gives_default_settings() {
    let cfg = build_cpu_rng_config(Ok(Config::default()), &no_overrides()).unwrap();
    assert_eq!(cfg.rdrand_retries, 10);
    assert_eq!(cfg.oversample, 2);
    assert!(cfg.enable_xstore);
}
