use mixrand::config::{CpuRngConfig, CpuRngPreference};
use mixrand::cpurng::{
    collect_cpu_entropy, collect_cpu_entropy_best_effort, collect_cpu_entropy_standalone,
    collect_rdrand, collect_rdseed, collect_xstore, instruction_order, oversample_count,
    words_needed, CpuDraws, CpuSupport, attempt_delivered, centaur_leaf_available, rdrand_in_cpuid,
    rdseed_in_cpuid, xstore_in_cpuid,
};
use mixrand::csprng::generate;
use mixrand::mixer::mix_entropy;
use mixrand::zeroize::{zeroize_bytes, zeroize_vec};

#[test]
fn test_zeroize_bytes() {
    let mut buf = vec![0xAA; 16];
    zeroize_bytes(&mut buf);
    assert!(buf.iter().all(|&b| b == 0));
}

#[test]
fn test_zeroize_vec() {
    let mut buf = vec![0xFF; 32];
    zeroize_vec(&mut buf);
    assert!(buf.iter().all(|&b| b == 0));
}

#[test]
fn test_zeroize_empty() {
    let mut buf: Vec<u8> = Vec::new();
    zeroize_vec(&mut buf);
    assert!(buf.is_empty());

    let mut empty: [u8; 0] = [];
    zeroize_bytes(&mut empty);
}

#[test]
fn test_instruction_order_prefer_rdseed() {
    let config = CpuRngConfig { prefer: CpuRngPreference::Rdseed, ..Default::default() };
    let order = instruction_order(&config);
    assert_eq!(order.len(), 3);
    assert_eq!(order[0], CpuRngPreference::Rdseed);
    assert_eq!(order[1], CpuRngPreference::Rdrand);
    assert_eq!(order[2], CpuRngPreference::Xstore);
}

#[test]
fn test_instruction_order_prefer_xstore() {
    let config = CpuRngConfig { prefer: CpuRngPreference::Xstore, ..Default::default() };
    let order = instruction_order(&config);
    assert_eq!(order.len(), 3);
    assert_eq!(order[0], CpuRngPreference::Xstore);
    assert_eq!(order[1], CpuRngPreference::Rdseed);
    assert_eq!(order[2], CpuRngPreference::Rdrand);
}

#[test]
fn test_instruction_order_filtered() {
    let config = CpuRngConfig {
        enable_rdrand: false,
        prefer: CpuRngPreference::Rdseed,
        ..Default::default()
    };
    let order = instruction_order(&config);
    assert_eq!(order.len(), 2);
    assert!(!order.contains(&CpuRngPreference::Rdrand));
}

#[test]
fn instruction_order_prefer_rdrand() {
    let config = CpuRngConfig { prefer: CpuRngPreference::Rdrand, ..Default::default() };
    let order = instruction_order(&config);
    assert_eq!(order, vec![CpuRngPreference::Rdrand, CpuRngPreference::Rdseed, CpuRngPreference::Xstore]);
}

#[test]
fn test_all_disabled_error() {
    let config = CpuRngConfig {
        enable_rdseed: false,
        enable_rdrand: false,
        enable_xstore: false,
        ..Default::default()
    };
    let result = collect_cpu_entropy(32, &config, &[]);
    assert!(result.is_err());
    let msg = result.unwrap_err().message();
    assert!(msg.contains("disabled"));
}

fn present(words: Vec<Option<u64>>) -> CpuDraws {
    CpuDraws { support: CpuSupport::Present, words }
}

#[test]
fn words_needed_rounds_up() {
    assert_eq!(words_needed(0), 0);
    assert_eq!(words_needed(1), 1);
    assert_eq!(words_needed(8), 1);
    assert_eq!(words_needed(9), 2);
}

#[test]
fn rdseed_copies_little_endian_words_and_truncates() {
    let draws = present(vec![Some(0x0807060504030201), Some(0x100f0e0d0c0b0a09)]);
    let out = collect_rdseed(11, 10, &draws).unwrap();
    assert_eq!(out, vec![1, 2, 3, 4, 5, 6, 7, 8, 9, 10, 11]);
}

#[test]
fn rdseed_failure_names_retries() {
    let draws = present(vec![Some(1), None]);
    let err = collect_rdseed(16, 7, &draws).unwrap_err();
    assert_eq!(err.message(), "entropy error: RDSEED failed after 7 retries");
}

#[test]
fn rdrand_absent_is_reported() {
    let draws = CpuDraws { support: CpuSupport::Absent, words: vec![] };
    let err = collect_rdrand(8, 10, &draws).unwrap_err();
    assert_eq!(err.message(), "entropy error: RDRAND not supported on this CPU");
}

#[test]
fn xstore_failure_and_architecture_errors() {
    let err = collect_xstore(8, 3, &present(vec![None])).unwrap_err();
    assert_eq!(err.message(), "entropy error: XSTORE instruction failed");
    let other = CpuDraws { support: CpuSupport::OtherArchitecture, words: vec![] };
    let err = collect_xstore(8, 3, &other).unwrap_err();
    assert_eq!(err.message(), "entropy error: CPU hardware RNG not available on this architecture");
}

#[test]
fn first_delivering_instruction_wins() {
    let config = CpuRngConfig { prefer: CpuRngPreference::Rdseed, ..Default::default() };
    let attempts = vec![
        CpuDraws { support: CpuSupport::Absent, words: vec![] },
        present(vec![Some(0x1111111111111111)]),
    ];
    let res = collect_cpu_entropy(4, &config, &attempts).unwrap();
    assert_eq!(res.source_label, "RDRAND");
    assert_eq!(res.bytes, vec![0x11; 4]);
}

#[test]
fn all_failing_instructions_give_entropy_error() {
    let config = CpuRngConfig::default();
    let attempts = vec![present(vec![None]), present(vec![None]), present(vec![None])];
    let err = collect_cpu_entropy(8, &config, &attempts).unwrap_err();
    assert_eq!(err.message(), "entropy error: XSTORE instruction failed");
    let none_tried = collect_cpu_entropy(8, &config, &[]).unwrap_err();
    assert_eq!(none_tried.message(), "entropy error: no CPU RNG instruction succeeded");
    assert!(collect_cpu_entropy_best_effort(8, &config, &attempts).is_empty());
}

#[test]
fn standalone_without_oversampling_returns_raw_bytes() {
    let config = CpuRngConfig { oversample: 1, ..Default::default() };
    let attempts = vec![present(vec![Some(u64::MAX)])];
    let res = collect_cpu_entropy_standalone(8, &config, &attempts).unwrap();
    assert_eq!(res.bytes, vec![0xff; 8]);
    assert_eq!(res.source_label, "RDSEED");
}

#[test]
fn standalone_oversampling_mixes_and_expands() {
    let config = CpuRngConfig { oversample: 2, ..Default::default() };
    assert_eq!(oversample_count(8, &config), 16);
    let attempts = vec![present(vec![Some(0x0101010101010101), Some(0x0202020202020202)])];
    let res = collect_cpu_entropy_standalone(8, &config, &attempts).unwrap();
    let mut raw = vec![1u8; 8];
    raw.extend_from_slice(&[2u8; 8]);
    let seed = mix_entropy(&[("cpu-rng-oversample", &raw[..])]);
    assert_eq!(res.bytes, generate(seed, 8));
    assert_ne!(res.bytes, raw[..8].to_vec());
}

#[test]
fn delivered_only_with_every_word() {
    assert!(attempt_delivered(9, &present(vec![Some(1), Some(2)])));
    assert!(!attempt_delivered(9, &present(vec![Some(1), None])));
    assert!(!attempt_delivered(9, &present(vec![Some(1)])));
    assert!(!attempt_delivered(0, &CpuDraws { support: CpuSupport::Absent, words: vec![] }));
    assert!(attempt_delivered(0, &present(vec![])));
}

#[test]
fn cpuid_feature_bits() {
    assert!(rdrand_in_cpuid(1 << 30));
    assert!(!rdrand_in_cpuid(!(1 << 30)));
    assert!(rdseed_in_cpuid(1 << 18));
    assert!(!rdseed_in_cpuid(1 << 17));
    assert!(centaur_leaf_available(0xC0000001));
    assert!(!centaur_leaf_available(0xC0000000));
    assert!(xstore_in_cpuid(0b1100));
    assert!(!xstore_in_cpuid(0b0100));
}
