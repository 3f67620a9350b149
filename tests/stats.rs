use rand_chacha::ChaCha20Rng;
use rand_core::{RngCore, SeedableRng};
use mixrand::stats::{byte_frequencies, fips_suite};

fn all_zeros() -> [u8; 2500] {
    [0u8; 2500]
}

fn all_aa() -> [u8; 2500] {
    [0xAA; 2500]
}

#[test]
fn test_monobit_zeros_fails() {
    let result = fips_suite(&all_zeros());
    assert!(!result.monobit_passed);
    assert_eq!(result.ones, 0);
}

#[test]
fn test_monobit_aa_passes() {
    // 0xAA = 10101010, each byte has 4 ones → 2500 * 4 = 10000
    let result = fips_suite(&all_aa());
    assert!(result.monobit_passed);
    assert_eq!(result.ones, 10000);
}

#[test]
fn test_poker_zeros_fails() {
    let result = fips_suite(&all_zeros());
    assert!(!result.poker_passed);
}

#[test]
fn test_poker_aa_fails() {
    // All 5000 nibbles are 0xA → extreme chi-square
    let result = fips_suite(&all_aa());
    assert!(!result.poker_passed);
    assert_eq!(result.poker_square_sum, 5000 * 5000);
}

#[test]
fn test_runs_zeros_fails() {
    // Single run of 20000 zeros → length-1 count is 0
    let result = fips_suite(&all_zeros());
    assert!(!result.runs_passed);
    assert_eq!(result.runs.zeros, [0, 0, 0, 0, 0, 1]);
    assert_eq!(result.runs.ones, [0; 6]);
}

#[test]
fn test_runs_aa_fails() {
    // 10000 runs of length 1 for each bit value, way above upper bound
    let result = fips_suite(&all_aa());
    assert!(!result.runs_passed);
    assert_eq!(result.runs.zeros[0], 10000);
    assert_eq!(result.runs.ones[0], 10000);
}

#[test]
fn test_long_runs_zeros_fails() {
    let result = fips_suite(&all_zeros());
    assert!(!result.long_runs_passed);
    assert_eq!(result.runs.longest, 20000);
}

#[test]
fn test_long_runs_aa_passes() {
    // Max run is 1 bit
    let result = fips_suite(&all_aa());
    assert!(result.long_runs_passed);
    assert_eq!(result.runs.longest, 1);
}

#[test]
fn test_fips_suite_chacha20() {

    let mut rng = ChaCha20Rng::seed_from_u64(42);
    let mut data = [0u8; 2500];
    rng.fill_bytes(&mut data);

    let result = fips_suite(&data);
    assert!(result.monobit_passed, "monobit: {}", result.ones);
    assert!(result.poker_passed, "poker: {}", result.poker_square_sum);
    assert!(result.runs_passed, "runs: {:?}", result.runs);
    assert!(result.long_runs_passed, "long runs: {}", result.runs.longest);
    assert!(result.all_passed());
}

#[test]
fn fips_on_keyed_stream_from_fixed_key_passes() {
    let out = mixrand::csprng::generate([0x5a; 32], 2500);
    let mut data = [0u8; 2500];
    data.copy_from_slice(&out);
    let result = fips_suite(&data);
    assert!(result.all_passed());
}

#[test]
fn long_run_of_26_fails_and_25_passes() {
    let mut data = [0xAAu8; 2500];
    // 0xAA ends in a 0 bit; three zero bytes then 0x7F give a 0-run of 1 + 24 + 1 = 26.
    data[10] = 0;
    data[11] = 0;
    data[12] = 0;
    data[13] = 0x7F;
    let result = fips_suite(&data);
    assert_eq!(result.runs.longest, 26);
    assert!(!result.long_runs_passed);
    data[13] = 0xFF;
    data[9] = 0xAB;
    let result = fips_suite(&data);
    assert_eq!(result.runs.longest, 24);
    assert!(result.long_runs_passed);
}

#[test]
fn byte_histogram_counts_each_value() {
    let freq = byte_frequencies(&[1, 2, 2, 255, 2]);
    assert_eq!(freq[1], 1);
    assert_eq!(freq[2], 3);
    assert_eq!(freq[255], 1);
    assert_eq!(freq[0], 0);
    assert_eq!(freq.iter().sum::<u64>(), 5);
}
