use rand_chacha::ChaCha20Rng;
use rand_core::{RngCore, SeedableRng};
use mixrand::csprng::generate;

#[test]
fn test_deterministic_same_seed() {
    let seed = [42u8; 32];
    let a = generate(seed, 64);
    let b = generate(seed, 64);
    assert_eq!(a, b);
}

#[test]
fn test_different_seeds_differ() {
    let a = generate([1u8; 32], 64);
    let b = generate([2u8; 32], 64);
    assert_ne!(a, b);
}

#[test]
fn test_correct_length() {
    for &size in &[0, 1, 16, 32, 64, 128, 1024] {
        let out = generate([0u8; 32], size);
        assert_eq!(out.len(), size);
    }
}

#[test]
fn expansion_is_prefix_consistent() {
    let seed = [7u8; 32];
    let short = generate(seed, 40);
    let long = generate(seed, 200);
    assert_eq!(&long[..40], &short[..]);
}

#[test]
fn expansion_matches_chacha20_stream() {
    let seed = [9u8; 32];
    let mut rng = ChaCha20Rng::from_seed(seed);
    let mut expected = vec![0u8; 100];
    rng.fill_bytes(&mut expected);
    let out = generate(seed, 100);
    assert_eq!(out, expected);
    assert_ne!(out, vec![0u8; 100]);
}
