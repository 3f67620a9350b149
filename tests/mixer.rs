use blake2::digest::consts::U32;
use blake2::{Blake2b, Digest};
use mixrand::csprng::generate;
use mixrand::mixer::{mix_entropy, mix_message};

#[test]
fn test_deterministic() {
    let a = mix_entropy(&[("label", &b"data"[..])]);
    let b = mix_entropy(&[("label", &b"data"[..])]);
    assert_eq!(a, b);
}

#[test]
fn test_different_inputs_differ() {
    let a = mix_entropy(&[("label", &b"data1"[..])]);
    let b = mix_entropy(&[("label", &b"data2"[..])]);
    assert_ne!(a, b);
}

#[test]
fn test_domain_separation() {
    let a = mix_entropy(&[("label-a", &b"same"[..])]);
    let b = mix_entropy(&[("label-b", &b"same"[..])]);
    assert_ne!(a, b);
}

#[test]
fn test_empty_inputs() {
    let result = mix_entropy(&[]);
    assert_eq!(result.len(), 32);
    // Should not panic and should produce a valid hash
}

#[test]
fn test_input_order_matters() {
    let a = mix_entropy(&[("x", &b"1"[..]), ("y", &b"2"[..])]);
    let b = mix_entropy(&[("y", &b"2"[..]), ("x", &b"1"[..])]);
    assert_ne!(a, b);
}

#[test]
fn message_layout_is_tag_then_length_prefixed_fields() {
    let msg = mix_message(&[("ab", &[7u8, 8, 9][..])]);
    let mut expected = b"mixrand-entropy-v1".to_vec();
    expected.extend_from_slice(&2u64.to_le_bytes());
    expected.extend_from_slice(b"ab");
    expected.extend_from_slice(&3u64.to_le_bytes());
    expected.extend_from_slice(&[7, 8, 9]);
    assert_eq!(msg, expected);
}

#[test]
fn seed_is_blake2b_256_of_message() {
    let inputs: [(&str, &[u8]); 2] = [("urandom", &[0u8; 32]), ("jitter", &[1u8; 512])];
    let expected: [u8; 32] = Blake2b::<U32>::digest(mix_message(&inputs)).into();
    assert_eq!(mix_entropy(&inputs), expected);
}

#[test]
fn empty_list_hashes_the_tag_alone() {
    let expected: [u8; 32] = Blake2b::<U32>::digest(b"mixrand-entropy-v1").into();
    assert_eq!(mix_entropy(&[]), expected);
}

#[test]
fn deterministic_mix_then_expand() {
    let urandom = [0u8; 32];
    let jitter = [1u8; 512];
    let s1 = mix_entropy(&[("urandom", &urandom[..]), ("jitter", &jitter[..])]);
    let s2 = mix_entropy(&[("urandom", &urandom[..]), ("jitter", &jitter[..])]);
    assert_eq!(s1, s2);
    let out1 = generate(s1, 16);
    let out2 = generate(s2, 16);
    assert_eq!(out1.len(), 16);
    assert_eq!(out1, out2);
    let mut changed = jitter;
    changed[100] = 2;
    let s3 = mix_entropy(&[("urandom", &urandom[..]), ("jitter", &changed[..])]);
    assert_ne!(s1, s3);
    let out3 = generate(s3, 16);
    let differing = out1.iter().zip(out3.iter()).filter(|(a, b)| a != b).count();
    assert!(differing >= 12);
}

#[test]
fn swapping_adjacent_entries_changes_seed() {
    let a = mix_entropy(&[("p", &[1u8][..]), ("q", &[2u8][..]), ("r", &[3u8][..])]);
    let b = mix_entropy(&[("p", &[1u8][..]), ("r", &[3u8][..]), ("q", &[2u8][..])]);
    assert_ne!(a, b);
}
