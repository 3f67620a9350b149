use mixrand::config::CpuRngConfig;
use mixrand::cpurng::{CpuRngResult};
use mixrand::csprng::generate;
use mixrand::entropy::{first_stage, generate as select, Attempt, Stage, Step};
use mixrand::error::Error;
use mixrand::fallback::{mix_fallback, FallbackInputs};
use mixrand::jitter::JitterState;
use mixrand::mixer::mix_entropy;

#[test]
fn selection_order_and_labels() {
    let config = CpuRngConfig::default();
    assert_eq!(first_stage(), Stage::HwRng);
    match select(&config, Attempt::HwRng(Err(Error::NoEntropy("x".into())))) {
        Step::Next(s) => assert_eq!(s, Stage::CpuRng),
        _ => panic!("expected the CPU stage"),
    }
    match select(&config, Attempt::CpuRng(Ok(CpuRngResult { bytes: vec![1], source_label: "RDSEED" }))) {
        Step::Done(r) => {
            assert_eq!(r.bytes, vec![1]);
            assert_eq!(r.source, "CPU hardware RNG (RDSEED, 2x oversample)");
        },
        _ => panic!("expected a result"),
    }
    let one = CpuRngConfig { oversample: 1, ..Default::default() };
    match select(&one, Attempt::CpuRng(Ok(CpuRngResult { bytes: vec![1], source_label: "RDRAND" }))) {
        Step::Done(r) => assert_eq!(r.source, "CPU hardware RNG (RDRAND)"),
        _ => panic!("expected a result"),
    }
    match select(&config, Attempt::Haveged(Err(Error::NoEntropy("x".into())))) {
        Step::Next(s) => assert_eq!(s, Stage::Fallback),
        _ => panic!("expected the fallback stage"),
    }
    match select(&config, Attempt::Fallback(Err(Error::Io("no urandom".into())))) {
        Step::Failed(e) => assert_eq!(e.message(), "I/O error: no urandom"),
        _ => panic!("expected failure"),
    }
}

#[test]
fn fallback_mixes_six_labelled_inputs_and_zeroizes_them() {
    let mut inputs = FallbackInputs {
        urandom: vec![3; 32],
        interrupts: b"irq".to_vec(),
        stat: vec![],
        diskstats: b"sda".to_vec(),
        jitter: vec![5; 512],
        cpu: vec![7; 32],
    };
    let seed = mix_entropy(&[
        ("urandom", &inputs.urandom[..]),
        ("interrupts", &inputs.interrupts[..]),
        ("stat", &inputs.stat[..]),
        ("diskstats", &inputs.diskstats[..]),
        ("jitter", &inputs.jitter[..]),
        ("cpu-rng", &inputs.cpu[..]),
    ]);
    let out = mix_fallback(48, &mut inputs);
    assert_eq!(out, generate(seed, 48));
    assert!(inputs.urandom.iter().all(|&b| b == 0));
    assert!(inputs.interrupts.iter().all(|&b| b == 0));
    assert!(inputs.diskstats.iter().all(|&b| b == 0));
    assert!(inputs.jitter.iter().all(|&b| b == 0));
    assert!(inputs.cpu.iter().all(|&b| b == 0));
    assert_eq!(inputs.jitter.len(), 512);
}

#[test]
fn jitter_records_little_endian_timestamps() {
    let mut state = JitterState::new(2);
    assert_eq!(state.spin_count(), 1000);
    let _ = state.spin();
    state.record(0x0102030405060708);
    assert_eq!(state.samples, vec![8, 7, 6, 5, 4, 3, 2, 1]);
    assert_eq!(state.spin_count(), 1000 + 0x108);
    state.record(u64::MAX);
    assert_eq!(state.accumulator, 0xFEFDFCFBFAF9F8F7);
    state.record(0xFEFDFCFBFAF9F8F7);
    assert_eq!(state.accumulator, 0);
    assert_eq!(state.taken, 3);
    assert_eq!(state.samples.len(), 24);
}
