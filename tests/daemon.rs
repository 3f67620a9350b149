use mixrand::daemon::{
    build_rand_pool_info, daemon_credit, encode_pool_record, sleep_step, tick_action, TickAction,
};

#[test]
fn pool_record_for_three_bytes() {
    let rec = build_rand_pool_info(&[1, 2, 3], 8);
    if u32::from_ne_bytes([1, 0, 0, 0]) == 1 {
        assert_eq!(rec, vec![8, 0, 0, 0, 3, 0, 0, 0, 1, 2, 3, 0]);
    } else {
        assert_eq!(rec, vec![0, 0, 0, 8, 0, 0, 0, 3, 1, 2, 3, 0]);
    }
}

#[test]
fn pool_record_big_endian_layout_and_no_padding_when_aligned() {
    let rec = encode_pool_record(&[9, 9, 9, 9], 0x01020304, false);
    assert_eq!(rec, vec![1, 2, 3, 4, 0, 0, 0, 4, 9, 9, 9, 9]);
    let rec = encode_pool_record(&[], 0, true);
    assert_eq!(rec, vec![0; 8]);
}

#[test]
fn credit_is_batch_times_ratio() {
    assert_eq!(daemon_credit(64, 4).unwrap(), 256);
    assert!(daemon_credit(0, 4).unwrap_err().message().contains("batch-size must be greater than 0"));
    assert!(daemon_credit(64, 9).is_err());
    assert!(daemon_credit(usize::MAX, 8).is_err());
}

#[test]
fn tick_injects_only_below_threshold() {
    assert_eq!(tick_action(Some(100), 256), TickAction::Inject);
    assert_eq!(tick_action(Some(256), 256), TickAction::Sufficient);
    assert_eq!(tick_action(None, 256), TickAction::ReadFailed);
}

#[test]
fn sleep_is_chunked_and_stops_on_shutdown() {
    assert_eq!(sleep_step(5000, false), 250);
    assert_eq!(sleep_step(100, false), 100);
    assert_eq!(sleep_step(5000, true), 0);
}
