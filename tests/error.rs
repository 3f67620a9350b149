use mixrand::error::Error;

#[test]
fn test_display_io() {
    let err = Error::Io("gone".to_string());
    let msg = err.message();
    assert!(msg.contains("I/O error"));
    assert!(msg.contains("gone"));
}

#[test]
fn test_display_no_entropy() {
    let err = Error::NoEntropy("pool empty".into());
    let msg = err.message();
    assert!(msg.contains("entropy error"));
    assert!(msg.contains("pool empty"));
}

#[test]
fn test_display_invalid_args() {
    let err = Error::InvalidArgs("bad value".into());
    let msg = err.message();
    assert!(msg.contains("invalid arguments"));
    assert!(msg.contains("bad value"));
}
