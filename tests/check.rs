use mixrand::check::{
    candidate_sources, filter_sources, format_duration, parse_duration, same_ignoring_ascii_case,
    SourceKind,
};

#[test]
fn duration_units() {
    assert_eq!(parse_duration("30s").unwrap(), 30);
    assert_eq!(parse_duration("5m").unwrap(), 300);
    assert_eq!(parse_duration("2h").unwrap(), 7200);
    assert_eq!(parse_duration("1d").unwrap(), 86400);
    assert_eq!(parse_duration("90").unwrap(), 5400);
    assert_eq!(parse_duration("  1m ").unwrap(), 60);
    assert_eq!(parse_duration("\u{3000}5m\t\n").unwrap(), 300);
}

#[test]
fn duration_errors() {
    assert_eq!(parse_duration("").unwrap_err().message(), "invalid arguments: empty duration");
    assert_eq!(parse_duration("0s").unwrap_err().message(), "invalid arguments: duration must be > 0");
    assert_eq!(parse_duration("10x").unwrap_err().message(), "invalid arguments: invalid duration: 10x");
    assert!(parse_duration("s").is_err());
    assert!(parse_duration("99999999999999999999s").is_err());
    assert!(parse_duration("307445734561825861h").is_err());
}

#[test]
fn source_filter_is_case_insensitive_and_ignores_unknown_names() {
    let available = vec![SourceKind::Rdseed, SourceKind::Urandom, SourceKind::Fallback];
    let names = vec!["RdSeed".to_string(), "haveged".to_string()];
    assert_eq!(filter_sources(&available, &names), vec![SourceKind::Rdseed]);
}

#[test]
fn source_filter_keeps_available_order() {
    let available = candidate_sources();
    let names = vec!["FALLBACK".to_string(), "hwrng".to_string()];
    assert_eq!(filter_sources(&available, &names), vec![SourceKind::Hwrng, SourceKind::Fallback]);
    assert!(filter_sources(&available, &vec![]).is_empty());
}

#[test]
fn names_and_descriptions() {
    assert_eq!(SourceKind::Xstore.name(), "xstore");
    assert_eq!(SourceKind::Urandom.description(), "/dev/urandom");
    assert_eq!(candidate_sources().len(), 7);
    assert!(same_ignoring_ascii_case("HaVeGeD", "haveged"));
    assert!(!same_ignoring_ascii_case("haveged", "havege"));
}

#[test]
fn duration_formatting() {
    assert_eq!(format_duration(45), "45s");
    assert_eq!(format_duration(300), "5m");
    assert_eq!(format_duration(330), "5m 30s");
    assert_eq!(format_duration(7200), "2h");
    assert_eq!(format_duration(8100), "2h 15m");
}
