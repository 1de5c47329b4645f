use libafl_core::number::{parse_seconds, parse_unsigned};
use libafl_core::options::{
    parse_option, ArtifactPrefix, LibfuzzerMode, LibfuzzerOptions, OptionsParseError, RawOption,
};

fn parse(args: &[&str]) -> Result<LibfuzzerOptions, OptionsParseError> {
    let args: Vec<String> = args.iter().map(|s| s.to_string()).collect();
    LibfuzzerOptions::new(&args, None, "/work".to_string())
}

#[test]
fn defaults_when_no_flag_is_given() {
    let o = parse(&["fuzzer"]).unwrap();
    assert_eq!(o.fuzzer_name(), "fuzzer");
    assert_eq!(*o.mode(), LibfuzzerMode::Fuzz);
    assert_eq!(o.timeout(), std::time::Duration::from_secs(1200));
    assert_eq!(o.grimoire(), None);
    assert!(!o.use_value_profile());
    assert!(o.unicode());
    assert_eq!(o.forks(), None);
    assert!(o.dict().is_none());
    assert!(o.dirs().is_empty());
    assert!(!o.ignore_crashes() && !o.ignore_timeouts() && !o.ignore_ooms());
    assert_eq!(o.rss_limit(), 2 << 30);
    assert_eq!(o.malloc_limit(), 2 << 30);
    assert!(!o.dedup() && !o.shrink() && !o.skip_tracing() && !o.tui());
    assert_eq!(o.runs(), 0);
    assert_eq!(o.close_fd_mask(), 0);
    assert!(o.unknown().is_empty());
    assert_eq!(o.artifact_prefix().dir(), "/work");
    assert_eq!(o.artifact_prefix().filename_prefix(), "");
    assert!(!o.help_requested());
}

#[test]
fn flags_and_directories_are_read() {
    let o = parse(&[
        "fuzzer",
        "-merge=1",
        "-grimoire=1",
        "-timeout=2.5",
        "-fork=4",
        "-rss_limit_mb=0",
        "-malloc_limit_mb=16",
        "-runs=+12",
        "-close_fd_mask=3",
        "-dict=tokens.dict",
        "-artifact_prefix=out/crash-",
        "corpus",
        "--passed-through",
        "-novalue",
        "-unknown_flag=1",
    ])
    .unwrap();
    assert_eq!(*o.mode(), LibfuzzerMode::Merge);
    assert_eq!(o.grimoire(), Some(true));
    assert_eq!(o.timeout(), std::time::Duration::from_millis(2500));
    assert_eq!(o.timeout_parts(), (2, 500_000_000));
    assert_eq!(o.forks(), Some(4));
    assert_eq!(o.rss_limit(), usize::MAX);
    assert_eq!(o.malloc_limit(), 16 << 20);
    assert_eq!(o.runs(), 12);
    assert_eq!(o.close_fd_mask(), 3);
    assert_eq!(o.dict().map(|s| s.as_str()), Some("tokens.dict"));
    assert_eq!(o.artifact_prefix().dir(), "out");
    assert_eq!(o.artifact_prefix().filename_prefix(), "crash-");
    assert_eq!(o.dirs(), &vec!["corpus".to_string()]);
    assert_eq!(
        o.unknown(),
        &vec!["--passed-through".to_string(), "-novalue".to_string(), "-unknown_flag=1".to_string()]
    );
}

#[test]
fn malloc_limit_follows_rss_limit() {
    let o = parse(&["fuzzer", "-rss_limit_mb=4"]).unwrap();
    assert_eq!(o.rss_limit(), 4 << 20);
    assert_eq!(o.malloc_limit(), 4 << 20);
}

#[test]
fn tui_ignores_failures_unless_set() {
    let o = parse(&["fuzzer", "-ignore_ooms=0", "-tui=1"]).unwrap();
    assert!(o.tui());
    assert!(o.ignore_crashes());
    assert!(o.ignore_timeouts());
    assert!(!o.ignore_ooms());
}

#[test]
fn two_modes_are_refused() {
    match parse(&["fuzzer", "-merge=1", "-report=1"]) {
        Err(OptionsParseError::MultipleModesSelected) => {}
        other => panic!("unexpected {other:?}"),
    }
    let same = parse(&["fuzzer", "-report=1", "-report=2", "-merge=0"]).unwrap();
    assert_eq!(*same.mode(), LibfuzzerMode::Report);
    let tmin = parse(&["fuzzer", "-minimize_crash=1"]).unwrap();
    assert_eq!(*tmin.mode(), LibfuzzerMode::Tmin);
}

#[test]
fn bad_values_are_refused() {
    match parse(&["fuzzer", "-runs=ten"]) {
        Err(e @ OptionsParseError::OptionValueParseFailed(..)) => {
            assert_eq!(e.to_string(), "couldn't parse value `ten' for runs");
        }
        other => panic!("unexpected {other:?}"),
    }
    assert!(parse(&["fuzzer", "-close_fd_mask=256"]).is_err());
    assert!(parse(&["fuzzer", "-timeout=-1"]).is_err());
    assert_eq!(OptionsParseError::MultipleModesSelected.to_string(), "multiple modes selected in options");
}

#[test]
fn remaining_arguments_can_be_ignored() {
    let o = parse(&["fuzzer", "-ignore_remaining_args=1", "-runs=bad", "dir"]).unwrap();
    assert!(o.dirs().is_empty());
    assert_eq!(o.runs(), 0);
    let h = parse(&["fuzzer", "-help=1", "-runs=bad"]).unwrap();
    assert!(h.help_requested());
}

#[test]
fn executable_name_wins() {
    let args = vec!["argv0".to_string()];
    let o = LibfuzzerOptions::new(&args, Some("exe".to_string()), "/".to_string()).unwrap();
    assert_eq!(o.fuzzer_name(), "exe");
}

#[test]
fn raw_options_are_classified() {
    assert!(parse_option("--x=1").is_none());
    assert!(parse_option("-x").is_none());
    assert!(matches!(parse_option("dir"), Some(RawOption::Directory(d)) if d == "dir"));
    match parse_option("-a=b=c") {
        Some(RawOption::Flag { name, value }) => {
            assert_eq!(name, "a");
            assert_eq!(value, "b=c");
        }
        _ => panic!("flag expected"),
    }
}

#[test]
fn artifact_prefix_splits_paths() {
    let p = ArtifactPrefix::new("dir/sub/");
    assert_eq!(p.dir(), "dir/sub/");
    assert_eq!(p.filename_prefix(), "");
    let q = ArtifactPrefix::new("crash-");
    assert_eq!(q.dir(), "");
    assert_eq!(q.filename_prefix(), "crash-");
}

#[test]
fn numbers_parse_like_std() {
    assert_eq!(parse_unsigned("+42", u64::MAX), Some(42));
    assert_eq!(parse_unsigned("", u64::MAX), None);
    assert_eq!(parse_unsigned("+", u64::MAX), None);
    assert_eq!(parse_unsigned("18446744073709551615", u64::MAX), Some(u64::MAX));
    assert_eq!(parse_unsigned("18446744073709551616", u64::MAX), None);
    assert_eq!(parse_unsigned("255", 255), Some(255));
    assert_eq!(parse_unsigned("256", 255), None);
    assert_eq!(parse_seconds("1.5"), Some((1, 500_000_000)));
    assert_eq!(parse_seconds(".25"), Some((0, 250_000_000)));
    assert_eq!(parse_seconds("3."), Some((3, 0)));
    assert_eq!(parse_seconds("0.1234567891"), Some((0, 123_456_789)));
    assert_eq!(parse_seconds("."), None);
    assert_eq!(parse_seconds("1e3"), None);
}
