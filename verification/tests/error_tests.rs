use cli_utils::CliError;
use cli_utils::ErrorLevel;

#[test]
fn new_starts_unreported() {
    let e = CliError::new("boom", 3, ErrorLevel::Error);
    assert_eq!(e.error, "boom");
    assert_eq!(e.error_code, 3);
    assert!(matches!(e.error_level, ErrorLevel::Error));
    assert!(!e.reported);
}

#[test]
fn warn_and_error_factories() {
    let w: Result<(), CliError> = CliError::warn("careful", 4);
    let we = w.unwrap_err();
    assert_eq!(we.error, "careful");
    assert_eq!(we.error_code, 4);
    assert!(matches!(we.error_level, ErrorLevel::Warning));
    assert!(!we.reported);

    let f: Result<(), CliError> = CliError::error("broken", 5);
    let fe = f.unwrap_err();
    assert_eq!(fe.error, "broken");
    assert_eq!(fe.error_code, 5);
    assert!(matches!(fe.error_level, ErrorLevel::Error));
    assert!(!fe.reported);
}

#[test]
fn fatal_handle_twice_fails_twice_and_reports_once() {
    let mut e = CliError::new("boom", 2, ErrorLevel::Error);
    let first = e.handle();
    assert!(first.is_err());
    assert!(e.reported);
    let carried = first.unwrap_err();
    assert_eq!(carried.error, "boom");
    assert_eq!(carried.error_code, 2);
    assert!(carried.reported);
    // the second call finds the flag set, so it does not display again
    let second = e.handle();
    assert!(second.is_err());
    assert!(e.reported);
}

#[test]
fn warning_handle_twice_succeeds_twice() {
    let mut e = CliError::new("odd", 2, ErrorLevel::Warning);
    assert!(e.handle().is_ok());
    // the warning branch never sets the flag, so it displays again
    assert!(!e.reported);
    assert!(e.handle().is_ok());
    assert!(!e.reported);
}

#[test]
fn dismiss_by_code_matches_exactly() {
    let e = CliError::new("boom", 7, ErrorLevel::Error);
    assert!(e.dismiss_by_code(7).is_ok());
    let kept = e.dismiss_by_code(8).unwrap_err();
    assert_eq!(kept.error, "boom");
    assert_eq!(kept.error_code, 7);
}

#[test]
fn dismiss_by_codes_checks_membership() {
    let e = CliError::new("boom", 7, ErrorLevel::Error);
    assert!(e.dismiss_by_codes(vec![1, 7, 9]).is_ok());
    assert!(e.dismiss_by_codes(vec![1, 2, 3]).is_err());
    assert!(e.dismiss_by_codes(Vec::new()).is_err());
}

#[test]
fn dismiss_always_succeeds() {
    let e = CliError::new("boom", 7, ErrorLevel::Warning);
    assert!(e.dismiss().is_ok());
}

#[test]
fn clone_copies_every_field() {
    let e = CliError::new("boom", 7, ErrorLevel::Error);
    let c = e.clone();
    assert_eq!(c.error, e.error);
    assert_eq!(c.error_code, e.error_code);
    assert!(matches!(c.error_level, ErrorLevel::Error));
    assert_eq!(c.reported, e.reported);
}
