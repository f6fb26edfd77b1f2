use cli_utils::Arguments;
use cli_utils::ErrorLevel;

fn strs(items: &[&str]) -> Vec<String> {
    items.iter().map(|s| s.to_string()).collect()
}

fn lookup<'a>(a: &'a Arguments, key: &str) -> Option<&'a Vec<String>> {
    a.values.iter().rev().find(|(k, _)| k == key).map(|(_, v)| v)
}

#[test]
fn all_naked_values() {
    let a = Arguments::new(strs(&["a", "b", "c"]));
    assert!(a.args.is_empty());
    assert_eq!(a.naked_values, strs(&["a", "b", "c"]));
    assert_eq!(a.values.len(), 1);
    assert_eq!(lookup(&a, ""), Some(&strs(&["a", "b", "c"])));
}

#[test]
fn empty_input() {
    let a = Arguments::new(Vec::new());
    assert!(a.args.is_empty());
    assert!(a.values.is_empty());
    assert!(a.naked_values.is_empty());
}

#[test]
fn empty_string_is_naked() {
    let a = Arguments::new(strs(&[""]));
    assert!(a.args.is_empty());
    assert_eq!(a.naked_values, strs(&[""]));
    assert_eq!(lookup(&a, ""), Some(&strs(&[""])));
}

#[test]
fn mixed_options_and_values() {
    let a = Arguments::new(strs(&["--foo", "a", "b", "-x", "c"]));
    assert_eq!(a.args, strs(&["--foo", "-x"]));
    assert_eq!(lookup(&a, "--foo"), Some(&strs(&["a", "b"])));
    assert_eq!(lookup(&a, "-x"), Some(&strs(&["c"])));
    assert_eq!(a.naked_values, strs(&["a", "b", "c"]));
}

#[test]
fn bundled_short_options() {
    let a = Arguments::new(strs(&["-abc"]));
    assert_eq!(a.args, strs(&["-a", "-b", "-c"]));
    assert!(a.values.is_empty());
    assert!(a.naked_values.is_empty());
}

#[test]
fn bundled_values_go_to_last_option() {
    let a = Arguments::new(strs(&["-abc", "v", "w"]));
    assert_eq!(a.args, strs(&["-a", "-b", "-c"]));
    assert_eq!(lookup(&a, "-c"), Some(&strs(&["v", "w"])));
    assert_eq!(lookup(&a, "-a"), None);
    assert_eq!(lookup(&a, "-b"), None);
    assert_eq!(a.naked_values, strs(&["v", "w"]));
}

#[test]
fn double_dash_is_an_option_token() {
    let a = Arguments::new(strs(&["--", "x"]));
    assert_eq!(a.args, strs(&["--"]));
    assert_eq!(lookup(&a, "--"), Some(&strs(&["x"])));
}

#[test]
fn lone_dash_flushes_but_adds_no_option() {
    let a = Arguments::new(strs(&["-x", "a", "-", "b"]));
    assert_eq!(a.args, strs(&["-x"]));
    // the lone dash committed ["a"] under -x, and the trailing flush then
    // overrode that entry with ["b"], the cursor never having moved
    assert_eq!(lookup(&a, "-x"), Some(&strs(&["b"])));
    assert_eq!(a.naked_values, strs(&["a", "b"]));
}

#[test]
fn repeated_option_keeps_last_run() {
    let a = Arguments::new(strs(&["--a", "v1", "--a", "v2"]));
    assert_eq!(a.args, strs(&["--a", "--a"]));
    assert_eq!(lookup(&a, "--a"), Some(&strs(&["v2"])));
    assert_eq!(a.naked_values, strs(&["v1", "v2"]));
}

#[test]
fn check_arg_tracks_options_only() {
    let a = Arguments::new(strs(&["--flag", "--with", "v"]));
    assert!(a.check_arg("--flag"));
    assert!(a.check_arg("--with"));
    assert!(!a.check_arg("--other"));
    assert!(!a.check_arg("v"));
}

#[test]
fn get_single_first_value() {
    let a = Arguments::new(strs(&["--with", "v1", "v2", "--flag"]));
    assert_eq!(a.get_single("--with"), Some("v1".to_string()));
    // present option with zero naked values
    assert!(a.check_arg("--flag"));
    assert_eq!(a.get_single("--flag"), None);
    // absent option
    assert_eq!(a.get_single("--other"), None);
}

#[test]
fn get_passed_parses_first_value() {
    let a = Arguments::new(strs(&["--n", "42", "--bad", "xyz", "--none"]));
    assert_eq!(a.get_passed::<i32>("--n"), Some(42));
    assert_eq!(a.get_passed::<i32>("--bad"), None);
    assert_eq!(a.get_passed::<i32>("--none"), None);
    assert_eq!(a.get_passed::<i32>("--absent"), None);
}

#[test]
fn get_passed_checked_distinguishes_failures() {
    let a = Arguments::new(strs(&["--n", "42", "--bad", "xyz", "--none"]));

    let ok = a.get_passed_checked::<i32>("--n");
    assert_eq!(ok.unwrap(), 42);

    let absent = a.get_passed_checked::<i32>("--absent").unwrap_err();
    assert_eq!(absent.error, "No '--absent' option passed");
    assert_eq!(absent.error_code, 1);
    assert!(matches!(absent.error_level, ErrorLevel::Error));
    assert!(!absent.reported);

    let no_value = a.get_passed_checked::<i32>("--none").unwrap_err();
    assert_eq!(no_value.error, "No argument passed to '--none'");
    assert_eq!(no_value.error_code, 1);
    assert!(matches!(no_value.error_level, ErrorLevel::Error));

    let bad = a.get_passed_checked::<i32>("--bad").unwrap_err();
    assert_eq!(bad.error, "Cannot parse argument to '--bad'");
    assert_eq!(bad.error_code, 1);
    assert!(matches!(bad.error_level, ErrorLevel::Error));
}

#[test]
fn checked_of_parsed_matches_parse_outcome() {
    let ok = cli_utils::args::checked_of_parsed::<i32>("--n", Some(7));
    assert_eq!(ok.unwrap(), 7);
    let bad = cli_utils::args::checked_of_parsed::<i32>("--n", None);
    let e = bad.unwrap_err();
    assert_eq!(e.error, "Cannot parse argument to '--n'");
    assert_eq!(e.error_code, 1);
    assert!(matches!(e.error_level, ErrorLevel::Error));
}
