use cli_utils::HelpDisplay;
use cli_utils::OptionEntry;

#[test]
fn entry_with_short_and_long_name() {
    let e = OptionEntry::new("v", "verbose", "LEVEL", "Set verbosity");
    let long_part = format!("--{:10} {}", "verbose", "LEVEL");
    let expected = format!("  {:4}{:27} {}", "-v,", long_part, "Set verbosity");
    assert_eq!(e.render(), expected);
}

#[test]
fn entry_with_long_name_only() {
    let e = OptionEntry::new("", "output", "FILE", "Output file");
    let long_part = format!("--{:10} {}", "output", "FILE");
    let expected = format!("  {:4}{:27} {}", "", long_part, "Output file");
    assert_eq!(e.render(), expected);
}

#[test]
fn entry_with_short_name_only() {
    let e = OptionEntry::new("h", "", "", "Show help");
    let long_part = format!("            {}", "");
    let expected = format!("  {:4}{:27} {}", "-h", long_part, "Show help");
    assert_eq!(e.render(), expected);
}

#[test]
fn help_display_lists_entries() {
    let mut h = HelpDisplay::new("tool [OPTIONS]", "Does tool things.");
    h.add_option(OptionEntry::new("v", "verbose", "LEVEL", "Set verbosity"));
    h.add_option(OptionEntry::new("h", "", "", "Show help"));

    let line1 = format!(
        "  {:4}{:27} {}",
        "-v,",
        format!("--{:10} {}", "verbose", "LEVEL"),
        "Set verbosity"
    );
    let line2 = format!("  {:4}{:27} {}", "-h", format!("            {}", ""), "Show help");
    let expected = format!(
        "Usage: {}\n{}\n\n{}\n{}\n\n",
        "tool [OPTIONS]", "Does tool things.", line1, line2
    );
    assert_eq!(h.render(), expected);
}

#[test]
fn help_display_without_entries() {
    let h = HelpDisplay::new("tool", "A tool.");
    assert_eq!(h.render(), "Usage: tool\nA tool.\n\n\n");
}
