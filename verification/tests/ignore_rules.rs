use wots::ignore::{get_ignore_files, read_rules, IgnoreError};

fn strings(items: &[&str]) -> Vec<String> {
    items.iter().map(|s| s.to_string()).collect()
}

#[test]
fn no_tool_ignore_file_is_a_configuration_error() {
    assert_eq!(get_ignore_files(None, None, None), Err(IgnoreError::MissingIgnoreConfig));
    assert_eq!(
        get_ignore_files(Some("target\n"), None, None),
        Err(IgnoreError::MissingIgnoreConfig)
    );
}

#[test]
fn empty_tool_file_gives_only_the_implicit_rule() {
    assert_eq!(get_ignore_files(None, Some(""), None), Ok(strings(&[".wots-ignore"])));
}

#[test]
fn local_tool_file_takes_precedence_over_global() {
    assert_eq!(
        get_ignore_files(None, Some("local\n"), Some("global\n")),
        Ok(strings(&["local", ".wots-ignore"]))
    );
}

#[test]
fn global_tool_file_is_the_fallback() {
    assert_eq!(
        get_ignore_files(None, None, Some("global\n")),
        Ok(strings(&["global", ".wots-ignore"]))
    );
}

#[test]
fn version_control_rules_come_first_and_the_implicit_rule_last() {
    assert_eq!(
        get_ignore_files(Some("target\n*.o\n"), Some("README\nLICENSE"), Some("unused")),
        Ok(strings(&["target", "*.o", "README", "LICENSE", ".wots-ignore"]))
    );
}

#[test]
fn blank_lines_are_skipped() {
    assert_eq!(
        get_ignore_files(Some("\n\na\n\n\nb\n\n"), Some("\n"), None),
        Ok(strings(&["a", "b", ".wots-ignore"]))
    );
}

#[test]
fn carriage_return_before_a_line_break_belongs_to_the_break() {
    let mut rules = Vec::new();
    read_rules("a\r\n\r\nb\r\nc\r", &mut rules);
    assert_eq!(rules, strings(&["a", "b", "c\r"]));
}

#[test]
fn read_rules_appends_to_what_is_there() {
    let mut rules = strings(&["first"]);
    read_rules("second\nthird", &mut rules);
    assert_eq!(rules, strings(&["first", "second", "third"]));
}

#[test]
fn lines_keep_inner_and_outer_spaces() {
    let mut rules = Vec::new();
    read_rules(" a b \n\tc", &mut rules);
    assert_eq!(rules, strings(&[" a b ", "\tc"]));
}

#[test]
fn non_ascii_lines_are_cut_at_characters() {
    let mut rules = Vec::new();
    read_rules("\u{e9}t\u{e9}\n\u{65e5}\u{672c}/\n", &mut rules);
    assert_eq!(rules, strings(&["\u{e9}t\u{e9}", "\u{65e5}\u{672c}/"]));
}
