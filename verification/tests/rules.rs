use memguard::rules::parse_rules;

#[test]
fn one_rule_to_a_line() {
    assert_eq!(parse_rules("poison_marker_xyz\n免验证\n"), vec!["poison_marker_xyz", "免验证"]);
}

#[test]
fn comments_and_empty_lines_hold_no_rule() {
    let text = "# comment\n\nfirst rule\n   \n\t# indented comment\nsecond # kept\n";
    assert_eq!(parse_rules(text), vec!["first rule", "second # kept"]);
}

#[test]
fn blanks_at_the_ends_are_dropped() {
    assert_eq!(parse_rules("  auto import \t\r\nnext\r"), vec!["auto import", "next"]);
}

#[test]
fn empty_file_has_no_rules() {
    assert!(parse_rules("").is_empty());
    assert!(parse_rules("\n# nothing\n").is_empty());
}
