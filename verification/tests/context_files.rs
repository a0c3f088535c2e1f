use nexus::fuzzy::parse_context_filename;
use nexus::fuzzy::parse_context_summary;
use nexus::fuzzy::parse_next_actions;
use nexus::setup::parse_allowlist;

#[test]
fn test_parse_context_filename() {
    assert_eq!(
        parse_context_filename("CLI_001-baseline-cli.md"),
        Some(("CLI_001".to_string(), "baseline-cli".to_string()))
    );
    assert_eq!(
        parse_context_filename("SRV_015-auth-flow.md"),
        Some(("SRV_015".to_string(), "auth-flow".to_string()))
    );
    assert_eq!(parse_context_filename("index.md"), None);
    assert_eq!(parse_context_filename("readme.md"), None);
}

#[test]
fn filename_needs_markdown_extension_and_underscore() {
    assert_eq!(parse_context_filename("CLI_001-title.txt"), None);
    assert_eq!(parse_context_filename("CLI001-title.md"), None);
}

#[test]
fn actions_table_is_parsed() {
    let content = "\
# CLI_001: Baseline

## Next Actions

| Test | Description | Outcome |
|------|-------------|---------|
| t_one | does the first thing | ok |
| t_two | does the second thing | ok |

## Notes

| not | a table row |
";
    let actions = parse_next_actions(content);
    assert_eq!(
        actions,
        vec![
            ("t_one".to_string(), "does the first thing".to_string()),
            ("t_two".to_string(), "does the second thing".to_string()),
        ]
    );
}

#[test]
fn actions_need_a_header_row_first() {
    let content = "## Next Actions\n| t_one | does something |\n";
    assert!(parse_next_actions(content).is_empty());
}

#[test]
fn shorter_cell_is_the_test_name() {
    let content = "\
## Next actions
| Description | Test |
| a very long description of it | t_x |
";
    let actions = parse_next_actions(content);
    assert_eq!(
        actions,
        vec![("t_x".to_string(), "a very long description of it".to_string())]
    );
}

#[test]
fn context_summary_from_frontmatter() {
    let content = "\
---
context_id: CLI_007
title: Polished prompt
project: shell
---

Body text.
";
    let s = parse_context_summary(content, "CLI_000");
    assert_eq!(s.id, "CLI_007");
    assert_eq!(s.title, "Polished prompt");
    assert_eq!(s.project, "shell");
    assert_eq!(s.status, "pending");
}

#[test]
fn context_summary_falls_back_to_heading() {
    let content = "# CLI_003: From the heading\nrest\n";
    let s = parse_context_summary(content, "CLI_003");
    assert_eq!(s.id, "CLI_003");
    assert_eq!(s.title, "From the heading");
    assert_eq!(s.project, "unknown");
}

#[test]
fn allowlist_entries() {
    let content = "# comment\n\n alpha \nbeta\n";
    assert_eq!(parse_allowlist(content), vec!["alpha".to_string(), "beta".to_string()]);
}

#[test]
fn allowlist_default_when_empty() {
    assert_eq!(parse_allowlist("# only comments\n\n"), vec!["fumadocs".to_string()]);
    assert_eq!(parse_allowlist(""), vec!["fumadocs".to_string()]);
}
