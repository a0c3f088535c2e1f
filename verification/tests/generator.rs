use nexus::chars_to_string;
use nexus::difftree::diff_trees;
use nexus::difftree::to_sorted_map;
use nexus::pipeline::generate;
use nexus::pipeline::parse_mode;
use nexus::pipeline::Mode;
use nexus::pipeline::SourceFile;
use nexus::render::TreeFile;
use nexus::str_chars;

fn chars(s: &str) -> Vec<char> {
    str_chars(s)
}

fn text(v: &Vec<char>) -> String {
    chars_to_string(v)
}

fn source(rel: &str, content: &str) -> SourceFile {
    SourceFile { rel_path: chars(rel), content: chars(content) }
}

fn tree_file(path: &str, content: &str) -> TreeFile {
    TreeFile { path: chars(path), content: chars(content) }
}

fn demo_sources() -> Vec<SourceFile> {
    vec![
        source(
            "commands/demo.rs",
            "//! Demo command.\n/// Runs it.\npub fn run() {}\npub struct Options {\n}\n",
        ),
        source("exchange/feed.rs", "/// Streams quotes.\npub fn stream() {}\n"),
        source("util.rs", "/// Helper.\npub fn help() {}\n"),
    ]
}

#[test]
fn generator_is_deterministic() {
    let t1 = generate(&demo_sources());
    let t2 = generate(&demo_sources());
    assert_eq!(t1.len(), t2.len());
    for (a, b) in t1.iter().zip(t2.iter()) {
        assert_eq!(text(&a.path), text(&b.path));
        assert_eq!(text(&a.content), text(&b.content));
    }
}

#[test]
fn sync_then_check_reports_clean() {
    let published = to_sorted_map(generate(&demo_sources()));
    let fresh = to_sorted_map(generate(&demo_sources()));
    let diffs = diff_trees(&published, &fresh);
    assert!(diffs.is_empty());
}

#[test]
fn tree_layout_and_routing() {
    let tree = generate(&demo_sources());
    let paths: Vec<String> = tree.iter().map(|f| text(&f.path)).collect();
    assert!(paths.contains(&"core/index.mdx".to_string()));
    assert!(paths.contains(&"core/meta.json".to_string()));
    assert!(paths.contains(&"core/commands-demo--run.mdx".to_string()));
    assert!(paths.contains(&"core/commands-demo--options.mdx".to_string()));
    assert!(paths.contains(&"core/commands-demo--demo.mdx".to_string()));
    assert!(paths.contains(&"exchanges/exchange-feed--stream.mdx".to_string()));
    assert!(paths.contains(&"primitives/util--help.mdx".to_string()));
    assert!(paths.contains(&"index.mdx".to_string()));
    assert!(paths.contains(&"meta.json".to_string()));
}

#[test]
fn category_pages_follow_record_order() {
    let tree = generate(&demo_sources());
    let meta = tree
        .iter()
        .find(|f| text(&f.path) == "core/meta.json")
        .expect("core meta");
    // Records sort by module path first, then kind keyword, then name:
    // the module record (demo) renders under "fn" < "module" < "struct"
    // ordering of run/demo/Options within commands::demo.
    assert_eq!(
        text(&meta.content),
        "{\n  \"title\": \"Core\",\n  \"pages\": [\"index\", \"commands-demo--run\", \"commands-demo--demo\", \"commands-demo--options\"]\n}\n"
    );
}

#[test]
fn root_meta_lists_categories() {
    let tree = generate(&demo_sources());
    let meta = tree.iter().find(|f| text(&f.path) == "meta.json").expect("root meta");
    assert_eq!(
        text(&meta.content),
        "{\n  \"title\": \"Reference\",\n  \"pages\": [\"index\", \"core\", \"primitives\", \"exchanges\"]\n}\n"
    );
}

#[test]
fn diff_classifies_missing_stale_and_mismatch() {
    // The generator would produce a.mdx (unchanged) and b.mdx; the
    // published tree instead holds a.mdx and an extra c.mdx.
    let published = to_sorted_map(vec![tree_file("a.mdx", "same"), tree_file("c.mdx", "old")]);
    let fresh = to_sorted_map(vec![tree_file("a.mdx", "same"), tree_file("b.mdx", "X")]);
    let diffs = diff_trees(&published, &fresh);
    assert_eq!(
        diffs,
        vec![
            "missing generated file: b.mdx".to_string(),
            "stale file should be removed: c.mdx".to_string(),
        ]
    );
}

#[test]
fn diff_reports_content_mismatch() {
    let published = to_sorted_map(vec![tree_file("a.mdx", "one")]);
    let fresh = to_sorted_map(vec![tree_file("a.mdx", "two")]);
    let diffs = diff_trees(&published, &fresh);
    assert_eq!(diffs, vec!["content mismatch: a.mdx".to_string()]);
}

#[test]
fn later_writes_win_in_tree_map() {
    let m = to_sorted_map(vec![tree_file("x", "first"), tree_file("x", "second")]);
    assert_eq!(m.len(), 1);
    assert_eq!(text(&m[0].content), "second");
}

#[test]
fn page_bytes_exactly() {
    let tree = generate(&demo_sources());
    let page = tree
        .iter()
        .find(|f| text(&f.path) == "core/commands-demo--run.mdx")
        .expect("run page");
    let want = "---\n\
title: run\n\
description: Runs it.\n\
generated: true\n\
source_path: src/commands/demo.rs\n\
symbol_path: crate::commands::demo::run\n\
---\n\
\n\
## Signature\n\
\n\
```rust\n\
pub fn run() {}\n\
```\n\
\n\
## Documentation\n\
\n\
Runs it.\n\
\n\
## Related Items\n\
\n\
- [Options](./commands-demo--options)\n\
- [demo](./commands-demo--demo)\n";
    assert_eq!(text(&page.content), want);
}

#[test]
fn category_index_bytes_exactly() {
    let tree = generate(&demo_sources());
    let page = tree
        .iter()
        .find(|f| text(&f.path) == "exchanges/index.mdx")
        .expect("exchanges index");
    let want = "---\n\
title: Exchanges\n\
description: Generated exchanges reference\n\
generated: true\n\
---\n\
\n\
This section is generated from Rust doc comments.\n";
    assert_eq!(text(&page.content), want);
}

#[test]
fn empty_source_tree_still_renders_skeleton() {
    let tree = generate(&vec![]);
    let paths: Vec<String> = tree.iter().map(|f| text(&f.path)).collect();
    assert_eq!(
        paths,
        vec![
            "core/index.mdx",
            "core/meta.json",
            "primitives/index.mdx",
            "primitives/meta.json",
            "exchanges/index.mdx",
            "exchanges/meta.json",
            "index.mdx",
            "meta.json",
        ]
    );
    let meta = tree.iter().find(|f| text(&f.path) == "core/meta.json").unwrap();
    assert_eq!(
        text(&meta.content),
        "{\n  \"title\": \"Core\",\n  \"pages\": [\"index\"]\n}\n"
    );
}

#[test]
fn crlf_and_missing_final_newline_are_handled() {
    let tree1 = generate(&vec![source("util.rs", "/// Doc.\r\npub fn f() {}\r\n")]);
    let tree2 = generate(&vec![source("util.rs", "/// Doc.\npub fn f() {}")]);
    for (a, b) in tree1.iter().zip(tree2.iter()) {
        assert_eq!(text(&a.path), text(&b.path));
        assert_eq!(text(&a.content), text(&b.content));
    }
}

#[test]
fn mode_parsing() {
    assert_eq!(parse_mode(None), Ok(Mode::Sync));
    assert_eq!(parse_mode(Some(&chars("sync"))), Ok(Mode::Sync));
    assert_eq!(parse_mode(Some(&chars("check"))), Ok(Mode::Check));
    assert_eq!(
        parse_mode(Some(&chars("wipe"))),
        Err("unknown mode 'wipe'. use: docs-sync [sync|check]".to_string())
    );
}

#[test]
fn default_root_meta_content() {
    assert_eq!(
        nexus::pipeline::default_root_meta(),
        "{\n  \"title\": \"Documentation\",\n  \"pages\": [\"index\", \"reference\"]\n}\n"
    );
}
