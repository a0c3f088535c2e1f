use nexus::records::SymbolKind;
use nexus::records::SymbolRecord;
use nexus::scan::extract_symbols;
use nexus::scan::module_path_of;
use nexus::scan::parse_impl_target;
use nexus::scan::parse_public_symbol;
use nexus::str_chars;

fn chars(s: &str) -> Vec<char> {
    str_chars(s)
}

fn text(v: &Vec<char>) -> String {
    nexus::chars_to_string(v)
}

fn extract(module: &str, source: &str, content: &str) -> Vec<SymbolRecord> {
    extract_symbols(&chars(module), &chars(source), &chars(content))
}

#[test]
fn documented_function() {
    let recs = extract(
        "commands::demo",
        "src/commands/demo.rs",
        "/// Runs the demo.\npub fn run() {\n}\n",
    );
    assert_eq!(recs.len(), 1);
    assert!(matches!(recs[0].kind, SymbolKind::Fn));
    assert_eq!(text(&recs[0].name), "run");
    assert_eq!(text(&recs[0].signature), "pub fn run() {");
    assert_eq!(text(&recs[0].docs), "Runs the demo.");
    assert_eq!(text(&recs[0].symbol_path), "crate::commands::demo::run");
}

#[test]
fn undocumented_declaration_gets_placeholder() {
    let recs = extract("util", "src/util.rs", "pub struct Widget {\n    x: u32,\n}\n");
    assert_eq!(recs.len(), 1);
    assert_eq!(
        text(&recs[0].docs),
        "No additional documentation available yet."
    );
}

#[test]
fn doc_reset_by_intervening_code() {
    let recs = extract(
        "util",
        "src/util.rs",
        "/// A\nfn private_helper() {}\n/// B\npub fn f() {}\n",
    );
    assert_eq!(recs.len(), 1);
    assert_eq!(text(&recs[0].docs), "B");
}

#[test]
fn blank_line_keeps_pending_docs() {
    // A blank line is not "intervening content" to the scanner: both
    // blocks attach.
    let recs = extract("util", "src/util.rs", "/// A\n\n/// B\npub fn f() {}\n");
    assert_eq!(recs.len(), 1);
    assert_eq!(text(&recs[0].docs), "A\nB");
}

#[test]
fn function_in_impl_block_is_qualified() {
    let content = "pub struct Widget;\nimpl Widget {\n    /// Make one.\n    pub fn new() {}\n}\npub fn free() {}\n";
    let recs = extract("util", "src/util.rs", content);
    assert_eq!(recs.len(), 3);
    assert_eq!(text(&recs[0].symbol_path), "crate::util::Widget");
    assert_eq!(text(&recs[1].symbol_path), "crate::util::Widget::new");
    assert_eq!(text(&recs[2].symbol_path), "crate::util::free");
}

#[test]
fn trait_impl_uses_for_clause_target() {
    let content = "impl Display for Widget {\n    pub fn fmt() {}\n}\n";
    let recs = extract("util", "src/util.rs", content);
    assert_eq!(recs.len(), 1);
    assert_eq!(text(&recs[0].symbol_path), "crate::util::Widget::fmt");
}

#[test]
fn module_docs_make_module_record() {
    let recs = extract(
        "commands::demo",
        "src/commands/demo.rs",
        "//! Demo helpers.\n//! More text.\n",
    );
    assert_eq!(recs.len(), 1);
    assert!(matches!(recs[0].kind, SymbolKind::Module));
    assert_eq!(text(&recs[0].name), "demo");
    assert_eq!(text(&recs[0].signature), "mod commands_demo");
    assert_eq!(text(&recs[0].docs), "Demo helpers.\nMore text.");
    assert_eq!(text(&recs[0].symbol_path), "crate::commands::demo");
}

#[test]
fn impl_target_parsing() {
    let cases = [
        ("impl Widget {", Some("Widget")),
        ("impl Display for Widget {", Some("Widget")),
        ("impl<T> Wrapper<T> {", Some("Wrapper_T")),
        ("impl<T: Clone> From<T> for Box<T> {", Some("Box_T")),
        ("fn impl_detail() {}", None),
        ("pub fn f() {}", None),
    ];
    for (line, want) in cases {
        let got = parse_impl_target(&chars(line));
        match want {
            Some(w) => assert_eq!(text(&got.expect(line)), w),
            None => assert!(got.is_none(), "{line}"),
        }
    }
}

#[test]
fn public_symbol_parsing() {
    let got = parse_public_symbol(&chars("  pub struct Point3D<T> {")).unwrap();
    assert!(matches!(got.0, SymbolKind::Struct));
    assert_eq!(text(&got.1), "Point3D");
    assert_eq!(text(&got.2), "pub struct Point3D<T> {");

    assert!(parse_public_symbol(&chars("struct Hidden {")).is_none());
    assert!(parse_public_symbol(&chars("pub fn )( {")).is_none());
    let e = parse_public_symbol(&chars("pub enum Mode { A, B }")).unwrap();
    assert!(matches!(e.0, SymbolKind::Enum));
    let t = parse_public_symbol(&chars("pub trait Runner {")).unwrap();
    assert!(matches!(t.0, SymbolKind::Trait));
}

#[test]
fn module_path_derivation() {
    let cases = [
        ("commands/context.rs", "commands::context"),
        ("commands/mod.rs", "commands"),
        ("lib.rs", "crate_root"),
        ("main.rs", "crate_root"),
        ("bin/nexus.rs", "bin::nexus"),
        ("exchange/feed.rs", "exchange::feed"),
    ];
    for (rel, want) in cases {
        assert_eq!(text(&module_path_of(&chars(rel))), want, "{rel}");
    }
}

#[test]
fn braces_in_doc_comments_still_count() {
    // The scanner counts braces even inside doc comment lines: the
    // heuristic has no notion of literals.
    let content = "impl Widget {\n    /// closes } early\n    pub fn f() {}\n}\n";
    let recs = extract("util", "src/util.rs", content);
    assert_eq!(recs.len(), 1);
    // The doc line's closing brace popped the context before `f`.
    assert_eq!(text(&recs[0].symbol_path), "crate::util::f");
}
