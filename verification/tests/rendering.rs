use nexus::categorize::category_for_module;
use nexus::categorize::related_for;
use nexus::categorize::symbol_slug;
use nexus::categorize::title_case;
use nexus::chars_to_string;
use nexus::records::sort_records;
use nexus::records::SymbolKind;
use nexus::records::SymbolRecord;
use nexus::render::meta_json_content;
use nexus::render::normalize_newlines;
use nexus::render::render_symbol_page;
use nexus::str_chars;

fn chars(s: &str) -> Vec<char> {
    str_chars(s)
}

fn text(v: &Vec<char>) -> String {
    chars_to_string(v)
}

fn record(module: &str, kind: SymbolKind, name: &str, docs: &str) -> SymbolRecord {
    SymbolRecord {
        module: chars(module),
        kind,
        name: chars(name),
        signature: chars("pub fn sig()"),
        docs: chars(docs),
        source_path: chars("src/x.rs"),
        symbol_path: chars("crate::x"),
    }
}

#[test]
fn category_routing() {
    assert_eq!(text(&category_for_module(&chars("commands::context"))), "core");
    assert_eq!(text(&category_for_module(&chars("bin::nexus"))), "core");
    assert_eq!(text(&category_for_module(&chars("output"))), "primitives");
    assert_eq!(text(&category_for_module(&chars("feeds::exchange_api"))), "exchanges");
    // The exchange marker wins even where a core prefix also matches.
    assert_eq!(
        text(&category_for_module(&chars("commands::exchange"))),
        "exchanges"
    );
}

#[test]
fn slugs_are_lowercased_and_joined() {
    let r = record("commands::Demo", SymbolKind::Fn, "RunAll", "d");
    assert_eq!(text(&symbol_slug(&r)), "commands-demo--runall");
}

#[test]
fn title_case_breaks_on_dashes_and_underscores() {
    assert_eq!(text(&title_case(&chars("core"))), "Core");
    assert_eq!(text(&title_case(&chars("my-long_name"))), "My Long Name");
    assert_eq!(text(&title_case(&chars(""))), "");
}

#[test]
fn normalize_strips_trailing_whitespace_and_ends_with_newline() {
    assert_eq!(text(&normalize_newlines(&chars("a  \nb\t\nc"))), "a\nb\nc\n");
    assert_eq!(text(&normalize_newlines(&chars("a\n"))), "a\n");
    assert_eq!(text(&normalize_newlines(&chars(""))), "\n");
    assert_eq!(text(&normalize_newlines(&chars("x\r\ny  "))), "x\ny\n");
}

#[test]
fn meta_json_shape() {
    let pages = vec![chars("index"), chars("a--b")];
    let got = text(&meta_json_content(&chars("Core"), &pages));
    assert_eq!(
        got,
        "{\n  \"title\": \"Core\",\n  \"pages\": [\"index\", \"a--b\"]\n}\n"
    );
}

#[test]
fn symbol_page_content() {
    let r = record("util", SymbolKind::Struct, "Widget", "Makes things.\n\n```\nuse it\n```");
    let links = vec![];
    let page = text(&render_symbol_page(&r, &links));
    assert!(page.starts_with("---\ntitle: Widget\ndescription: Makes things.\n"));
    assert!(page.contains("generated: true\nsource_path: src/x.rs\nsymbol_path: crate::x\n---\n"));
    assert!(page.contains("## Signature\n\n```rust\npub fn sig()\n```\n"));
    assert!(page.contains("## Documentation\n\nMakes things."));
    assert!(page.contains("## Fields and Members\n"));
    assert!(page.contains("## Examples\n"));
    assert!(page.contains("## Related Items\n\n- No related items in this module yet.\n"));
}

#[test]
fn page_description_escapes_quotes() {
    let r = record("util", SymbolKind::Fn, "f", "\nSays \"hi\" loudly.\nMore.");
    let page = text(&render_symbol_page(&r, &vec![]));
    assert!(page.contains("description: Says 'hi' loudly.\n"));
}

#[test]
fn related_items_exclude_self_and_sort() {
    let a = record("util", SymbolKind::Fn, "beta", "d");
    let b = record("util", SymbolKind::Fn, "Alpha", "d");
    let c = record("other", SymbolKind::Fn, "gamma", "d");
    let records = vec![a, b, c];
    let links = related_for(&records, &chars("util"));
    assert_eq!(links.len(), 2);
    // Sorted by name: uppercase letters order before lowercase.
    assert_eq!(text(&links[0].name), "Alpha");
    assert_eq!(text(&links[1].name), "beta");

    let page = text(&render_symbol_page(&records[0], &links));
    assert!(page.contains("- [Alpha](./util--alpha)\n"));
    assert!(!page.contains("- [beta]"));
}

#[test]
fn records_sort_in_field_order() {
    let a = record("zeta", SymbolKind::Fn, "f", "d");
    let b = record("alpha", SymbolKind::Struct, "S", "d");
    let c = record("alpha", SymbolKind::Enum, "E", "d");
    let sorted = sort_records(vec![a, b, c]);
    assert_eq!(text(&sorted[0].module), "alpha");
    // Within one module the kind keyword orders: enum before struct.
    assert!(matches!(sorted[0].kind, SymbolKind::Enum));
    assert!(matches!(sorted[1].kind, SymbolKind::Struct));
    assert_eq!(text(&sorted[2].module), "zeta");
}
