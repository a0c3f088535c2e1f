//! The page renderer: every record becomes a self-contained page
//! with front matter, a signature block, the documentation body and
//! a related-items list; each category gets an index page and a
//! navigation metadata file, and the tree gets both at its root.
//! Every emitted file is whitespace-normalized.

use vstd::prelude::*;

use crate::categorize::related_for;
use crate::categorize::spec_category_of;
use crate::categorize::spec_related;
use crate::categorize::spec_slug;
use crate::categorize::spec_title_case;
use crate::categorize::symbol_slug;
use crate::categorize::title_case;
use crate::categorize::LinkV;
use crate::categorize::RelatedLink;
use crate::records::RecordV;
use crate::records::SymbolKind;
use crate::records::SymbolRecord;
use crate::scan::copy_chars;
use crate::scan::spec_lines;
use crate::scan::split_lines;
use crate::text::chars_eq;
use crate::text::contains_str;
use crate::text::push_all;
use crate::text::push_str_chars;
use crate::text::replace_str;
use crate::text::spec_contains_seq;
use crate::text::spec_replace;
use crate::text::spec_trim;
use crate::text::spec_trim_end;
use crate::text::str_chars;
use crate::text::trim;
use crate::text::trim_end;

verus! {

/// Each line right-trimmed and closed with exactly one newline.
pub open spec fn spec_norm_lines(ls: Seq<Seq<char>>) -> Seq<char>
    decreases ls.len(),
{
    if ls.len() == 0 {
        Seq::empty()
    } else {
        spec_norm_lines(ls.drop_last()) + spec_trim_end(ls.last()) + "\n"@
    }
}

/// The normalized form of emitted text: trailing whitespace stripped
/// from every line and exactly one trailing newline.
pub open spec fn spec_normalize(s: Seq<char>) -> Seq<char> {
    if spec_lines(s).len() == 0 {
        "\n"@
    } else {
        spec_norm_lines(spec_lines(s))
    }
}

/// Normalize text before it is written.
#[verifier::loop_isolation(false)]
pub fn normalize_newlines(v: &Vec<char>) -> (r: Vec<char>)
    ensures
        r@ == spec_normalize(v@),
{
    let lines = split_lines(v);
    let ghost lv = lines.deep_view();
    if lines.len() == 0 {
        let mut out: Vec<char> = Vec::new();
        out.push('\n');
        proof {
            reveal_strlit("\n");
            assert(out@ =~= "\n"@);
        }
        return out;
    }
    let mut out: Vec<char> = Vec::new();
    let mut i: usize = 0;
    proof {
        assert(lv.take(0) =~= Seq::<Seq<char>>::empty());
    }
    while i < lines.len()
        invariant
            i <= lines@.len(),
            lines.deep_view() == lv,
            out@ == spec_norm_lines(lv.take(i as int)),
        decreases lines@.len() - i,
    {
        proof {
            assert(lv[i as int] == lines@[i as int]@);
        }
        let t = trim_end(&lines[i]);
        push_all(&mut out, &t);
        let mut nl: Vec<char> = Vec::new();
        nl.push('\n');
        proof {
            reveal_strlit("\n");
            assert(nl@ =~= "\n"@);
        }
        push_all(&mut out, &nl);
        i = i + 1;
        proof {
            assert(lv.take(i as int).drop_last() =~= lv.take(i - 1));
            assert(lv.take(i as int).last() == lv[i - 1]);
        }
    }
    proof {
        assert(lv.take(lv.len() as int) =~= lv);
    }
    out
}

/// The quoted page names joined with commas.
pub open spec fn spec_quoted_pages(pages: Seq<Seq<char>>) -> Seq<char>
    decreases pages.len(),
{
    if pages.len() == 0 {
        Seq::empty()
    } else if pages.len() == 1 {
        "\""@ + pages[0] + "\""@
    } else {
        spec_quoted_pages(pages.drop_last()) + ", "@ + "\""@ + pages.last() + "\""@
    }
}

/// A navigation metadata file: a title and the page slugs in order.
pub open spec fn spec_meta_json(title: Seq<char>, pages: Seq<Seq<char>>) -> Seq<char> {
    "{\n  \"title\": \""@ + title + "\",\n  \"pages\": ["@ + spec_quoted_pages(pages) + "]\n}\n"@
}

/// Render a navigation metadata file.
#[verifier::loop_isolation(false)]
pub fn meta_json_content(title: &Vec<char>, pages: &Vec<Vec<char>>) -> (r: Vec<char>)
    ensures
        r@ == spec_meta_json(title@, pages.deep_view()),
{
    let ghost pv = pages.deep_view();
    let mut out: Vec<char> = Vec::new();
    push_str_chars(&mut out, "{\n  \"title\": \"");
    push_all(&mut out, title);
    push_str_chars(&mut out, "\",\n  \"pages\": [");
    let mut i: usize = 0;
    let ghost quoted_start = out@;
    proof {
        assert(pv.take(0) =~= Seq::<Seq<char>>::empty());
        assert(out@ =~= quoted_start + spec_quoted_pages(pv.take(0)));
    }
    while i < pages.len()
        invariant
            i <= pages@.len(),
            pages.deep_view() == pv,
            out@ == quoted_start + spec_quoted_pages(pv.take(i as int)),
        decreases pages@.len() - i,
    {
        if i > 0 {
            push_str_chars(&mut out, ", ");
        }
        push_str_chars(&mut out, "\"");
        proof {
            assert(pv[i as int] == pages@[i as int]@);
        }
        push_all(&mut out, &pages[i]);
        push_str_chars(&mut out, "\"");
        i = i + 1;
        proof {
            assert(pv.take(i as int).drop_last() =~= pv.take(i - 1));
            assert(pv.take(i as int).last() == pv[i - 1]);
            if i == 1 {
                assert(out@ =~= quoted_start + spec_quoted_pages(pv.take(1)));
            } else {
                assert(out@ =~= quoted_start + spec_quoted_pages(pv.take(i as int)));
            }
        }
    }
    proof {
        assert(pv.take(pv.len() as int) =~= pv);
    }
    push_str_chars(&mut out, "]\n}\n");
    proof {
        assert(out@ =~= spec_meta_json(title@, pv));
    }
    out
}

/// The first line of the documentation that is not blank, if any.
pub open spec fn spec_first_nonblank(ls: Seq<Seq<char>>) -> Option<Seq<char>>
    decreases ls.len(),
{
    if ls.len() == 0 {
        None
    } else if spec_trim(ls.first()).len() > 0 {
        Some(ls.first())
    } else {
        spec_first_nonblank(ls.drop_first())
    }
}

/// Whether a line is whitespace only.
fn is_blank(v: &Vec<char>) -> (r: bool)
    ensures
        r == (spec_trim(v@).len() == 0),
{
    let t = trim(v);
    t.len() == 0
}

proof fn lemma_first_nonblank_at(ls: Seq<Seq<char>>, i: int)
    requires
        0 <= i <= ls.len(),
        forall|j: int| 0 <= j < i ==> spec_trim(#[trigger] ls[j]).len() == 0,
        i == ls.len() || spec_trim(ls[i]).len() > 0,
    ensures
        i < ls.len() ==> spec_first_nonblank(ls) == Some(ls[i]),
        i == ls.len() ==> spec_first_nonblank(ls) is None,
    decreases i,
{
    if ls.len() == 0 {
    } else if i == 0 {
    } else {
        lemma_first_nonblank_at(ls.drop_first(), i - 1);
    }
}

/// The page description: the first non-blank documentation line (or
/// a fixed fallback), trimmed, double quotes replaced by single.
pub open spec fn spec_description(docs: Seq<char>) -> Seq<char> {
    let base = match spec_first_nonblank(spec_lines(docs)) {
        Some(l) => l,
        None => "Generated reference page"@,
    };
    spec_replace(spec_trim(base), "\""@, "'"@)
}

/// Compute the description line for a record's page.
#[verifier::loop_isolation(false)]
pub fn description_of(docs: &Vec<char>) -> (r: Vec<char>)
    ensures
        r@ == spec_description(docs@),
{
    let lines = split_lines(docs);
    let ghost lv = lines.deep_view();
    let mut i: usize = 0;
    while i < lines.len() && is_blank(&lines[i])
        invariant
            i <= lines@.len(),
            lines.deep_view() == lv,
            forall|j: int| 0 <= j < i ==> spec_trim(#[trigger] lv[j]).len() == 0,
        decreases lines@.len() - i,
    {
        proof {
            assert(lv[i as int] == lines@[i as int]@);
        }
        i = i + 1;
    }
    let base = if i < lines.len() {
        proof {
            assert(lv[i as int] == lines@[i as int]@);
            lemma_first_nonblank_at(lv, i as int);
        }
        copy_chars(&lines[i])
    } else {
        proof {
            lemma_first_nonblank_at(lv, lv.len() as int);
        }
        str_chars("Generated reference page")
    };
    proof {
        reveal_strlit("\"");
        reveal_strlit("'");
    }
    let t = trim(&base);
    replace_str(&t, "\"", "'")
}

/// The related-items entries: one link line per sibling, the record
/// itself (and any record sharing its name) skipped.
pub open spec fn spec_related_entries(links: Seq<LinkV>, self_name: Seq<char>) -> Seq<char>
    decreases links.len(),
{
    if links.len() == 0 {
        Seq::empty()
    } else {
        let prev = spec_related_entries(links.drop_last(), self_name);
        let l = links.last();
        if l.name == self_name {
            prev
        } else {
            prev + "- ["@ + l.name + "](./"@ + l.slug + ")\n"@
        }
    }
}

/// Whether any link survives the self-exclusion.
pub open spec fn spec_any_related(links: Seq<LinkV>, self_name: Seq<char>) -> bool {
    exists|i: int| 0 <= i < links.len() && (#[trigger] links[i].name) != self_name
}

/// The full related-items section body.
pub open spec fn spec_related_section(links: Seq<LinkV>, self_name: Seq<char>) -> Seq<char> {
    if spec_any_related(links, self_name) {
        spec_related_entries(links, self_name)
    } else {
        "- No related items in this module yet.\n"@
    }
}

/// The conditional members section for type-like records.
pub open spec fn spec_members_section(kind: SymbolKind) -> Seq<char> {
    if kind == SymbolKind::Struct || kind == SymbolKind::Enum || kind == SymbolKind::Trait {
        "## Fields and Members\n\nReview the signature and source-level documentation for detailed members.\n\n"@
    } else {
        Seq::empty()
    }
}

/// The conditional examples section when the docs hold a fenced code
/// block marker.
pub open spec fn spec_examples_section(docs: Seq<char>) -> Seq<char> {
    if spec_contains_seq(docs, "```"@) {
        "## Examples\n\nExamples are included in the documentation block above.\n\n"@
    } else {
        Seq::empty()
    }
}

/// A record's whole page, before normalization: front matter, the
/// signature block, the documentation body, the conditional sections
/// and the related-items list.
pub open spec fn spec_symbol_page(item: RecordV, links: Seq<LinkV>) -> Seq<char> {
    "---\ntitle: "@ + item.name + "\ndescription: "@ + spec_description(item.docs)
        + "\ngenerated: true\nsource_path: "@ + item.source_path + "\nsymbol_path: "@
        + item.symbol_path + "\n---\n\n"@ + "## Signature\n\n```rust\n"@ + item.signature
        + "\n```\n\n"@ + "## Documentation\n\n"@ + item.docs + "\n\n"@ + spec_members_section(
        item.kind,
    ) + spec_examples_section(item.docs) + "## Related Items\n\n"@ + spec_related_section(
        links,
        item.name,
    )
}

/// Render one record's page.
#[verifier::loop_isolation(false)]
pub fn render_symbol_page(item: &SymbolRecord, links: &Vec<RelatedLink>) -> (r: Vec<char>)
    ensures
        r@ == spec_symbol_page(item@, links.deep_view()),
{
    let mut out: Vec<char> = Vec::new();
    push_str_chars(&mut out, "---\ntitle: ");
    push_all(&mut out, &item.name);
    push_str_chars(&mut out, "\ndescription: ");
    let desc = description_of(&item.docs);
    push_all(&mut out, &desc);
    push_str_chars(&mut out, "\ngenerated: true\nsource_path: ");
    push_all(&mut out, &item.source_path);
    push_str_chars(&mut out, "\nsymbol_path: ");
    push_all(&mut out, &item.symbol_path);
    push_str_chars(&mut out, "\n---\n\n");
    push_str_chars(&mut out, "## Signature\n\n```rust\n");
    push_all(&mut out, &item.signature);
    push_str_chars(&mut out, "\n```\n\n");
    push_str_chars(&mut out, "## Documentation\n\n");
    push_all(&mut out, &item.docs);
    push_str_chars(&mut out, "\n\n");
    let type_like = match item.kind {
        SymbolKind::Struct => true,
        SymbolKind::Enum => true,
        SymbolKind::Trait => true,
        _ => false,
    };
    if type_like {
        push_str_chars(
            &mut out,
            "## Fields and Members\n\nReview the signature and source-level documentation for detailed members.\n\n",
        );
    }
    if contains_str(&item.docs, "```") {
        push_str_chars(
            &mut out,
            "## Examples\n\nExamples are included in the documentation block above.\n\n",
        );
    }
    push_str_chars(&mut out, "## Related Items\n\n");
    let ghost lk = links.deep_view();
    let ghost head = out@;
    let mut wrote_related = false;
    let mut i: usize = 0;
    proof {
        assert(lk.take(0) =~= Seq::<LinkV>::empty());
        assert(out@ =~= head + spec_related_entries(lk.take(0), item@.name));
    }
    while i < links.len()
        invariant
            i <= links@.len(),
            links.deep_view() == lk,
            out@ == head + spec_related_entries(lk.take(i as int), item@.name),
            wrote_related == exists|j: int|
                0 <= j < i && (#[trigger] lk[j].name) != item@.name,
        decreases links@.len() - i,
    {
        proof {
            assert(lk[i as int] == links@[i as int]@);
        }
        let link = &links[i];
        if !chars_eq(&link.name, &item.name) {
            wrote_related = true;
            push_str_chars(&mut out, "- [");
            push_all(&mut out, &link.name);
            push_str_chars(&mut out, "](./");
            push_all(&mut out, &link.slug);
            push_str_chars(&mut out, ")\n");
        }
        i = i + 1;
        proof {
            assert(lk.take(i as int).drop_last() =~= lk.take(i - 1));
            assert(lk.take(i as int).last() == lk[i - 1]);
            assert(out@ =~= head + spec_related_entries(lk.take(i as int), item@.name));
        }
    }
    proof {
        assert(lk.take(lk.len() as int) =~= lk);
    }
    if !wrote_related {
        push_str_chars(&mut out, "- No related items in this module yet.\n");
    }
    proof {
        if !spec_any_related(lk, item@.name) {
            lemma_related_entries_empty(lk, item@.name);
            assert(out@ =~= head + spec_related_section(lk, item@.name));
        } else {
            assert(spec_related_section(lk, item@.name) == spec_related_entries(lk, item@.name));
        }
        assert(out@ =~= spec_symbol_page(item@, lk));
    }
    out
}

proof fn lemma_related_entries_empty(links: Seq<LinkV>, self_name: Seq<char>)
    requires
        forall|i: int| 0 <= i < links.len() ==> (#[trigger] links[i].name) == self_name,
    ensures
        spec_related_entries(links, self_name).len() == 0,
    decreases links.len(),
{
    if links.len() > 0 {
        lemma_related_entries_empty(links.drop_last(), self_name);
    }
}

/// One rendered file of the reference tree: its path relative to the
/// tree root, and its normalized text.
pub struct TreeFile {
    pub path: Vec<char>,
    pub content: Vec<char>,
}

/// The mathematical value of a rendered file.
pub struct FileV {
    pub path: Seq<char>,
    pub content: Seq<char>,
}

impl View for TreeFile {
    type V = FileV;

    open spec fn view(&self) -> FileV {
        FileV { path: self.path@, content: self.content@ }
    }
}

impl DeepView for TreeFile {
    type V = FileV;

    open spec fn deep_view(&self) -> FileV {
        self.view()
    }
}

/// The path of a record's page inside its category directory.
pub open spec fn spec_page_path(cat: Seq<char>, slug: Seq<char>) -> Seq<char> {
    cat + "/"@ + slug + ".mdx"@
}

/// A category's index page, before normalization.
pub open spec fn spec_category_index_text(cat: Seq<char>) -> Seq<char> {
    "---\ntitle: "@ + spec_title_case(cat)
        + "\ndescription: Generated "@ + cat
        + " reference\ngenerated: true\n---\n\nThis section is generated from Rust doc comments."@
}

/// The tree's root index page, before normalization.
pub open spec fn spec_root_index_text() -> Seq<char> {
    "---\ntitle: Reference\ndescription: Auto-generated API and symbol documentation\ngenerated: true\n---\n\nReference pages are generated from Rust source documentation comments."@
}

/// The pages of one category, in record order: `all` supplies the
/// related-items lists, `sub` the records rendered so far.
pub open spec fn spec_category_pages(
    all: Seq<RecordV>,
    sub: Seq<RecordV>,
    cat: Seq<char>,
) -> Seq<FileV>
    decreases sub.len(),
{
    if sub.len() == 0 {
        Seq::empty()
    } else {
        let prev = spec_category_pages(all, sub.drop_last(), cat);
        let r = sub.last();
        if spec_category_of(r.module) == cat {
            prev.push(
                FileV {
                    path: spec_page_path(cat, spec_slug(r.module, r.name)),
                    content: spec_normalize(spec_symbol_page(r, spec_related(all, r.module))),
                },
            )
        } else {
            prev
        }
    }
}

/// The slugs of one category's records, in record order.
pub open spec fn spec_category_slugs(sub: Seq<RecordV>, cat: Seq<char>) -> Seq<Seq<char>>
    decreases sub.len(),
{
    if sub.len() == 0 {
        Seq::empty()
    } else {
        let prev = spec_category_slugs(sub.drop_last(), cat);
        let r = sub.last();
        if spec_category_of(r.module) == cat {
            prev.push(spec_slug(r.module, r.name))
        } else {
            prev
        }
    }
}

/// Everything one category contributes to the tree: its index page,
/// its record pages, and its navigation metadata listing the index
/// first and then every page slug in record order.
pub open spec fn spec_category_files(records: Seq<RecordV>, cat: Seq<char>) -> Seq<FileV> {
    seq![
        FileV {
            path: cat + "/index.mdx"@,
            content: spec_normalize(spec_category_index_text(cat)),
        },
    ] + spec_category_pages(records, records, cat) + seq![
        FileV {
            path: cat + "/meta.json"@,
            content: spec_normalize(
                spec_meta_json(
                    spec_title_case(cat),
                    seq!["index"@] + spec_category_slugs(records, cat),
                ),
            ),
        },
    ]
}

/// The whole rendered tree, as path and content pairs in emission
/// order: the three fixed categories, then the root index page and
/// the root navigation metadata.
pub open spec fn spec_render_tree(records: Seq<RecordV>) -> Seq<FileV> {
    spec_category_files(records, "core"@) + spec_category_files(records, "primitives"@)
        + spec_category_files(records, "exchanges"@) + seq![
        FileV { path: "index.mdx"@, content: spec_normalize(spec_root_index_text()) },
        FileV {
            path: "meta.json"@,
            content: spec_normalize(
                spec_meta_json(
                    "Reference"@,
                    seq!["index"@, "core"@, "primitives"@, "exchanges"@],
                ),
            ),
        },
    ]
}

/// Render one category's files onto `out`.
#[verifier::loop_isolation(false)]
fn render_category(records: &Vec<SymbolRecord>, cat: &str, out: &mut Vec<TreeFile>)
    ensures
        final(out).deep_view() == old(out).deep_view() + spec_category_files(
            records.deep_view(),
            cat@,
        ),
{
    let ghost base = out.deep_view();
    let ghost rv = records.deep_view();
    let catv = str_chars(cat);

    let mut index_path = copy_chars(&catv);
    push_str_chars(&mut index_path, "/index.mdx");
    let mut index_text: Vec<char> = Vec::new();
    push_str_chars(&mut index_text, "---\ntitle: ");
    let title = title_case(&catv);
    push_all(&mut index_text, &title);
    push_str_chars(&mut index_text, "\ndescription: Generated ");
    push_all(&mut index_text, &catv);
    push_str_chars(
        &mut index_text,
        " reference\ngenerated: true\n---\n\nThis section is generated from Rust doc comments.",
    );
    proof {
        assert(index_text@ =~= spec_category_index_text(cat@));
    }
    let index_content = normalize_newlines(&index_text);
    out.push(TreeFile { path: index_path, content: index_content });
    proof {
        assert(out.deep_view() =~= base.push(
            FileV {
                path: cat@ + "/index.mdx"@,
                content: spec_normalize(spec_category_index_text(cat@)),
            },
        ));
    }

    let mut pages: Vec<Vec<char>> = Vec::new();
    pages.push(str_chars("index"));
    proof {
        assert(pages.deep_view() =~~= seq!["index"@] + spec_category_slugs(rv.take(0), cat@));
        assert(out.deep_view() =~= base + seq![
            FileV {
                path: cat@ + "/index.mdx"@,
                content: spec_normalize(spec_category_index_text(cat@)),
            },
        ] + spec_category_pages(rv, rv.take(0), cat@));
    }
    let ghost withindex = out.deep_view();
    let mut i: usize = 0;
    while i < records.len()
        invariant
            i <= records@.len(),
            records.deep_view() == rv,
            out.deep_view() == withindex + spec_category_pages(rv, rv.take(i as int), cat@),
            pages.deep_view() =~~= seq!["index"@] + spec_category_slugs(rv.take(i as int), cat@),
        decreases records@.len() - i,
    {
        let rec = &records[i];
        proof {
            assert(rv[i as int] == records@[i as int]@);
        }
        let rec_cat = crate::categorize::category_for_module(&rec.module);
        if chars_eq(&rec_cat, &catv) {
            let slug = symbol_slug(rec);
            let links = related_for(records, &rec.module);
            let page = render_symbol_page(rec, &links);
            let content = normalize_newlines(&page);
            let mut path = copy_chars(&catv);
            push_str_chars(&mut path, "/");
            push_all(&mut path, &slug);
            push_str_chars(&mut path, ".mdx");
            proof {
                assert(path@ =~= spec_page_path(cat@, spec_slug(rv[i as int].module, rv[i as int].name)));
            }
            let ghost before = out.deep_view();
            let ghost pbefore = pages.deep_view();
            out.push(TreeFile { path: path, content: content });
            pages.push(slug);
            proof {
                assert(out.deep_view() =~= before.push(
                    FileV {
                        path: spec_page_path(cat@, spec_slug(rv[i as int].module, rv[i as int].name)),
                        content: spec_normalize(
                            spec_symbol_page(rv[i as int], spec_related(rv, rv[i as int].module)),
                        ),
                    },
                ));
                assert(pages.deep_view() =~~= pbefore.push(
                    spec_slug(rv[i as int].module, rv[i as int].name),
                ));
            }
        }
        i = i + 1;
        proof {
            assert(rv.take(i as int).drop_last() =~= rv.take(i - 1));
            assert(rv.take(i as int).last() == rv[i - 1]);
            assert(out.deep_view() =~= withindex + spec_category_pages(rv, rv.take(i as int), cat@));
            assert(pages.deep_view() =~~= seq!["index"@] + spec_category_slugs(
                rv.take(i as int),
                cat@,
            ));
        }
    }
    proof {
        assert(rv.take(rv.len() as int) =~= rv);
    }
    let mut meta_path = copy_chars(&catv);
    push_str_chars(&mut meta_path, "/meta.json");
    let meta_raw = meta_json_content(&title, &pages);
    let meta_content = normalize_newlines(&meta_raw);
    let ghost before = out.deep_view();
    out.push(TreeFile { path: meta_path, content: meta_content });
    proof {
        assert(out.deep_view() =~= before.push(
            FileV {
                path: cat@ + "/meta.json"@,
                content: spec_normalize(
                    spec_meta_json(
                        spec_title_case(cat@),
                        seq!["index"@] + spec_category_slugs(rv, cat@),
                    ),
                ),
            },
        ));
        assert(out.deep_view() =~= base + spec_category_files(rv, cat@));
    }
}

/// Render the whole reference tree from the sorted records: every
/// emitted file with its tree-relative path, in emission order. The
/// result is a pure function of the record list.
pub fn render_tree(records: &Vec<SymbolRecord>) -> (r: Vec<TreeFile>)
    ensures
        r.deep_view() == spec_render_tree(records.deep_view()),
{
    let ghost rv = records.deep_view();
    let mut out: Vec<TreeFile> = Vec::new();
    proof {
        assert(out.deep_view() =~= Seq::<FileV>::empty());
    }
    render_category(records, "core", &mut out);
    render_category(records, "primitives", &mut out);
    render_category(records, "exchanges", &mut out);
    let root_index_text = str_chars(
        "---\ntitle: Reference\ndescription: Auto-generated API and symbol documentation\ngenerated: true\n---\n\nReference pages are generated from Rust source documentation comments.",
    );
    let root_index = normalize_newlines(&root_index_text);
    let ghost before1 = out.deep_view();
    out.push(TreeFile { path: str_chars("index.mdx"), content: root_index });
    proof {
        assert(out.deep_view() =~= before1.push(
            FileV { path: "index.mdx"@, content: spec_normalize(spec_root_index_text()) },
        ));
    }
    let mut root_pages: Vec<Vec<char>> = Vec::new();
    root_pages.push(str_chars("index"));
    root_pages.push(str_chars("core"));
    root_pages.push(str_chars("primitives"));
    root_pages.push(str_chars("exchanges"));
    proof {
        assert(root_pages.deep_view() =~~= seq!["index"@, "core"@, "primitives"@, "exchanges"@]);
    }
    let root_title = str_chars("Reference");
    let meta_raw = meta_json_content(&root_title, &root_pages);
    let meta = normalize_newlines(&meta_raw);
    let ghost before2 = out.deep_view();
    out.push(TreeFile { path: str_chars("meta.json"), content: meta });
    proof {
        assert(out.deep_view() =~= before2.push(
            FileV {
                path: "meta.json"@,
                content: spec_normalize(
                    spec_meta_json(
                        "Reference"@,
                        seq!["index"@, "core"@, "primitives"@, "exchanges"@],
                    ),
                ),
            },
        ));
        assert(out.deep_view() =~= spec_render_tree(rv));
    }
    out
}

} // verus!
