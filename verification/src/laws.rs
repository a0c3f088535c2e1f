//! The guarantees the generator gives its callers, proved once and
//! for all: determinism of the rendered tree, a clean check right
//! after a sync, rendering order, the placeholder and doc-reset rules
//! of the scanner, scope qualification, and category routing.

use vstd::prelude::*;

use crate::categorize::spec_category_of;
use crate::categorize::spec_slug;
use crate::difftree::lemma_diff_self_empty;
use crate::difftree::spec_diff;
use crate::difftree::spec_tree_map;
use crate::pipeline::spec_pipeline;
use crate::pipeline::SourceFileV;
use crate::records::lemma_sort_records_sorted;
use crate::records::spec_record_le;
use crate::records::spec_records_sorted;
use crate::records::spec_sort_records;
use crate::records::RecordV;
use crate::records::SymbolKind;
use crate::render::spec_category_slugs;
use crate::render::FileV;
use crate::scan::spec_line_step;
use crate::scan::spec_parse_impl_target;
use crate::scan::spec_parse_public_symbol;
use crate::scan::spec_placeholder_docs;
use crate::scan::StateV;
use crate::text::spec_contains_seq;
use crate::text::spec_has_prefix;
use crate::text::spec_join;
use crate::text::spec_trim;
use crate::text::spec_trim_start;

verus! {

/// Determinism: the rendered tree is a pure function of the scanned
/// source files, so two runs of the generator over the same inputs
/// produce byte-identical trees.
pub proof fn lemma_generator_deterministic(
    files: Seq<SourceFileV>,
    t1: Seq<FileV>,
    t2: Seq<FileV>,
)
    requires
        t1 == spec_pipeline(files),
        t2 == spec_pipeline(files),
    ensures
        t1 == t2,
{
}

/// Idempotence: a sync publishes exactly the freshly rendered tree,
/// so a check against the same source files immediately afterwards
/// compares the tree's file map against itself and reports no drift.
pub proof fn lemma_sync_then_check_clean(files: Seq<SourceFileV>)
    ensures
        spec_diff(
            spec_tree_map(spec_pipeline(files)),
            spec_tree_map(spec_pipeline(files)),
        ).len() == 0,
{
    lemma_diff_self_empty(spec_tree_map(spec_pipeline(files)));
}

/// The records of one category, in the order their pages are emitted
/// and listed.
pub open spec fn spec_category_records(sub: Seq<RecordV>, cat: Seq<char>) -> Seq<RecordV>
    decreases sub.len(),
{
    if sub.len() == 0 {
        Seq::empty()
    } else {
        let prev = spec_category_records(sub.drop_last(), cat);
        if spec_category_of(sub.last().module) == cat {
            prev.push(sub.last())
        } else {
            prev
        }
    }
}

proof fn lemma_category_records_element(sub: Seq<RecordV>, cat: Seq<char>, k: int)
    requires
        0 <= k < spec_category_records(sub, cat).len(),
    ensures
        exists|i: int|
            0 <= i < sub.len() && #[trigger] sub[i] == spec_category_records(sub, cat)[k],
    decreases sub.len(),
{
    let f = spec_category_records(sub, cat);
    let prev = spec_category_records(sub.drop_last(), cat);
    if spec_category_of(sub.last().module) == cat && k == f.len() - 1 {
        assert(sub[sub.len() - 1] == f[k]);
    } else {
        lemma_category_records_element(sub.drop_last(), cat, k);
        let i = choose|i: int|
            0 <= i < sub.drop_last().len() && #[trigger] sub.drop_last()[i] == prev[k];
        assert(sub[i] == f[k]);
    }
}

proof fn lemma_category_records_sorted(sub: Seq<RecordV>, cat: Seq<char>)
    requires
        spec_records_sorted(sub),
    ensures
        spec_records_sorted(spec_category_records(sub, cat)),
    decreases sub.len(),
{
    if sub.len() > 0 {
        assert(spec_records_sorted(sub.drop_last())) by {
            assert(forall|i: int, j: int|
                0 <= i < j < sub.drop_last().len() ==> spec_record_le(
                    #[trigger] sub.drop_last()[i],
                    #[trigger] sub.drop_last()[j],
                ));
        }
        lemma_category_records_sorted(sub.drop_last(), cat);
        let f = spec_category_records(sub, cat);
        let prev = spec_category_records(sub.drop_last(), cat);
        if spec_category_of(sub.last().module) == cat {
            assert forall|i: int, j: int| 0 <= i < j < f.len() implies spec_record_le(
                #[trigger] f[i],
                #[trigger] f[j],
            ) by {
                if j == f.len() - 1 {
                    lemma_category_records_element(sub.drop_last(), cat, i);
                    let si = choose|si: int|
                        0 <= si < sub.drop_last().len() && #[trigger] sub.drop_last()[si]
                            == prev[i];
                    assert(spec_record_le(sub[si], sub[sub.len() - 1]));
                } else {
                    assert(f[i] == prev[i]);
                    assert(f[j] == prev[j]);
                }
            }
        }
    }
}

proof fn lemma_category_slugs_match(sub: Seq<RecordV>, cat: Seq<char>)
    ensures
        spec_category_slugs(sub, cat).len() == spec_category_records(sub, cat).len(),
        forall|k: int|
            0 <= k < spec_category_records(sub, cat).len() ==> #[trigger] spec_category_slugs(
                sub,
                cat,
            )[k] == spec_slug(
                spec_category_records(sub, cat)[k].module,
                spec_category_records(sub, cat)[k].name,
            ),
    decreases sub.len(),
{
    if sub.len() > 0 {
        lemma_category_slugs_match(sub.drop_last(), cat);
    }
}

/// Order invariant: after sorting, the pages of one category are
/// emitted, and their slugs listed in the category's navigation
/// metadata, in exactly the total record order: any earlier page
/// belongs to a record that precedes the later one.
pub proof fn lemma_rendered_order(records: Seq<RecordV>, cat: Seq<char>, i: int, j: int)
    requires
        0 <= i < j < spec_category_records(spec_sort_records(records), cat).len(),
    ensures
        spec_record_le(
            spec_category_records(spec_sort_records(records), cat)[i],
            spec_category_records(spec_sort_records(records), cat)[j],
        ),
        spec_category_slugs(spec_sort_records(records), cat)[i] == spec_slug(
            spec_category_records(spec_sort_records(records), cat)[i].module,
            spec_category_records(spec_sort_records(records), cat)[i].name,
        ),
{
    lemma_sort_records_sorted(records);
    lemma_category_records_sorted(spec_sort_records(records), cat);
    lemma_category_slugs_match(spec_sort_records(records), cat);
}

/// Placeholder rule: a recognized public declaration with no buffered
/// doc lines is emitted with the fixed, non-empty placeholder text.
pub proof fn lemma_placeholder_rule(
    st: StateV,
    raw: Seq<char>,
    module: Seq<char>,
    source_path: Seq<char>,
)
    requires
        st.pending.len() == 0,
        spec_parse_public_symbol(spec_trim_start(raw)) is Some,
        !spec_has_prefix(spec_trim_start(raw), "//!"@),
        !spec_has_prefix(spec_trim_start(raw), "///"@),
    ensures
        spec_line_step(st, raw, module, source_path).1 matches Some(r) && r.docs
            == spec_placeholder_docs(),
        spec_placeholder_docs().len() > 0,
{
    reveal_strlit("No additional documentation available yet.");
}

/// Doc-reset rule: a doc comment attaches only to the immediately
/// following declaration. After a doc block, one line of intervening
/// plain text clears the buffer, so a second doc block followed by a
/// declaration attaches exactly the second block's text.
pub proof fn lemma_doc_reset_rule(
    st: StateV,
    doc_a: Seq<char>,
    clearing: Seq<char>,
    doc_b: Seq<char>,
    decl: Seq<char>,
    module: Seq<char>,
    source_path: Seq<char>,
)
    requires
        spec_has_prefix(spec_trim_start(doc_a), "///"@),
        !spec_has_prefix(spec_trim_start(doc_a), "//!"@),
        spec_trim_start(clearing).len() > 0,
        !spec_has_prefix(spec_trim_start(clearing), "//"@),
        spec_parse_public_symbol(spec_trim_start(clearing)) is None,
        spec_has_prefix(spec_trim_start(doc_b), "///"@),
        !spec_has_prefix(spec_trim_start(doc_b), "//!"@),
        spec_parse_public_symbol(spec_trim_start(decl)) is Some,
        !spec_has_prefix(spec_trim_start(decl), "//!"@),
        !spec_has_prefix(spec_trim_start(decl), "///"@),
    ensures
        ({
            let st1 = spec_line_step(st, doc_a, module, source_path).0;
            let st2 = spec_line_step(st1, clearing, module, source_path).0;
            let st3 = spec_line_step(st2, doc_b, module, source_path).0;
            spec_line_step(st3, decl, module, source_path).1 matches Some(r) && r.docs
                == spec_trim(spec_trim_start(doc_b).skip(3))
        }),
{
    let st1 = spec_line_step(st, doc_a, module, source_path).0;
    let st2 = spec_line_step(st1, clearing, module, source_path).0;
    let st3 = spec_line_step(st2, doc_b, module, source_path).0;
    let b_text = spec_trim(spec_trim_start(doc_b).skip(3));
    lemma_comment_prefixes(spec_trim_start(clearing));
    assert(st2.pending =~= Seq::<Seq<char>>::empty());
    assert(st3.pending =~= seq![b_text]);
    assert(spec_join(st3.pending, "\n"@) == b_text);
}

proof fn lemma_scan_lines_record_shape(
    st: StateV,
    lines: Seq<Seq<char>>,
    module: Seq<char>,
    source_path: Seq<char>,
    k: int,
)
    requires
        0 <= k < crate::scan::spec_scan_lines(st, lines, module, source_path).1.len(),
    ensures
        ({
            let rec = crate::scan::spec_scan_lines(st, lines, module, source_path).1[k];
            &&& rec.module == module
            &&& rec.source_path == source_path
            &&& rec.name.len() > 0
            &&& rec.kind != SymbolKind::Module
            &&& spec_has_prefix(rec.symbol_path, "crate::"@)
        }),
    decreases lines.len(),
{
    reveal_strlit("crate::");
    let scanned = crate::scan::spec_scan_lines(st, lines, module, source_path);
    let prev = crate::scan::spec_scan_lines(st, lines.drop_last(), module, source_path);
    if k < prev.1.len() {
        lemma_scan_lines_record_shape(st, lines.drop_last(), module, source_path, k);
    } else {
        let step = crate::scan::spec_line_step(prev.0, lines.last(), module, source_path);
        let rec = step.1->Some_0;
        assert(rec.symbol_path.take(7) =~= "crate::"@);
    }
}

/// Shape of every extracted record: it names the module it came from
/// and the file it was read in, a declaration record carries the
/// declared identifier, a module record the module path's last
/// segment, and the reference path of each is anchored at the crate
/// root. The module record's name is empty only where the module path
/// itself ends in a separator, which no path derived from a file name
/// does.
pub proof fn lemma_extract_record_shape(
    module: Seq<char>,
    source_path: Seq<char>,
    content: Seq<char>,
    k: int,
)
    requires
        0 <= k < crate::scan::spec_extract(module, source_path, content).len(),
    ensures
        ({
            let rec = crate::scan::spec_extract(module, source_path, content)[k];
            &&& rec.module == module
            &&& rec.source_path == source_path
            &&& (rec.kind != SymbolKind::Module ==> rec.name.len() > 0)
            &&& (rec.kind == SymbolKind::Module ==> rec.name
                == crate::scan::spec_last_segment(module))
            &&& spec_has_prefix(rec.symbol_path, "crate::"@)
        }),
{
    reveal_strlit("crate::");
    let recs = crate::scan::spec_extract(module, source_path, content);
    let scanned = crate::scan::spec_scan_lines(
        crate::scan::spec_initial_state(),
        crate::scan::spec_lines(content),
        module,
        source_path,
    );
    if k < scanned.1.len() {
        lemma_scan_lines_record_shape(
            crate::scan::spec_initial_state(),
            crate::scan::spec_lines(content),
            module,
            source_path,
            k,
        );
    } else {
        let rec = crate::scan::spec_module_record(module, source_path, scanned.0.module_docs);
        assert(rec.symbol_path.take(7) =~= "crate::"@);
    }
}

/// A line that is not a plain comment is neither kind of doc comment.
proof fn lemma_comment_prefixes(line: Seq<char>)
    requires
        !spec_has_prefix(line, "//"@),
    ensures
        !spec_has_prefix(line, "//!"@),
        !spec_has_prefix(line, "///"@),
{
    reveal_strlit("//");
    reveal_strlit("//!");
    reveal_strlit("///");
    if spec_has_prefix(line, "//!"@) {
        assert(line.take(3)[0] == '/' && line.take(3)[1] == '/');
        assert(line.take(2) =~= "//"@);
    }
    if spec_has_prefix(line, "///"@) {
        assert(line.take(3)[0] == '/' && line.take(3)[1] == '/');
        assert(line.take(2) =~= "//"@);
    }
}

/// Scope qualification: a function declaration inside an open
/// enclosing-type context gets a symbol path qualified by that
/// context's sanitized type name; outside any context the module path
/// alone qualifies it.
pub proof fn lemma_scope_qualification(
    st: StateV,
    raw: Seq<char>,
    module: Seq<char>,
    source_path: Seq<char>,
)
    requires
        spec_parse_public_symbol(spec_trim_start(raw)) matches Some(p) && p.0 == SymbolKind::Fn,
        !spec_has_prefix(spec_trim_start(raw), "//!"@),
        !spec_has_prefix(spec_trim_start(raw), "///"@),
        spec_parse_impl_target(spec_trim_start(raw)) is None,
    ensures
        ({
            let p = spec_parse_public_symbol(spec_trim_start(raw))->Some_0;
            let r = spec_line_step(st, raw, module, source_path).1;
            &&& st.stack.len() > 0 ==> (r matches Some(rec) && rec.symbol_path == "crate::"@
                + module + "::"@ + st.stack.last().name + "::"@ + p.1)
            &&& st.stack.len() == 0 ==> (r matches Some(rec) && rec.symbol_path == "crate::"@
                + module + "::"@ + p.1)
        }),
{
}

/// Category routing: a module path containing the exchange-domain
/// marker always routes to the exchange category, whatever prefixes
/// it also matches.
pub proof fn lemma_exchange_marker_wins(m: Seq<char>)
    requires
        spec_contains_seq(m, "exchange"@),
    ensures
        spec_category_of(m) == "exchanges"@,
{
}

} // verus!
