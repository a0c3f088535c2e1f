//! The generator pipeline: scanned source files become records, the
//! records are sorted into the total rendering order, and the sorted
//! list is rendered into the reference tree. The whole pipeline is a
//! pure function of the input files, which is what makes sync and
//! check reproducible.

use vstd::prelude::*;

use crate::records::spec_sort_records;
use crate::records::sort_records;
use crate::records::RecordV;
use crate::records::SymbolRecord;
use crate::render::render_tree;
use crate::render::spec_render_tree;
use crate::render::FileV;
use crate::render::TreeFile;
use crate::scan::extract_symbols;
use crate::scan::module_path_of;
use crate::scan::spec_extract;
use crate::scan::spec_module_path_of;
use crate::text::push_all;
use crate::text::push_str_chars;
use crate::text::replace_str;
use crate::text::spec_replace;

verus! {

/// One source file handed to the generator: its path relative to the
/// source root, and its full text.
pub struct SourceFile {
    pub rel_path: Vec<char>,
    pub content: Vec<char>,
}

/// The mathematical value of a source file.
pub struct SourceFileV {
    pub rel_path: Seq<char>,
    pub content: Seq<char>,
}

impl View for SourceFile {
    type V = SourceFileV;

    open spec fn view(&self) -> SourceFileV {
        SourceFileV { rel_path: self.rel_path@, content: self.content@ }
    }
}

impl DeepView for SourceFile {
    type V = SourceFileV;

    open spec fn deep_view(&self) -> SourceFileV {
        self.view()
    }
}

/// A file's path with backslashes normalized to forward slashes.
pub open spec fn spec_norm_path(rel: Seq<char>) -> Seq<char> {
    spec_replace(rel, "\\"@, "/"@)
}

/// A file's path relative to the project root: the source directory
/// name prepended to its root-relative path.
pub open spec fn spec_source_path(rel: Seq<char>) -> Seq<char> {
    "src/"@ + spec_norm_path(rel)
}

/// Every record of every file, in file order.
pub open spec fn spec_all_records(files: Seq<SourceFileV>) -> Seq<RecordV>
    decreases files.len(),
{
    if files.len() == 0 {
        Seq::empty()
    } else {
        let f = files.last();
        spec_all_records(files.drop_last()) + spec_extract(
            spec_module_path_of(spec_norm_path(f.rel_path)),
            spec_source_path(f.rel_path),
            f.content,
        )
    }
}

/// The whole generator as one function: extract, sort, render.
pub open spec fn spec_pipeline(files: Seq<SourceFileV>) -> Seq<FileV> {
    spec_render_tree(spec_sort_records(spec_all_records(files)))
}

/// Extract every file's records and sort them into rendering order.
#[verifier::loop_isolation(false)]
pub fn collect_records(files: &Vec<SourceFile>) -> (r: Vec<SymbolRecord>)
    ensures
        r.deep_view() == spec_sort_records(spec_all_records(files.deep_view())),
{
    let ghost fv = files.deep_view();
    let mut records: Vec<SymbolRecord> = Vec::new();
    let mut i: usize = 0;
    proof {
        assert(records.deep_view() =~= Seq::<RecordV>::empty());
        assert(fv.take(0) =~= Seq::<SourceFileV>::empty());
    }
    while i < files.len()
        invariant
            i <= files@.len(),
            files.deep_view() == fv,
            records.deep_view() == spec_all_records(fv.take(i as int)),
        decreases files@.len() - i,
    {
        let f = &files[i];
        proof {
            assert(fv[i as int] == files@[i as int]@);
            reveal_strlit("\\");
            reveal_strlit("/");
            reveal_strlit("src/");
        }
        let norm = replace_str(&f.rel_path, "\\", "/");
        let module = module_path_of(&norm);
        let mut source_path: Vec<char> = Vec::new();
        push_str_chars(&mut source_path, "src/");
        push_all(&mut source_path, &norm);
        let mut parsed = extract_symbols(&module, &source_path, &f.content);
        let ghost before = records.deep_view();
        let ghost pv = parsed.deep_view();
        records.append(&mut parsed);
        proof {
            assert(records.deep_view() =~= before + pv);
        }
        i = i + 1;
        proof {
            assert(fv.take(i as int).drop_last() =~= fv.take(i - 1));
            assert(fv.take(i as int).last() == fv[i - 1]);
        }
    }
    proof {
        assert(fv.take(fv.len() as int) =~= fv);
    }
    sort_records(records)
}

/// Run the generator over the scanned source files and produce the
/// reference tree as path and content pairs.
pub fn generate(files: &Vec<SourceFile>) -> (r: Vec<TreeFile>)
    ensures
        r.deep_view() == spec_pipeline(files.deep_view()),
{
    let sorted = collect_records(files);
    render_tree(&sorted)
}

/// The two modes of the tool: regenerate and publish, or regenerate
/// and compare.
#[derive(Clone, Copy, Debug, PartialEq, Eq, Structural)]
pub enum Mode {
    Sync,
    Check,
}

/// The usage-error message for an unrecognized mode argument.
pub open spec fn spec_mode_error(other: Seq<char>) -> Seq<char> {
    "unknown mode '"@ + other + "'. use: docs-sync [sync|check]"@
}

/// Select the mode from the invocation's single optional argument: no
/// argument or `sync` publishes, `check` compares, and anything else
/// is a usage error carrying the exact message shown to the operator.
pub fn parse_mode(arg: Option<&Vec<char>>) -> (r: Result<Mode, String>)
    ensures
        match arg {
            None => r == Ok::<Mode, String>(Mode::Sync),
            Some(a) => {
                if a@ == "sync"@ {
                    r == Ok::<Mode, String>(Mode::Sync)
                } else if a@ == "check"@ {
                    r == Ok::<Mode, String>(Mode::Check)
                } else {
                    r matches Err(m) && m@ == spec_mode_error(a@)
                }
            },
        },
{
    match arg {
        None => Ok(Mode::Sync),
        Some(a) => {
            if crate::text::chars_eq_str(a, "sync") {
                Ok(Mode::Sync)
            } else if crate::text::chars_eq_str(a, "check") {
                Ok(Mode::Check)
            } else {
                let mut m: Vec<char> = Vec::new();
                push_str_chars(&mut m, "unknown mode '");
                push_all(&mut m, a);
                push_str_chars(&mut m, "'. use: docs-sync [sync|check]");
                Err(crate::text::chars_to_string(&m))
            }
        },
    }
}

/// The default root navigation metadata, written through the
/// normalizing writer only when the documentation root has none.
pub fn default_root_meta() -> (r: String)
    ensures
        r@ == crate::render::spec_normalize(
            crate::render::spec_meta_json("Documentation"@, seq!["index"@, "reference"@]),
        ),
{
    let title = crate::text::str_chars("Documentation");
    let mut pages: Vec<Vec<char>> = Vec::new();
    pages.push(crate::text::str_chars("index"));
    pages.push(crate::text::str_chars("reference"));
    proof {
        assert(pages.deep_view() =~~= seq!["index"@, "reference"@]);
    }
    let raw = crate::render::meta_json_content(&title, &pages);
    let normd = crate::render::normalize_newlines(&raw);
    crate::text::chars_to_string(&normd)
}

} // verus!
