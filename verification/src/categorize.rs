//! Category routing and cross-linking: every record lands in exactly
//! one of three fixed categories by a path heuristic, gets a
//! filesystem-safe page slug, and is offered links to the other
//! records of its module.

use vstd::prelude::*;

use crate::records::RecordV;
use crate::records::SymbolRecord;
use crate::text::contains_str;
use crate::text::has_prefix_str;
use crate::text::lex_cmp;
use crate::text::push_all;
use crate::text::push_str_chars;
use crate::text::replace_str;
use crate::text::spec_contains_seq;
use crate::text::spec_has_prefix;
use crate::text::spec_lex_cmp;
use crate::text::spec_replace;
use crate::text::spec_to_lower;
use crate::text::spec_upper_char;
use crate::text::str_chars;
use crate::text::to_lower;
use crate::text::upper_char;

verus! {

/// The category a module's records are rendered under: the
/// exchange-domain marker wins over everything, then the two
/// command-and-binary prefixes, then the default.
pub open spec fn spec_category_of(m: Seq<char>) -> Seq<char> {
    if spec_contains_seq(m, "exchange"@) {
        "exchanges"@
    } else if spec_has_prefix(m, "commands"@) || spec_has_prefix(m, "bin"@) {
        "core"@
    } else {
        "primitives"@
    }
}

/// Route a module path to its category name.
pub fn category_for_module(m: &Vec<char>) -> (r: Vec<char>)
    ensures
        r@ == spec_category_of(m@),
{
    if contains_str(m, "exchange") {
        str_chars("exchanges")
    } else if has_prefix_str(m, "commands") || has_prefix_str(m, "bin") {
        str_chars("core")
    } else {
        str_chars("primitives")
    }
}

/// The page slug of a record: the lowercased module path with `::`
/// replaced by `-`, two dashes, and the lowercased name.
pub open spec fn spec_slug(module: Seq<char>, name: Seq<char>) -> Seq<char> {
    spec_to_lower(spec_replace(module, "::"@, "-"@)) + "--"@ + spec_to_lower(name)
}

/// Compute a record's page slug.
pub fn symbol_slug(rec: &SymbolRecord) -> (r: Vec<char>)
    ensures
        r@ == spec_slug(rec@.module, rec@.name),
{
    proof {
        reveal_strlit("::");
        reveal_strlit("-");
    }
    let dashed = replace_str(&rec.module, "::", "-");
    let mut out = to_lower(&dashed);
    push_str_chars(&mut out, "--");
    let low_name = to_lower(&rec.name);
    push_all(&mut out, &low_name);
    out
}

/// The title-case flag after scanning `s`: the next character is
/// uppercased at the start and after a dash or underscore.
pub open spec fn spec_title_flag(s: Seq<char>, up0: bool) -> bool {
    if s.len() == 0 {
        up0
    } else {
        s.last() == '-' || s.last() == '_'
    }
}

/// Title case of `s`: dashes and underscores become spaces and the
/// letter after each break is uppercased.
pub open spec fn spec_title_case_from(s: Seq<char>, up0: bool) -> Seq<char>
    decreases s.len(),
{
    if s.len() == 0 {
        Seq::empty()
    } else {
        let prev = spec_title_case_from(s.drop_last(), up0);
        let up = spec_title_flag(s.drop_last(), up0);
        let c = s.last();
        if c == '-' || c == '_' {
            prev.push(' ')
        } else if up {
            prev.push(spec_upper_char(c))
        } else {
            prev.push(c)
        }
    }
}

/// Title case of `s`.
pub open spec fn spec_title_case(s: Seq<char>) -> Seq<char> {
    spec_title_case_from(s, true)
}

/// Turn a category name into a page title.
#[verifier::loop_isolation(false)]
pub fn title_case(v: &Vec<char>) -> (r: Vec<char>)
    ensures
        r@ == spec_title_case(v@),
{
    let mut out: Vec<char> = Vec::new();
    let mut upper = true;
    let mut i: usize = 0;
    while i < v.len()
        invariant
            i <= v@.len(),
            out@ == spec_title_case_from(v@.take(i as int), true),
            upper == spec_title_flag(v@.take(i as int), true),
        decreases v@.len() - i,
    {
        let c = v[i];
        if c == '-' || c == '_' {
            out.push(' ');
            upper = true;
        } else if upper {
            out.push(upper_char(c));
            upper = false;
        } else {
            out.push(c);
        }
        i = i + 1;
        proof {
            assert(v@.take(i as int).drop_last() =~= v@.take(i - 1));
        }
    }
    proof {
        assert(v@.take(v@.len() as int) =~= v@);
    }
    out
}

/// A cross-link to a sibling record of the same module.
pub struct RelatedLink {
    pub name: Vec<char>,
    pub slug: Vec<char>,
}

/// The mathematical value of a cross-link.
pub struct LinkV {
    pub name: Seq<char>,
    pub slug: Seq<char>,
}

impl View for RelatedLink {
    type V = LinkV;

    open spec fn view(&self) -> LinkV {
        LinkV { name: self.name@, slug: self.slug@ }
    }
}

impl DeepView for RelatedLink {
    type V = LinkV;

    open spec fn deep_view(&self) -> LinkV {
        self.view()
    }
}

/// Three-way comparison of links: by name, then by slug.
pub open spec fn spec_link_cmp(a: LinkV, b: LinkV) -> int {
    let c1 = spec_lex_cmp(a.name, b.name);
    if c1 != 0 {
        c1
    } else {
        spec_lex_cmp(a.slug, b.slug)
    }
}

/// `a` sorts no later than `b` among a module's links.
pub open spec fn spec_link_le(a: LinkV, b: LinkV) -> bool {
    spec_link_cmp(a, b) <= 0
}

fn link_cmp(a: &RelatedLink, b: &RelatedLink) -> (r: i8)
    ensures
        r as int == spec_link_cmp(a@, b@),
{
    let c1 = lex_cmp(&a.name, &b.name);
    if c1 != 0 {
        c1
    } else {
        lex_cmp(&a.slug, &b.slug)
    }
}

/// `x` inserted into `s` after every link that sorts no later.
pub open spec fn spec_insert_link(s: Seq<LinkV>, x: LinkV) -> Seq<LinkV>
    decreases s.len(),
{
    if s.len() > 0 && spec_link_le(s.first(), x) {
        seq![s.first()] + spec_insert_link(s.drop_first(), x)
    } else {
        seq![x] + s
    }
}

/// Insertion sort of a module's links by name, then slug.
pub open spec fn spec_sort_links(s: Seq<LinkV>) -> Seq<LinkV>
    decreases s.len(),
{
    if s.len() == 0 {
        Seq::empty()
    } else {
        spec_insert_link(spec_sort_links(s.drop_last()), s.last())
    }
}

proof fn lemma_insert_link_at(s: Seq<LinkV>, x: LinkV, j: int)
    requires
        0 <= j <= s.len(),
        forall|i: int| 0 <= i < j ==> spec_link_le(#[trigger] s[i], x),
        j == s.len() || !spec_link_le(s[j], x),
    ensures
        spec_insert_link(s, x) == s.take(j) + seq![x] + s.skip(j),
    decreases j,
{
    if j == 0 {
        if s.len() > 0 && spec_link_le(s.first(), x) {
            assert(false);
        }
        assert(seq![x] + s =~= s.take(0) + seq![x] + s.skip(0));
    } else {
        lemma_insert_link_at(s.drop_first(), x, j - 1);
        assert(seq![s.first()] + (s.drop_first().take(j - 1) + seq![x] + s.drop_first().skip(j - 1))
            =~= s.take(j) + seq![x] + s.skip(j));
    }
}

#[verifier::loop_isolation(false)]
fn insert_link(out: &mut Vec<RelatedLink>, x: RelatedLink)
    ensures
        final(out).deep_view() == spec_insert_link(old(out).deep_view(), x@),
{
    let ghost s = out.deep_view();
    let mut j: usize = 0;
    while j < out.len() && link_cmp(&out[j], &x) <= 0
        invariant
            j <= out@.len(),
            forall|i: int| 0 <= i < j ==> spec_link_le(#[trigger] out.deep_view()[i], x@),
        decreases out@.len() - j,
    {
        j = j + 1;
    }
    proof {
        lemma_insert_link_at(s, x@, j as int);
    }
    out.insert(j, x);
    proof {
        assert(out.deep_view() =~= s.take(j as int) + seq![x@] + s.skip(j as int));
    }
}

/// The links of every record of module `m` among `records`, in record
/// order: each record offers its name and its slug.
pub open spec fn spec_collect_links(records: Seq<RecordV>, m: Seq<char>) -> Seq<LinkV>
    decreases records.len(),
{
    if records.len() == 0 {
        Seq::empty()
    } else {
        let prev = spec_collect_links(records.drop_last(), m);
        let r = records.last();
        if r.module == m {
            prev.push(LinkV { name: r.name, slug: spec_slug(r.module, r.name) })
        } else {
            prev
        }
    }
}

/// The related-items list offered to every page of module `m`: the
/// module's records as (name, slug) links, sorted.
pub open spec fn spec_related(records: Seq<RecordV>, m: Seq<char>) -> Seq<LinkV> {
    spec_sort_links(spec_collect_links(records, m))
}

/// Build the sorted related-items list for one module.
#[verifier::loop_isolation(false)]
pub fn related_for(records: &Vec<SymbolRecord>, m: &Vec<char>) -> (r: Vec<RelatedLink>)
    ensures
        r.deep_view() == spec_related(records.deep_view(), m@),
{
    let ghost rv = records.deep_view();
    let mut links: Vec<RelatedLink> = Vec::new();
    let mut i: usize = 0;
    proof {
        assert(links.deep_view() =~= Seq::<LinkV>::empty());
        assert(rv.take(0) =~= Seq::<RecordV>::empty());
    }
    while i < records.len()
        invariant
            i <= records@.len(),
            records.deep_view() == rv,
            links.deep_view() == spec_collect_links(rv.take(i as int), m@),
        decreases records@.len() - i,
    {
        let rec = &records[i];
        proof {
            assert(rv[i as int] == records@[i as int]@);
        }
        if crate::text::chars_eq(&rec.module, m) {
            let slug = symbol_slug(rec);
            let name = crate::scan::copy_chars(&rec.name);
            let ghost before = links.deep_view();
            links.push(RelatedLink { name: name, slug: slug });
            proof {
                assert(links.deep_view() =~= before.push(
                    LinkV { name: rv[i as int].name, slug: spec_slug(rv[i as int].module, rv[i as int].name) },
                ));
            }
        }
        i = i + 1;
        proof {
            assert(rv.take(i as int).drop_last() =~= rv.take(i - 1));
            assert(rv.take(i as int).last() == rv[i - 1]);
        }
    }
    proof {
        assert(rv.take(rv.len() as int) =~= rv);
    }
    let ghost collected = links.deep_view();
    let mut sorted: Vec<RelatedLink> = Vec::new();
    let mut v = links;
    while v.len() > 0
        invariant
            v@.len() <= collected.len(),
            v.deep_view() =~= collected.skip(collected.len() - v@.len()),
            sorted.deep_view() == spec_sort_links(collected.take(collected.len() - v@.len())),
        decreases v@.len(),
    {
        let ghost k = collected.len() - v@.len();
        let ghost vseq = v@;
        let ghost vd = v.deep_view();
        let x = v.remove(0);
        proof {
            assert(x == vseq[0]);
            assert(vd[0] == vseq[0].deep_view());
            assert(x@ == collected[k]);
            assert(forall|ii: int|
                0 <= ii < v@.len() ==> #[trigger] v.deep_view()[ii] == vd[ii + 1]);
            assert(v.deep_view() =~= collected.skip(k + 1));
            assert(collected.take(k + 1).drop_last() =~= collected.take(k));
            assert(collected.take(k + 1).last() == collected[k]);
        }
        insert_link(&mut sorted, x);
    }
    proof {
        assert(collected.take(collected.len() as int) =~= collected);
    }
    sorted
}

} // verus!
