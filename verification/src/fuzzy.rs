//! Pure parsing behind the interactive finder: context file names,
//! and the next-actions table inside a context file.

use vstd::prelude::*;

use crate::scan::spec_lines;
use crate::scan::split_lines;
use crate::text::chars_to_string;
use crate::text::contains_char;
use crate::text::find_char;
use crate::text::has_prefix_str;
use crate::text::spec_contains_char;
use crate::text::spec_find_char;
use crate::text::spec_has_prefix;
use crate::text::spec_has_suffix;
use crate::text::spec_split_char;
use crate::text::spec_to_lower;
use crate::text::spec_trim;
use crate::text::split_char;
use crate::text::str_chars;
use crate::text::strip_suffix_str;
use crate::text::subvec;
use crate::text::to_lower;
use crate::text::trim;

verus! {

/// The context id and title encoded in a context file name: the stem
/// before the extension splits at its first hyphen into an id, which
/// must carry an underscore, and a title.
pub open spec fn spec_parse_context_filename(f: Seq<char>) -> Option<(Seq<char>, Seq<char>)> {
    if !spec_has_suffix(f, ".md"@) {
        None
    } else {
        let name = f.take(f.len() - 3);
        match spec_find_char(name, '-') {
            Some(i) => {
                let id = name.take(i);
                let title = name.skip(i + 1);
                if spec_contains_char(id, '_') {
                    Some((id, title))
                } else {
                    None
                }
            },
            None => None,
        }
    }
}

/// Parse a context filename into its id and title.
pub fn parse_context_filename(filename: &str) -> (r: Option<(String, String)>)
    ensures
        match r {
            Some(p) => spec_parse_context_filename(filename@) == Some((p.0@, p.1@)),
            None => spec_parse_context_filename(filename@) is None,
        },
{
    let f = str_chars(filename);
    proof {
        reveal_strlit(".md");
    }
    let name = match strip_suffix_str(&f, ".md") {
        Some(n) => n,
        None => {
            return None;
        },
    };
    let nlen = name.len();
    match find_char(&name, '-') {
        Some(i) => {
            let id = subvec(&name, 0, i);
            let title = subvec(&name, i + 1, nlen);
            proof {
                assert(name@.subrange(0, i as int) =~= name@.take(i as int));
                assert(name@.subrange(i + 1, name@.len() as int) =~= name@.skip(i + 1));
            }
            if contains_char(&id, '_') {
                Some((chars_to_string(&id), chars_to_string(&title)))
            } else {
                None
            }
        },
        None => None,
    }
}

/// `s` with every leading copy of `c` removed.
pub open spec fn spec_trim_char_start(s: Seq<char>, c: char) -> Seq<char>
    decreases s.len(),
{
    if s.len() > 0 && s.first() == c {
        spec_trim_char_start(s.drop_first(), c)
    } else {
        s
    }
}

/// `s` with every trailing copy of `c` removed.
pub open spec fn spec_trim_char_end(s: Seq<char>, c: char) -> Seq<char>
    decreases s.len(),
{
    if s.len() > 0 && s.last() == c {
        spec_trim_char_end(s.drop_last(), c)
    } else {
        s
    }
}

/// `s` with every copy of `c` removed from both ends.
pub open spec fn spec_trim_char(s: Seq<char>, c: char) -> Seq<char> {
    spec_trim_char_end(spec_trim_char_start(s, c), c)
}

proof fn lemma_trim_char_start_at(s: Seq<char>, c: char, i: int)
    requires
        0 <= i <= s.len(),
        forall|j: int| 0 <= j < i ==> s[j] == c,
        i == s.len() || s[i] != c,
    ensures
        spec_trim_char_start(s, c) == s.skip(i),
    decreases i,
{
    if i == 0 {
        assert(s.skip(0) =~= s);
    } else {
        lemma_trim_char_start_at(s.drop_first(), c, i - 1);
        assert(s.drop_first().skip(i - 1) =~= s.skip(i));
    }
}

proof fn lemma_trim_char_end_at(s: Seq<char>, c: char, i: int)
    requires
        0 <= i <= s.len(),
        forall|j: int| i <= j < s.len() ==> s[j] == c,
        i == 0 || s[i - 1] != c,
    ensures
        spec_trim_char_end(s, c) == s.take(i),
    decreases s.len() - i,
{
    if i == s.len() {
        assert(s.take(i) =~= s);
    } else {
        lemma_trim_char_end_at(s.drop_last(), c, i);
        assert(s.drop_last().take(i) =~= s.take(i));
    }
}

/// Remove every copy of `c` from both ends of `v`.
#[verifier::loop_isolation(false)]
pub fn trim_char(v: &Vec<char>, c: char) -> (r: Vec<char>)
    ensures
        r@ == spec_trim_char(v@, c),
{
    let mut lo: usize = 0;
    while lo < v.len() && v[lo] == c
        invariant
            lo <= v@.len(),
            forall|j: int| 0 <= j < lo ==> v@[j] == c,
        decreases v@.len() - lo,
    {
        lo = lo + 1;
    }
    proof {
        lemma_trim_char_start_at(v@, c, lo as int);
    }
    let mid = subvec(v, lo, v.len());
    proof {
        assert(v@.subrange(lo as int, v@.len() as int) =~= v@.skip(lo as int));
    }
    let mut hi: usize = mid.len();
    while hi > 0 && mid[hi - 1] == c
        invariant
            hi <= mid@.len(),
            forall|j: int| hi <= j < mid@.len() ==> mid@[j] == c,
        decreases hi,
    {
        hi = hi - 1;
    }
    proof {
        lemma_trim_char_end_at(mid@, c, hi as int);
    }
    let r = subvec(&mid, 0, hi);
    proof {
        assert(mid@.subrange(0, hi as int) =~= mid@.take(hi as int));
    }
    r
}

/// Each piece trimmed of whitespace.
pub open spec fn spec_trim_all(ps: Seq<Seq<char>>) -> Seq<Seq<char>>
    decreases ps.len(),
{
    if ps.len() == 0 {
        Seq::empty()
    } else {
        spec_trim_all(ps.drop_last()).push(spec_trim(ps.last()))
    }
}

/// Trim every piece.
#[verifier::loop_isolation(false)]
fn trim_all(ps: &Vec<Vec<char>>) -> (r: Vec<Vec<char>>)
    ensures
        r.deep_view() == spec_trim_all(ps.deep_view()),
{
    let ghost pv = ps.deep_view();
    let mut out: Vec<Vec<char>> = Vec::new();
    let mut i: usize = 0;
    proof {
        assert(out.deep_view() =~~= spec_trim_all(pv.take(0)));
    }
    while i < ps.len()
        invariant
            i <= ps@.len(),
            ps.deep_view() == pv,
            out.deep_view() =~~= spec_trim_all(pv.take(i as int)),
        decreases ps@.len() - i,
    {
        proof {
            assert(pv[i as int] == ps@[i as int]@);
        }
        let t = trim(&ps[i]);
        out.push(t);
        i = i + 1;
        proof {
            assert(pv.take(i as int).drop_last() =~= pv.take(i - 1));
            assert(pv.take(i as int).last() == pv[i - 1]);
            assert(out.deep_view() =~~= spec_trim_all(pv.take(i as int)));
        }
    }
    proof {
        assert(pv.take(pv.len() as int) =~= pv);
    }
    out
}

/// The trimmed cells of a table row: the row stripped of its outer
/// pipes, split on the remaining pipes, each cell trimmed.
pub open spec fn spec_row_cells(line: Seq<char>) -> Seq<Seq<char>> {
    spec_trim_all(spec_split_char(spec_trim_char(line, '|'), '|'))
}

/// Whether a trimmed, lowercased first cell marks a header row.
pub open spec fn spec_is_header_cell(c: Seq<char>) -> bool {
    c == "test"@ || c == "action"@ || spec_contains_char(c, '-') || c == "description"@
}

/// One line's effect on the next-actions scan: the section heading
/// opens the table, a later heading closes the scan for good, a
/// header-looking row arms the scan, and an armed two-cell row yields
/// an action whose test name is the shorter cell.
pub open spec fn spec_action_line_step(
    in_table: bool,
    header_seen: bool,
    done: bool,
    raw: Seq<char>,
) -> (bool, bool, bool, Option<(Seq<char>, Seq<char>)>) {
    let line = spec_trim(raw);
    if done {
        (in_table, header_seen, done, None::<(Seq<char>, Seq<char>)>)
    } else if spec_has_prefix(line, "## Next Actions"@) || spec_has_prefix(
        line,
        "## Next actions"@,
    ) {
        (true, header_seen, false, None::<(Seq<char>, Seq<char>)>)
    } else if in_table {
        if spec_has_prefix(line, "##"@) {
            (in_table, header_seen, true, None::<(Seq<char>, Seq<char>)>)
        } else if line.len() > 0 && line.first() == '|' && line.last() == '|' {
            let cells = spec_row_cells(line);
            if cells.len() >= 2 {
                let first_cell = spec_to_lower(cells[0]);
                if spec_is_header_cell(first_cell) {
                    (in_table, true, done, None::<(Seq<char>, Seq<char>)>)
                } else if header_seen && cells[0].len() > 0 && cells[1].len() > 0 {
                    if cells[0].len() < cells[1].len() {
                        (in_table, header_seen, done, Some((cells[0], cells[1])))
                    } else {
                        (in_table, header_seen, done, Some((cells[1], cells[0])))
                    }
                } else {
                    (in_table, header_seen, done, None::<(Seq<char>, Seq<char>)>)
                }
            } else {
                (in_table, header_seen, done, None::<(Seq<char>, Seq<char>)>)
            }
        } else {
            (in_table, header_seen, done, None::<(Seq<char>, Seq<char>)>)
        }
    } else {
        (in_table, header_seen, done, None::<(Seq<char>, Seq<char>)>)
    }
}

/// The actions found after scanning `lines` in order.
pub open spec fn spec_actions_scan(
    st: (bool, bool, bool),
    lines: Seq<Seq<char>>,
) -> ((bool, bool, bool), Seq<(Seq<char>, Seq<char>)>)
    decreases lines.len(),
{
    if lines.len() == 0 {
        (st, Seq::empty())
    } else {
        let prev = spec_actions_scan(st, lines.drop_last());
        let step = spec_action_line_step(prev.0.0, prev.0.1, prev.0.2, lines.last());
        (
            (step.0, step.1, step.2),
            match step.3 {
                Some(p) => prev.1.push(p),
                None => prev.1,
            },
        )
    }
}

/// Every action in a context file's next-actions table: each entry's
/// test name and description, in table order.
pub open spec fn spec_parse_next_actions(content: Seq<char>) -> Seq<(Seq<char>, Seq<char>)> {
    spec_actions_scan((false, false, false), spec_lines(content)).1
}

/// Scan one trimmed line of a context file.
fn action_line_step(
    in_table: &mut bool,
    header_seen: &mut bool,
    done: &mut bool,
    raw: &Vec<char>,
) -> (r: Option<(String, String)>)
    ensures
        ({
            let step = spec_action_line_step(*old(in_table), *old(header_seen), *old(done), raw@);
            &&& *final(in_table) == step.0
            &&& *final(header_seen) == step.1
            &&& *final(done) == step.2
            &&& (match r {
                Some(p) => step.3 == Some((p.0@, p.1@)),
                None => step.3 is None,
            })
        }),
{
    let line = trim(raw);
    if *done {
        return None;
    }
    if has_prefix_str(&line, "## Next Actions") || has_prefix_str(&line, "## Next actions") {
        *in_table = true;
        return None;
    }
    if !*in_table {
        return None;
    }
    if has_prefix_str(&line, "##") {
        *done = true;
        return None;
    }
    let llen = line.len();
    if llen > 0 && line[0] == '|' && line[llen - 1] == '|' {
        let inner = trim_char(&line, '|');
        let pieces = split_char(&inner, '|');
        let cells = trim_all(&pieces);
        proof {
            assert(cells.deep_view() == spec_row_cells(line@));
        }
        if cells.len() >= 2 {
            proof {
                assert(cells.deep_view()[0] == cells@[0]@);
                assert(cells.deep_view()[1] == cells@[1]@);
            }
            let first_cell = to_lower(&cells[0]);
            let header = crate::text::chars_eq_str(&first_cell, "test") || crate::text::chars_eq_str(
                &first_cell,
                "action",
            ) || contains_char(&first_cell, '-') || crate::text::chars_eq_str(
                &first_cell,
                "description",
            );
            if header {
                *header_seen = true;
                return None;
            }
            if *header_seen && cells[0].len() > 0 && cells[1].len() > 0 {
                let c0 = crate::scan::copy_chars(&cells[0]);
                let c1 = crate::scan::copy_chars(&cells[1]);
                if c0.len() < c1.len() {
                    return Some((chars_to_string(&c0), chars_to_string(&c1)));
                } else {
                    return Some((chars_to_string(&c1), chars_to_string(&c0)));
                }
            }
        }
        None
    } else {
        None
    }
}

/// The metadata shown for one context: its id, project, title and
/// status.
pub struct ContextSummary {
    pub id: String,
    pub project: String,
    pub title: String,
    pub status: String,
}

/// The value of a front-matter field line: the text between the first
/// and second colon, trimmed; a given fallback when the line has no
/// colon.
pub open spec fn spec_field_value(line: Seq<char>, dflt: Seq<char>) -> Seq<char> {
    let pieces = spec_split_char(line, ':');
    if pieces.len() >= 2 {
        spec_trim(pieces[1])
    } else {
        dflt
    }
}

/// The running result of a summary scan.
pub struct SummaryV {
    pub in_fm: bool,
    pub id: Seq<char>,
    pub project: Seq<char>,
    pub title: Seq<char>,
    pub done: bool,
}

/// One line's effect on the summary scan: a front-matter fence opens
/// the front matter, field lines inside it set the fields, and the
/// first heading outside it supplies the title after its colon when
/// none was set, ending the scan.
pub open spec fn spec_summary_step(st: SummaryV, raw: Seq<char>, fallback: Seq<char>) -> SummaryV {
    if st.done {
        st
    } else if spec_trim(raw) == "---"@ {
        if !st.in_fm {
            SummaryV { in_fm: true, ..st }
        } else {
            st
        }
    } else if st.in_fm {
        if spec_has_prefix(raw, "context_id:"@) {
            SummaryV { id: spec_field_value(raw, fallback), ..st }
        } else if spec_has_prefix(raw, "title:"@) {
            SummaryV { title: spec_field_value(raw, "Unknown"@), ..st }
        } else if spec_has_prefix(raw, "project:"@) {
            SummaryV { project: spec_field_value(raw, "unknown"@), ..st }
        } else {
            st
        }
    } else if spec_has_prefix(raw, "# "@) && st.title == "Unknown"@ {
        let pieces = spec_split_char(raw, ':');
        let t = if pieces.len() >= 2 {
            spec_trim(crate::text::spec_join(pieces.drop_first(), ":"@))
        } else {
            st.title
        };
        SummaryV { title: t, done: true, ..st }
    } else {
        st
    }
}

/// The summary state after scanning `lines` in order.
pub open spec fn spec_summary_scan(st: SummaryV, lines: Seq<Seq<char>>, fallback: Seq<char>) -> SummaryV
    decreases lines.len(),
{
    if lines.len() == 0 {
        st
    } else {
        spec_summary_step(spec_summary_scan(st, lines.drop_last(), fallback), lines.last(), fallback)
    }
}

/// The summary a context file yields: fields read from its front
/// matter or its first heading, with fixed fallbacks and a fixed
/// pending status.
pub open spec fn spec_parse_context_summary(content: Seq<char>, fallback: Seq<char>) -> SummaryV {
    spec_summary_scan(
        SummaryV {
            in_fm: false,
            id: fallback,
            project: "unknown"@,
            title: "Unknown"@,
            done: false,
        },
        spec_lines(content),
        fallback,
    )
}

/// The field value of one front-matter line.
fn field_value(line: &Vec<char>, dflt: &str) -> (r: Vec<char>)
    ensures
        r@ == spec_field_value(line@, dflt@),
{
    let pieces = split_char(line, ':');
    proof {
        assert(pieces.deep_view() == spec_split_char(line@, ':'));
    }
    if pieces.len() >= 2 {
        proof {
            assert(pieces.deep_view()[1] == pieces@[1]@);
        }
        trim(&pieces[1])
    } else {
        str_chars(dflt)
    }
}

/// Read the summary fields out of a context file's text.
#[verifier::loop_isolation(false)]
pub fn parse_context_summary(content: &str, context_id: &str) -> (r: ContextSummary)
    ensures
        ({
            let s = spec_parse_context_summary(content@, context_id@);
            &&& r.id@ == s.id
            &&& r.project@ == s.project
            &&& r.title@ == s.title
            &&& r.status@ == "pending"@
        }),
{
    let cv = str_chars(content);
    let lines = split_lines(&cv);
    let ghost lv = lines.deep_view();
    let ghost fallback = context_id@;
    let mut in_fm = false;
    let mut id = str_chars(context_id);
    let mut project = str_chars("unknown");
    let mut title = str_chars("Unknown");
    let mut done = false;
    let mut i: usize = 0;
    proof {
        assert(lv.take(0) =~= Seq::<Seq<char>>::empty());
    }
    while i < lines.len()
        invariant
            i <= lines@.len(),
            lines.deep_view() == lv,
            (SummaryV {
                in_fm: in_fm,
                id: id@,
                project: project@,
                title: title@,
                done: done,
            }) == spec_summary_scan(
                SummaryV {
                    in_fm: false,
                    id: fallback,
                    project: "unknown"@,
                    title: "Unknown"@,
                    done: false,
                },
                lv.take(i as int),
                fallback,
            ),
        decreases lines@.len() - i,
    {
        proof {
            assert(lv[i as int] == lines@[i as int]@);
        }
        let raw = &lines[i];
        if !done {
            let t = trim(raw);
            if crate::text::chars_eq_str(&t, "---") {
                if !in_fm {
                    in_fm = true;
                }
            } else if in_fm {
                if has_prefix_str(raw, "context_id:") {
                    id = field_value(raw, context_id);
                } else if has_prefix_str(raw, "title:") {
                    title = field_value(raw, "Unknown");
                } else if has_prefix_str(raw, "project:") {
                    project = field_value(raw, "unknown");
                }
            } else if has_prefix_str(raw, "# ") && crate::text::chars_eq_str(&title, "Unknown") {
                let mut pieces = split_char(raw, ':');
                proof {
                    assert(pieces.deep_view() == spec_split_char(raw@, ':'));
                }
                if pieces.len() >= 2 {
                    let ghost pd = pieces.deep_view();
                    pieces.remove(0);
                    proof {
                        assert(pieces.deep_view() =~~= pd.drop_first());
                    }
                    let joined = crate::text::join_sep(&pieces, ":");
                    title = trim(&joined);
                }
                done = true;
            }
        }
        i = i + 1;
        proof {
            assert(lv.take(i as int).drop_last() =~= lv.take(i - 1));
            assert(lv.take(i as int).last() == lv[i - 1]);
        }
    }
    proof {
        assert(lv.take(lv.len() as int) =~= lv);
    }
    ContextSummary {
        id: chars_to_string(&id),
        project: chars_to_string(&project),
        title: chars_to_string(&title),
        status: chars_to_string(&str_chars("pending")),
    }
}

/// Extract the next-actions table from a context file's text: each
/// action's test name and description, in table order.
#[verifier::loop_isolation(false)]
pub fn parse_next_actions(content: &str) -> (r: Vec<(String, String)>)
    ensures
        r.deep_view() == spec_parse_next_actions(content@),
{
    let cv = str_chars(content);
    let lines = split_lines(&cv);
    let ghost lv = lines.deep_view();
    let mut in_table = false;
    let mut header_seen = false;
    let mut done = false;
    let mut items: Vec<(String, String)> = Vec::new();
    let mut i: usize = 0;
    proof {
        assert(lv.take(0) =~= Seq::<Seq<char>>::empty());
        assert(items.deep_view() =~= Seq::<(Seq<char>, Seq<char>)>::empty());
    }
    while i < lines.len()
        invariant
            i <= lines@.len(),
            lines.deep_view() == lv,
            (
                (in_table, header_seen, done),
                items.deep_view(),
            ) == spec_actions_scan((false, false, false), lv.take(i as int)),
        decreases lines@.len() - i,
    {
        proof {
            assert(lv[i as int] == lines@[i as int]@);
        }
        let ghost before = items.deep_view();
        let r = action_line_step(&mut in_table, &mut header_seen, &mut done, &lines[i]);
        if let Some(p) = r {
            items.push(p);
            proof {
                assert(items.deep_view() =~~= before.push(
                    (items@[items@.len() - 1].0@, items@[items@.len() - 1].1@),
                ));
            }
        }
        i = i + 1;
        proof {
            assert(lv.take(i as int).drop_last() =~= lv.take(i - 1));
            assert(lv.take(i as int).last() == lv[i - 1]);
        }
    }
    proof {
        assert(lv.take(lv.len() as int) =~= lv);
    }
    items
}

} // verus!
