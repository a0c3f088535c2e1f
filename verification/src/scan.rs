//! The line-oriented symbol extractor: a single forward pass over a
//! file's lines that buffers pending doc comments, tracks brace
//! nesting, keeps a stack of enclosing-type contexts, and emits one
//! record per recognized public declaration plus one module record.

use vstd::prelude::*;

use crate::records::RecordV;
use crate::records::SymbolKind;
use crate::records::SymbolRecord;
use crate::text::find_char;
use crate::text::find_str;
use crate::text::has_prefix_str;
use crate::text::is_space;
use crate::text::is_space_char;
use crate::text::join_sep;
use crate::text::push_all;
use crate::text::push_str_chars;
use crate::text::replace_str;
use crate::text::spec_find_char;
use crate::text::spec_find_seq;
use crate::text::spec_has_prefix;
use crate::text::spec_join;
use crate::text::spec_replace;
use crate::text::spec_trim;
use crate::text::spec_trim_start;
use crate::text::str_chars;
use crate::text::strip_prefix_str;
use crate::text::subvec;
use crate::text::trim;
use crate::text::trim_start;

verus! {

/// Documentation text used when a declaration has no doc comment.
pub open spec fn spec_placeholder_docs() -> Seq<char> {
    "No additional documentation available yet."@
}

/// The fixed placeholder for undocumented declarations.
pub fn placeholder_docs() -> (r: Vec<char>)
    ensures
        r@ == spec_placeholder_docs(),
{
    str_chars("No additional documentation available yet.")
}

/// A character an identifier may consist of.
pub open spec fn is_ident_char(c: char) -> bool {
    c == '_' || ('a' <= c && c <= 'z') || ('A' <= c && c <= 'Z') || ('0' <= c && c <= '9')
}

fn ident_char(c: char) -> (r: bool)
    ensures
        r == is_ident_char(c),
{
    c == '_' || ('a' <= c && c <= 'z') || ('A' <= c && c <= 'Z') || ('0' <= c && c <= '9')
}

/// The longest identifier prefix of `s`.
pub open spec fn spec_ident_prefix(s: Seq<char>) -> Seq<char>
    decreases s.len(),
{
    if s.len() > 0 && is_ident_char(s.first()) {
        seq![s.first()] + spec_ident_prefix(s.drop_first())
    } else {
        Seq::empty()
    }
}

proof fn lemma_ident_prefix_at(s: Seq<char>, i: int)
    requires
        0 <= i <= s.len(),
        forall|j: int| 0 <= j < i ==> is_ident_char(s[j]),
        i == s.len() || !is_ident_char(s[i]),
    ensures
        spec_ident_prefix(s) == s.take(i),
    decreases i,
{
    if i == 0 {
        assert(s.take(0) =~= Seq::<char>::empty());
    } else {
        lemma_ident_prefix_at(s.drop_first(), i - 1);
        assert(seq![s.first()] + s.drop_first().take(i - 1) =~= s.take(i));
    }
}

/// The declared identifier at the front of `s`: the longest run of
/// identifier characters, or nothing when that run is empty.
pub open spec fn spec_parse_ident(s: Seq<char>) -> Option<Seq<char>> {
    if spec_ident_prefix(s).len() == 0 {
        None
    } else {
        Some(spec_ident_prefix(s))
    }
}

/// Extract the identifier at the front of `v`, if any.
#[verifier::loop_isolation(false)]
pub fn parse_ident(v: &Vec<char>) -> (r: Option<Vec<char>>)
    ensures
        match r {
            Some(name) => spec_parse_ident(v@) == Some(name@),
            None => spec_parse_ident(v@) is None,
        },
{
    let mut i: usize = 0;
    while i < v.len() && ident_char(v[i])
        invariant
            i <= v@.len(),
            forall|j: int| 0 <= j < i ==> is_ident_char(v@[j]),
        decreases v@.len() - i,
    {
        i = i + 1;
    }
    proof {
        lemma_ident_prefix_at(v@, i as int);
    }
    if i == 0 {
        None
    } else {
        Some(subvec(v, 0, i))
    }
}

/// The longest run of non-whitespace characters at the front of `s`.
pub open spec fn spec_nonspace_prefix(s: Seq<char>) -> Seq<char>
    decreases s.len(),
{
    if s.len() > 0 && !is_space_char(s.first()) {
        seq![s.first()] + spec_nonspace_prefix(s.drop_first())
    } else {
        Seq::empty()
    }
}

proof fn lemma_nonspace_prefix_at(s: Seq<char>, i: int)
    requires
        0 <= i <= s.len(),
        forall|j: int| 0 <= j < i ==> !is_space_char(s[j]),
        i == s.len() || is_space_char(s[i]),
    ensures
        spec_nonspace_prefix(s) == s.take(i),
    decreases i,
{
    if i == 0 {
        assert(s.take(0) =~= Seq::<char>::empty());
    } else {
        lemma_nonspace_prefix_at(s.drop_first(), i - 1);
        assert(seq![s.first()] + s.drop_first().take(i - 1) =~= s.take(i));
    }
}

/// The first whitespace-delimited token of `v`.
#[verifier::loop_isolation(false)]
fn nonspace_prefix(v: &Vec<char>) -> (r: Vec<char>)
    ensures
        r@ == spec_nonspace_prefix(v@),
{
    let mut i: usize = 0;
    while i < v.len() && !is_space(v[i])
        invariant
            i <= v@.len(),
            forall|j: int| 0 <= j < i ==> !is_space_char(v@[j]),
        decreases v@.len() - i,
    {
        i = i + 1;
    }
    proof {
        lemma_nonspace_prefix_at(v@, i as int);
    }
    subvec(v, 0, i)
}

/// An enclosing-type name sanitized to a bare path segment: the text
/// before any opening brace, its first whitespace token (or `Type`
/// when there is none), with path separators and commas replaced by
/// underscores, `<` replaced and `>` removed.
pub open spec fn spec_clean_type_name(s: Seq<char>) -> Seq<char> {
    let base = match spec_find_char(s, '{') {
        Some(i) => s.take(i),
        None => s,
    };
    let tok = spec_nonspace_prefix(spec_trim_start(base));
    let tok2 = if tok.len() == 0 {
        "Type"@
    } else {
        tok
    };
    spec_replace(
        spec_replace(spec_replace(spec_replace(tok2, "::"@, "_"@), "<"@, "_"@), ">"@, ""@),
        ","@,
        "_"@,
    )
}

/// Sanitize an enclosing-type name to a bare path segment.
pub fn clean_type_name(v: &Vec<char>) -> (r: Vec<char>)
    ensures
        r@ == spec_clean_type_name(v@),
{
    let base = match find_char(v, '{') {
        Some(i) => subvec(v, 0, i),
        None => subvec(v, 0, v.len()),
    };
    proof {
        if spec_find_char(v@, '{') is None {
            assert(v@.subrange(0, v@.len() as int) =~= v@);
        }
    }
    let ts = trim_start(&base);
    let tok = nonspace_prefix(&ts);
    let tok2 = if tok.len() == 0 {
        str_chars("Type")
    } else {
        tok
    };
    proof {
        reveal_strlit("::");
        reveal_strlit("<");
        reveal_strlit(">");
        reveal_strlit(",");
    }
    let r1 = replace_str(&tok2, "::", "_");
    let r2 = replace_str(&r1, "<", "_");
    let r3 = replace_str(&r2, ">", "");
    replace_str(&r3, ",", "_")
}

/// The enclosing-type name opened by `line`, when the line begins an
/// implementation block: the right-hand side of a `for` clause when
/// present, otherwise the first token after the keyword, skipping a
/// leading generic-parameter clause.
pub open spec fn spec_parse_impl_target(line: Seq<char>) -> Option<Seq<char>> {
    let t = spec_trim(line);
    if !spec_has_prefix(t, "impl"@) {
        None
    } else {
        match spec_find_seq(t, " for "@) {
            Some(pos) => Some(spec_clean_type_name(spec_trim(t.skip(pos + 5)))),
            None => {
                let after = spec_trim(t.skip(4));
                if after.len() > 0 && after.first() == '<' {
                    match spec_find_char(after, '>') {
                        Some(end) => Some(spec_clean_type_name(spec_trim(after.skip(end + 1)))),
                        None => Some(spec_clean_type_name(after)),
                    }
                } else {
                    Some(spec_clean_type_name(after))
                }
            },
        }
    }
}

/// Recognize a line that opens an enclosing-type context.
pub fn parse_impl_target(line: &Vec<char>) -> (r: Option<Vec<char>>)
    ensures
        match r {
            Some(t) => spec_parse_impl_target(line@) == Some(t@),
            None => spec_parse_impl_target(line@) is None,
        },
{
    let t = trim(line);
    if !has_prefix_str(&t, "impl") {
        return None;
    }
    proof {
        reveal_strlit(" for ");
        reveal_strlit("impl");
    }
    let tlen = t.len();
    match find_str(&t, " for ") {
        Some(pos) => {
            let rhs = subvec(&t, pos + 5, tlen);
            proof {
                assert(t@.subrange(pos + 5, t@.len() as int) =~= t@.skip(pos + 5));
            }
            let rhs_t = trim(&rhs);
            Some(clean_type_name(&rhs_t))
        },
        None => {
            let rest = subvec(&t, 4, t.len());
            proof {
                assert(t@.subrange(4, t@.len() as int) =~= t@.skip(4));
            }
            let after = trim(&rest);
            if after.len() > 0 && after[0] == '<' {
                match find_char(&after, '>') {
                    Some(end) => {
                        let rhs = subvec(&after, end + 1, after.len());
                        proof {
                            assert(after@.subrange(end + 1, after@.len() as int) =~= after@.skip(
                                end + 1,
                            ));
                        }
                        let rhs_t = trim(&rhs);
                        Some(clean_type_name(&rhs_t))
                    },
                    None => Some(clean_type_name(&after)),
                }
            } else {
                Some(clean_type_name(&after))
            }
        },
    }
}

/// A recognized public declaration: its kind, its identifier and the
/// trimmed declaration line.
pub open spec fn spec_parse_public_symbol(line: Seq<char>) -> Option<
    (SymbolKind, Seq<char>, Seq<char>),
> {
    let t = spec_trim(line);
    if spec_has_prefix(t, "pub struct "@) {
        match spec_parse_ident(t.skip(11)) {
            Some(name) => Some((SymbolKind::Struct, name, t)),
            None => None,
        }
    } else if spec_has_prefix(t, "pub enum "@) {
        match spec_parse_ident(t.skip(9)) {
            Some(name) => Some((SymbolKind::Enum, name, t)),
            None => None,
        }
    } else if spec_has_prefix(t, "pub trait "@) {
        match spec_parse_ident(t.skip(10)) {
            Some(name) => Some((SymbolKind::Trait, name, t)),
            None => None,
        }
    } else if spec_has_prefix(t, "pub fn "@) {
        match spec_parse_ident(t.skip(7)) {
            Some(name) => Some((SymbolKind::Fn, name, t)),
            None => None,
        }
    } else {
        None
    }
}

/// Recognize one of the four public declaration forms on `line`.
pub fn parse_public_symbol(line: &Vec<char>) -> (r: Option<(SymbolKind, Vec<char>, Vec<char>)>)
    ensures
        match r {
            Some(p) => spec_parse_public_symbol(line@) == Some((p.0, p.1@, p.2@)),
            None => spec_parse_public_symbol(line@) is None,
        },
{
    let t = trim(line);
    if let Some(rest) = strip_prefix_str(&t, "pub struct ") {
        proof {
            reveal_strlit("pub struct ");
        }
        match parse_ident(&rest) {
            Some(name) => Some((SymbolKind::Struct, name, t)),
            None => None,
        }
    } else if let Some(rest) = strip_prefix_str(&t, "pub enum ") {
        proof {
            reveal_strlit("pub struct ");
            reveal_strlit("pub enum ");
        }
        match parse_ident(&rest) {
            Some(name) => Some((SymbolKind::Enum, name, t)),
            None => None,
        }
    } else if let Some(rest) = strip_prefix_str(&t, "pub trait ") {
        proof {
            reveal_strlit("pub struct ");
            reveal_strlit("pub enum ");
            reveal_strlit("pub trait ");
        }
        match parse_ident(&rest) {
            Some(name) => Some((SymbolKind::Trait, name, t)),
            None => None,
        }
    } else if let Some(rest) = strip_prefix_str(&t, "pub fn ") {
        proof {
            reveal_strlit("pub struct ");
            reveal_strlit("pub enum ");
            reveal_strlit("pub trait ");
            reveal_strlit("pub fn ");
        }
        match parse_ident(&rest) {
            Some(name) => Some((SymbolKind::Fn, name, t)),
            None => None,
        }
    } else {
        None
    }
}

/// Copy of a character vector.
pub fn copy_chars(v: &Vec<char>) -> (r: Vec<char>)
    ensures
        r@ == v@,
{
    let r = subvec(v, 0, v.len());
    proof {
        assert(v@.subrange(0, v@.len() as int) =~= v@);
    }
    r
}

/// One open enclosing-type context: the brace depth at which it will
/// close, and the sanitized type name.
pub struct ImplFrame {
    pub depth: usize,
    pub name: Vec<char>,
}

/// The mathematical value of a context frame.
pub struct FrameV {
    pub depth: int,
    pub name: Seq<char>,
}

impl View for ImplFrame {
    type V = FrameV;

    open spec fn view(&self) -> FrameV {
        FrameV { depth: self.depth as int, name: self.name@ }
    }
}

impl DeepView for ImplFrame {
    type V = FrameV;

    open spec fn deep_view(&self) -> FrameV {
        self.view()
    }
}

/// The scanner's whole state between lines: buffered doc comments for
/// the next declaration, buffered module docs, the brace depth, and
/// the stack of open enclosing-type contexts.
pub struct ScanState {
    pub pending_docs: Vec<Vec<char>>,
    pub module_docs: Vec<Vec<char>>,
    pub brace_depth: usize,
    pub impl_stack: Vec<ImplFrame>,
}

/// The mathematical value of the scanner state.
pub struct StateV {
    pub pending: Seq<Seq<char>>,
    pub module_docs: Seq<Seq<char>>,
    pub depth: int,
    pub stack: Seq<FrameV>,
}

impl View for ScanState {
    type V = StateV;

    open spec fn view(&self) -> StateV {
        StateV {
            pending: self.pending_docs.deep_view(),
            module_docs: self.module_docs.deep_view(),
            depth: self.brace_depth as int,
            stack: self.impl_stack.deep_view(),
        }
    }
}

/// The state at the top of a file: everything empty, depth zero.
pub open spec fn spec_initial_state() -> StateV {
    StateV {
        pending: Seq::empty(),
        module_docs: Seq::empty(),
        depth: 0,
        stack: Seq::empty(),
    }
}

impl ScanState {
    /// Fresh scanner state for one file.
    pub fn new() -> (r: ScanState)
        ensures
            r@ == spec_initial_state(),
    {
        let r = ScanState {
            pending_docs: Vec::new(),
            module_docs: Vec::new(),
            brace_depth: 0,
            impl_stack: Vec::new(),
        };
        proof {
            assert(r@.pending =~= spec_initial_state().pending);
            assert(r@.module_docs =~= spec_initial_state().module_docs);
            assert(r@.stack =~= spec_initial_state().stack);
        }
        r
    }
}

/// One character's effect on the brace depth: an opening brace
/// deepens, a closing brace shallows but never below zero. The depth
/// saturates at `usize::MAX`, which no real file can reach.
pub open spec fn spec_brace_step(d: int, c: char) -> int {
    if c == '{' {
        if d < usize::MAX {
            d + 1
        } else {
            d
        }
    } else if c == '}' {
        if d > 0 {
            d - 1
        } else {
            0
        }
    } else {
        d
    }
}

/// The brace depth after scanning all of `s`, left to right.
pub open spec fn spec_update_depth(d: int, s: Seq<char>) -> int
    decreases s.len(),
{
    if s.len() == 0 {
        d
    } else {
        spec_brace_step(spec_update_depth(d, s.drop_last()), s.last())
    }
}

/// The context stack with every frame popped whose closing depth now
/// exceeds the current depth.
pub open spec fn spec_pop_frames(stack: Seq<FrameV>, d: int) -> Seq<FrameV>
    decreases stack.len(),
{
    if stack.len() > 0 && stack.last().depth > d {
        spec_pop_frames(stack.drop_last(), d)
    } else {
        stack
    }
}

/// Count braces on `line` and close any contexts whose block ended.
#[verifier::loop_isolation(false)]
fn update_braces(state: &mut ScanState, line: &Vec<char>)
    ensures
        final(state)@.pending == old(state)@.pending,
        final(state)@.module_docs == old(state)@.module_docs,
        final(state)@.depth == spec_update_depth(old(state)@.depth, line@),
        final(state)@.stack == spec_pop_frames(
            old(state)@.stack,
            spec_update_depth(old(state)@.depth, line@),
        ),
{
    let ghost d0 = state@.depth;
    let ghost stack0 = state@.stack;
    let mut i: usize = 0;
    while i < line.len()
        invariant
            i <= line@.len(),
            state.brace_depth as int == spec_update_depth(d0, line@.take(i as int)),
            state.pending_docs.deep_view() == old(state)@.pending,
            state.module_docs.deep_view() == old(state)@.module_docs,
            state.impl_stack.deep_view() == stack0,
        decreases line@.len() - i,
    {
        let c = line[i];
        if c == '{' {
            if state.brace_depth < usize::MAX {
                state.brace_depth = state.brace_depth + 1;
            }
        } else if c == '}' {
            if state.brace_depth > 0 {
                state.brace_depth = state.brace_depth - 1;
            }
        }
        i = i + 1;
        proof {
            assert(line@.take(i as int).drop_last() =~= line@.take(i - 1));
        }
    }
    proof {
        assert(line@.take(line@.len() as int) =~= line@);
    }
    let d = state.brace_depth;
    while state.impl_stack.len() > 0 && state.impl_stack[state.impl_stack.len() - 1].depth > d
        invariant
            spec_pop_frames(stack0, d as int) == spec_pop_frames(
                state.impl_stack.deep_view(),
                d as int,
            ),
            state.brace_depth == d,
            state.pending_docs.deep_view() == old(state)@.pending,
            state.module_docs.deep_view() == old(state)@.module_docs,
        decreases state.impl_stack@.len(),
    {
        let ghost before = state.impl_stack.deep_view();
        state.impl_stack.pop();
        proof {
            assert(state.impl_stack.deep_view() =~= before.drop_last());
            assert(before.last().depth > d as int);
        }
    }
    proof {
        let cur = state.impl_stack.deep_view();
        assert(spec_pop_frames(cur, d as int) == cur);
    }
}

/// The documentation attached to a declaration: the buffered doc
/// lines joined with newlines, or the placeholder when none are
/// buffered.
pub open spec fn spec_take_docs(p: Seq<Seq<char>>) -> Seq<char> {
    if p.len() == 0 {
        spec_placeholder_docs()
    } else {
        spec_join(p, "\n"@)
    }
}

/// Consume the pending doc buffer into one documentation text.
fn take_docs(pending: &mut Vec<Vec<char>>) -> (r: Vec<char>)
    ensures
        r@ == spec_take_docs(old(pending).deep_view()),
        final(pending)@.len() == 0,
{
    if pending.len() == 0 {
        placeholder_docs()
    } else {
        let r = join_sep(pending, "\n");
        pending.clear();
        r
    }
}

/// The fully qualified reference path of a declaration: qualified by
/// the innermost open enclosing type when the declaration is a
/// function inside one.
pub open spec fn spec_symbol_path(
    module: Seq<char>,
    stack: Seq<FrameV>,
    kind: SymbolKind,
    name: Seq<char>,
) -> Seq<char> {
    if kind == SymbolKind::Fn && stack.len() > 0 {
        "crate::"@ + module + "::"@ + stack.last().name + "::"@ + name
    } else {
        "crate::"@ + module + "::"@ + name
    }
}

/// The scanner state after one line, and the record the line emits,
/// if any. This is the whole per-line transition: doc-comment lines
/// buffer their text, a context-opening line pushes a frame, a
/// recognized public declaration consumes the buffered docs into a
/// record, any other non-comment text clears the buffer, and brace
/// accounting closes contexts whose block ended.
pub open spec fn spec_line_step(
    st: StateV,
    raw: Seq<char>,
    module: Seq<char>,
    source_path: Seq<char>,
) -> (StateV, Option<RecordV>) {
    let line = spec_trim_start(raw);
    let d2 = spec_update_depth(st.depth, line);
    if spec_has_prefix(line, "//!"@) {
        (
            StateV {
                module_docs: st.module_docs.push(spec_trim(line.skip(3))),
                depth: d2,
                stack: spec_pop_frames(st.stack, d2),
                ..st
            },
            None,
        )
    } else if spec_has_prefix(line, "///"@) {
        (
            StateV {
                pending: st.pending.push(spec_trim(line.skip(3))),
                depth: d2,
                stack: spec_pop_frames(st.stack, d2),
                ..st
            },
            None,
        )
    } else {
        let stack1 = match spec_parse_impl_target(line) {
            Some(t) => st.stack.push(
                FrameV {
                    depth: if st.depth < usize::MAX {
                        st.depth + 1
                    } else {
                        st.depth
                    },
                    name: t,
                },
            ),
            None => st.stack,
        };
        let step = match spec_parse_public_symbol(line) {
            Some((kind, name, sig)) => (
                Seq::<Seq<char>>::empty(),
                Some(
                    RecordV {
                        module: module,
                        kind: kind,
                        name: name,
                        signature: sig,
                        docs: spec_take_docs(st.pending),
                        source_path: source_path,
                        symbol_path: spec_symbol_path(module, stack1, kind, name),
                    },
                ),
            ),
            None => if line.len() > 0 && !spec_has_prefix(line, "//"@) {
                (Seq::<Seq<char>>::empty(), None)
            } else {
                (st.pending, None)
            },
        };
        (
            StateV {
                pending: step.0,
                module_docs: st.module_docs,
                depth: d2,
                stack: spec_pop_frames(stack1, d2),
            },
            step.1,
        )
    }
}

/// Whether an emitted record matches its mathematical value.
pub open spec fn opt_record_matches(rec: Option<SymbolRecord>, r: Option<RecordV>) -> bool {
    match rec {
        Some(x) => r == Some(x@),
        None => r is None,
    }
}

/// Scan one raw source line, updating the state and possibly emitting
/// one record.
pub fn scan_line(
    state: &mut ScanState,
    raw: &Vec<char>,
    module: &Vec<char>,
    source_path: &Vec<char>,
) -> (rec: Option<SymbolRecord>)
    ensures
        final(state)@ == spec_line_step(old(state)@, raw@, module@, source_path@).0,
        opt_record_matches(rec, spec_line_step(old(state)@, raw@, module@, source_path@).1),
{
    let ghost st0 = state@;
    let line = trim_start(raw);
    if let Some(rest) = strip_prefix_str(&line, "//!") {
        proof {
            reveal_strlit("//!");
        }
        let t = trim(&rest);
        let ghost before = state.module_docs.deep_view();
        state.module_docs.push(t);
        proof {
            assert(state.module_docs.deep_view() =~~= before.push(t@));
        }
        update_braces(state, &line);
        return None;
    }
    if let Some(rest) = strip_prefix_str(&line, "///") {
        proof {
            reveal_strlit("//!");
            reveal_strlit("///");
        }
        let t = trim(&rest);
        let ghost before = state.pending_docs.deep_view();
        state.pending_docs.push(t);
        proof {
            assert(state.pending_docs.deep_view() =~~= before.push(t@));
        }
        update_braces(state, &line);
        return None;
    }
    proof {
        reveal_strlit("//!");
        reveal_strlit("///");
    }
    if let Some(target) = parse_impl_target(&line) {
        let d = state.brace_depth;
        let nd = if d < usize::MAX {
            d + 1
        } else {
            d
        };
        let ghost before = state.impl_stack.deep_view();
        state.impl_stack.push(ImplFrame { depth: nd, name: target });
        proof {
            assert(state.impl_stack.deep_view() =~= before.push(
                FrameV { depth: nd as int, name: spec_parse_impl_target(line@)->Some_0 },
            ));
        }
    }
    let mut rec: Option<SymbolRecord> = None;
    if let Some((kind, name, sig)) = parse_public_symbol(&line) {
        let docs = take_docs(&mut state.pending_docs);
        let mut symbol_path: Vec<char> = Vec::new();
        push_str_chars(&mut symbol_path, "crate::");
        push_all(&mut symbol_path, module);
        push_str_chars(&mut symbol_path, "::");
        let qualify = match kind {
            SymbolKind::Fn => state.impl_stack.len() > 0,
            _ => false,
        };
        if qualify {
            let top = state.impl_stack.len() - 1;
            let frame_name = copy_chars(&state.impl_stack[top].name);
            push_all(&mut symbol_path, &frame_name);
            push_str_chars(&mut symbol_path, "::");
        }
        push_all(&mut symbol_path, &name);
        proof {
            let stack1 = state.impl_stack.deep_view();
            if qualify {
                assert(stack1.last().name == state.impl_stack@[state.impl_stack@.len()
                    - 1].name@);
            }
            assert(symbol_path@ == spec_symbol_path(module@, stack1, kind, name@));
        }
        rec = Some(
            SymbolRecord {
                module: copy_chars(module),
                kind: kind,
                name: name,
                signature: sig,
                docs: docs,
                source_path: copy_chars(source_path),
                symbol_path: symbol_path,
            },
        );
    } else {
        if line.len() > 0 && !has_prefix_str(&line, "//") {
            state.pending_docs.clear();
            proof {
                assert(state.pending_docs.deep_view() =~= Seq::<Seq<char>>::empty());
            }
        }
    }
    update_braces(state, &line);
    proof {
        let (s2, r2) = spec_line_step(st0, raw@, module@, source_path@);
        assert(state@.pending =~~= s2.pending);
        assert(state@ == s2);
    }
    rec
}

/// `l` with one trailing carriage return removed, as the line
/// iterator does.
pub open spec fn spec_strip_cr(l: Seq<char>) -> Seq<char> {
    if l.len() > 0 && l.last() == '\r' {
        l.drop_last()
    } else {
        l
    }
}

/// Each piece with one trailing carriage return removed.
pub open spec fn spec_strip_cr_all(ps: Seq<Seq<char>>) -> Seq<Seq<char>>
    decreases ps.len(),
{
    if ps.len() == 0 {
        Seq::empty()
    } else {
        spec_strip_cr_all(ps.drop_last()).push(spec_strip_cr(ps.last()))
    }
}

/// The lines of `s`: pieces between newlines, a trailing carriage
/// return removed from each, and no final empty line after a final
/// newline.
pub open spec fn spec_lines(s: Seq<char>) -> Seq<Seq<char>> {
    let ps = crate::text::spec_split_char(s, '\n');
    let ps2 = if ps.last().len() == 0 {
        ps.drop_last()
    } else {
        ps
    };
    spec_strip_cr_all(ps2)
}

/// Split a file's text into lines.
#[verifier::loop_isolation(false)]
pub fn split_lines(content: &Vec<char>) -> (r: Vec<Vec<char>>)
    ensures
        r.deep_view() == spec_lines(content@),
{
    let mut ps = crate::text::split_char(content, '\n');
    proof {
        crate::text::lemma_split_nonempty(content@, '\n');
        assert(ps.deep_view().last() == ps@[ps@.len() - 1]@);
    }
    let plen = ps.len();
    if ps[plen - 1].len() == 0 {
        let ghost before = ps.deep_view();
        ps.pop();
        proof {
            assert(ps.deep_view() =~~= before.drop_last());
        }
    }
    let ghost ps2 = ps.deep_view();
    let mut out: Vec<Vec<char>> = Vec::new();
    let mut i: usize = 0;
    while i < ps.len()
        invariant
            i <= ps@.len(),
            ps.deep_view() == ps2,
            out.deep_view() =~~= spec_strip_cr_all(ps2.take(i as int)),
        decreases ps@.len() - i,
    {
        let piece = &ps[i];
        let n = piece.len();
        let stripped = if n > 0 && piece[n - 1] == '\r' {
            subvec(piece, 0, n - 1)
        } else {
            copy_chars(piece)
        };
        proof {
            assert(ps2[i as int] == ps@[i as int]@);
            if n > 0 && ps@[i as int]@[n - 1] == '\r' {
                assert(ps@[i as int]@.subrange(0, n - 1) =~= ps2[i as int].drop_last());
            }
            assert(stripped@ == spec_strip_cr(ps2[i as int]));
        }
        out.push(stripped);
        i = i + 1;
        proof {
            assert(ps2.take(i as int).drop_last() =~= ps2.take(i - 1));
            assert(ps2.take(i as int).last() == ps2[i - 1]);
            assert(out.deep_view() =~~= spec_strip_cr_all(ps2.take(i as int)));
        }
    }
    proof {
        assert(ps2.take(ps2.len() as int) =~= ps2);
        assert(out.deep_view() =~~= spec_lines(content@));
    }
    out
}

/// Index of the last occurrence of `p` as a contiguous run in `s`.
pub open spec fn spec_rfind_seq(s: Seq<char>, p: Seq<char>) -> Option<int>
    decreases s.len(),
    when p.len() > 0
{
    if s.len() < p.len() {
        None
    } else if s.subrange(s.len() - p.len(), s.len() as int) == p {
        Some(s.len() - p.len())
    } else {
        spec_rfind_seq(s.drop_last(), p)
    }
}

proof fn lemma_rfind_seq_at(s: Seq<char>, p: Seq<char>, k: int)
    requires
        p.len() > 0,
        -1 <= k <= s.len() - p.len(),
        forall|m: int|
            k < m <= s.len() - p.len() ==> #[trigger] s.subrange(m, m + p.len()) != p,
        k >= 0 ==> s.subrange(k, k + p.len()) == p,
    ensures
        k >= 0 ==> spec_rfind_seq(s, p) == Some(k),
        k < 0 ==> spec_rfind_seq(s, p) is None,
    decreases s.len(),
{
    if s.len() < p.len() {
    } else {
        let kmax = s.len() - p.len();
        if k == kmax {
        } else {
            assert(s.subrange(kmax, kmax + p.len()) != p);
            assert(s.subrange(kmax, s.len() as int) == s.subrange(kmax, kmax + p.len()));
            assert(forall|m: int|
                k < m <= s.drop_last().len() - p.len() ==> #[trigger] s.drop_last().subrange(
                    m,
                    m + p.len(),
                ) =~= s.subrange(m, m + p.len()));
            if k >= 0 {
                assert(s.drop_last().subrange(k, k + p.len()) =~= s.subrange(k, k + p.len()));
            }
            lemma_rfind_seq_at(s.drop_last(), p, k);
        }
    }
}

/// Last index where the literal `p` occurs in `v`, if any.
#[verifier::loop_isolation(false)]
pub fn rfind_str(v: &Vec<char>, p: &str) -> (r: Option<usize>)
    requires
        p@.len() > 0,
    ensures
        match r {
            Some(i) => spec_rfind_seq(v@, p@) == Some(i as int) && i + p@.len() <= v@.len(),
            None => spec_rfind_seq(v@, p@) is None,
        },
{
    let pv = str_chars(p);
    if pv.len() > v.len() {
        proof {
            assert(spec_rfind_seq(v@, p@) is None);
        }
        return None;
    }
    let mut k: usize = v.len() - pv.len() + 1;
    while k > 0
        invariant
            pv@ == p@,
            p@.len() <= v@.len(),
            k <= v@.len() - p@.len() + 1,
            forall|m: int|
                k <= m <= v@.len() - p@.len() ==> #[trigger] v@.subrange(m, m + p@.len()) != p@,
        decreases k,
    {
        k = k - 1;
        if crate::text::matches_at(v, k, &pv) {
            proof {
                assert(v@.skip(k as int).take(p@.len() as int) =~= v@.subrange(
                    k as int,
                    k + p@.len(),
                ));
                lemma_rfind_seq_at(v@, p@, k as int);
            }
            return Some(k);
        }
        proof {
            assert(v@.skip(k as int).take(p@.len() as int) =~= v@.subrange(
                k as int,
                k + p@.len(),
            ));
        }
    }
    proof {
        lemma_rfind_seq_at(v@, p@, -1);
    }
    None
}

/// The last `::`-separated segment of a module path.
pub open spec fn spec_last_segment(m: Seq<char>) -> Seq<char> {
    match spec_rfind_seq(m, "::"@) {
        Some(i) => m.skip(i + 2),
        None => m,
    }
}

/// Last segment of a module path.
pub fn last_segment(m: &Vec<char>) -> (r: Vec<char>)
    ensures
        r@ == spec_last_segment(m@),
{
    proof {
        reveal_strlit("::");
    }
    let mlen = m.len();
    match rfind_str(m, "::") {
        Some(i) => {
            let r = subvec(m, i + 2, mlen);
            proof {
                assert(m@.subrange(i + 2, m@.len() as int) =~= m@.skip(i + 2));
            }
            r
        },
        None => copy_chars(m),
    }
}

/// The scanner state and emitted records after scanning `lines` in
/// order from the given state.
pub open spec fn spec_scan_lines(
    st: StateV,
    lines: Seq<Seq<char>>,
    module: Seq<char>,
    source_path: Seq<char>,
) -> (StateV, Seq<RecordV>)
    decreases lines.len(),
{
    if lines.len() == 0 {
        (st, Seq::empty())
    } else {
        let prev = spec_scan_lines(st, lines.drop_last(), module, source_path);
        let step = spec_line_step(prev.0, lines.last(), module, source_path);
        (
            step.0,
            match step.1 {
                Some(r) => prev.1.push(r),
                None => prev.1,
            },
        )
    }
}

/// The module-level record emitted when a file holds module doc
/// comments: named after the last path segment, with a synthesized
/// module declaration as its signature.
pub open spec fn spec_module_record(
    module: Seq<char>,
    source_path: Seq<char>,
    module_docs: Seq<Seq<char>>,
) -> RecordV {
    RecordV {
        module: module,
        kind: SymbolKind::Module,
        name: spec_last_segment(module),
        signature: "mod "@ + spec_replace(module, "::"@, "_"@),
        docs: spec_join(module_docs, "\n"@),
        source_path: source_path,
        symbol_path: "crate::"@ + module,
    }
}

/// All records extracted from one file's text: one per recognized
/// public declaration in line order, and one module record at the end
/// when module doc comments were present.
pub open spec fn spec_extract(
    module: Seq<char>,
    source_path: Seq<char>,
    content: Seq<char>,
) -> Seq<RecordV> {
    let scanned = spec_scan_lines(
        spec_initial_state(),
        spec_lines(content),
        module,
        source_path,
    );
    if scanned.0.module_docs.len() > 0 {
        scanned.1.push(spec_module_record(module, source_path, scanned.0.module_docs))
    } else {
        scanned.1
    }
}

/// Extract all documentation records from one file's text.
#[verifier::loop_isolation(false)]
pub fn extract_symbols(
    module: &Vec<char>,
    source_path: &Vec<char>,
    content: &Vec<char>,
) -> (r: Vec<SymbolRecord>)
    ensures
        r.deep_view() == spec_extract(module@, source_path@, content@),
{
    let lines = split_lines(content);
    let ghost lv = lines.deep_view();
    let mut state = ScanState::new();
    let mut records: Vec<SymbolRecord> = Vec::new();
    let mut i: usize = 0;
    proof {
        assert(lv.take(0) =~= Seq::<Seq<char>>::empty());
        assert(records.deep_view() =~= Seq::<RecordV>::empty());
    }
    while i < lines.len()
        invariant
            i <= lines@.len(),
            lines.deep_view() == lv,
            state@ == spec_scan_lines(
                spec_initial_state(),
                lv.take(i as int),
                module@,
                source_path@,
            ).0,
            records.deep_view() == spec_scan_lines(
                spec_initial_state(),
                lv.take(i as int),
                module@,
                source_path@,
            ).1,
        decreases lines@.len() - i,
    {
        let ghost before = records.deep_view();
        let rec = scan_line(&mut state, &lines[i], module, source_path);
        proof {
            assert(lv[i as int] == lines@[i as int]@);
        }
        if let Some(r) = rec {
            records.push(r);
            proof {
                assert(records.deep_view() =~= before.push(records@[records@.len() - 1]@));
            }
        }
        i = i + 1;
        proof {
            assert(lv.take(i as int).drop_last() =~= lv.take(i - 1));
            assert(lv.take(i as int).last() == lv[i - 1]);
        }
    }
    proof {
        assert(lv.take(lv.len() as int) =~= lv);
    }
    if state.module_docs.len() > 0 {
        proof {
            reveal_strlit("mod ");
            reveal_strlit("crate::");
            reveal_strlit("::");
            reveal_strlit("_");
        }
        let name = last_segment(module);
        let mut signature: Vec<char> = Vec::new();
        push_str_chars(&mut signature, "mod ");
        let flat = replace_str(module, "::", "_");
        push_all(&mut signature, &flat);
        let docs = join_sep(&state.module_docs, "\n");
        let mut symbol_path: Vec<char> = Vec::new();
        push_str_chars(&mut symbol_path, "crate::");
        push_all(&mut symbol_path, module);
        let ghost before = records.deep_view();
        records.push(
            SymbolRecord {
                module: copy_chars(module),
                kind: SymbolKind::Module,
                name: name,
                signature: signature,
                docs: docs,
                source_path: copy_chars(source_path),
                symbol_path: symbol_path,
            },
        );
        proof {
            assert(records.deep_view() =~= before.push(records@[records@.len() - 1]@));
        }
    }
    records
}

/// The module path of a source file from its path relative to the
/// source root: path segments with the extension dropped from the
/// last, a trailing module-declaration segment dropped, a trailing
/// entry-point segment dropped, joined with `::`; the root itself is
/// named `crate_root`.
pub open spec fn spec_module_path_of(rel: Seq<char>) -> Seq<char> {
    let parts = crate::text::spec_split_char(rel, '/');
    let parts1 = if crate::text::spec_has_suffix(parts.last(), ".rs"@) {
        parts.update(parts.len() - 1, parts.last().take(parts.last().len() - 3))
    } else {
        parts
    };
    let parts2 = if parts1.last() == "mod"@ {
        parts1.drop_last()
    } else {
        parts1
    };
    let parts3 = if parts2.len() > 0 && (parts2.last() == "lib"@ || parts2.last() == "main"@) {
        parts2.drop_last()
    } else {
        parts2
    };
    if parts3.len() == 0 {
        "crate_root"@
    } else {
        spec_join(parts3, "::"@)
    }
}

/// Derive a module path from a root-relative file path.
pub fn module_path_of(rel: &Vec<char>) -> (r: Vec<char>)
    ensures
        r@ == spec_module_path_of(rel@),
{
    let mut parts = crate::text::split_char(rel, '/');
    let ghost parts0 = parts.deep_view();
    proof {
        crate::text::lemma_split_nonempty(rel@, '/');
        assert(parts0.last() == parts@[parts@.len() - 1]@);
    }
    let plen = parts.len();
    let last = &parts[plen - 1];
    if let Some(front) = crate::text::strip_suffix_str(last, ".rs") {
        proof {
            reveal_strlit(".rs");
        }
        let ghost before = parts.deep_view();
        parts.pop();
        parts.push(front);
        proof {
            assert(parts.deep_view() =~~= before.update(
                before.len() - 1,
                before.last().take(before.last().len() - 3),
            ));
        }
    } else {
        proof {
            reveal_strlit(".rs");
        }
    }
    let ghost parts1 = parts.deep_view();
    let plen1 = parts.len();
    proof {
        assert(parts1.len() > 0);
        assert(parts1.last() == parts@[parts@.len() - 1]@);
    }
    if crate::text::chars_eq_str(&parts[plen1 - 1], "mod") {
        let ghost before = parts.deep_view();
        parts.pop();
        proof {
            assert(parts.deep_view() =~~= before.drop_last());
        }
    }
    let ghost parts2 = parts.deep_view();
    if parts.len() > 0 {
        let plen2 = parts.len();
        proof {
            assert(parts2.last() == parts@[parts@.len() - 1]@);
        }
        let is_lib = crate::text::chars_eq_str(&parts[plen2 - 1], "lib");
        let is_main = crate::text::chars_eq_str(&parts[plen2 - 1], "main");
        if is_lib || is_main {
            let ghost before = parts.deep_view();
            parts.pop();
            proof {
                assert(parts.deep_view() =~~= before.drop_last());
            }
        }
    }
    if parts.len() == 0 {
        str_chars("crate_root")
    } else {
        join_sep(&parts, "::")
    }
}

} // verus!
