//! The symbol record: the unit of documentation extracted from a
//! source file, and the total order in which records are rendered.

use vstd::prelude::*;

use crate::text::lemma_lex_cmp_antisym;
use crate::text::lemma_lex_cmp_trans;
use crate::text::lemma_lex_cmp_zero;
use crate::text::lex_cmp;
use crate::text::spec_lex_cmp;

verus! {

/// The kind of a documented symbol.
#[derive(Clone, Copy, Debug, PartialEq, Eq, Structural)]
pub enum SymbolKind {
    Struct,
    Enum,
    Trait,
    Fn,
    Module,
}

/// The kind keyword as it appears on a rendered page.
pub open spec fn spec_kind_text(k: SymbolKind) -> Seq<char> {
    match k {
        SymbolKind::Struct => "struct"@,
        SymbolKind::Enum => "enum"@,
        SymbolKind::Trait => "trait"@,
        SymbolKind::Fn => "fn"@,
        SymbolKind::Module => "module"@,
    }
}

/// The kind keyword as characters.
pub fn kind_text(k: SymbolKind) -> (r: Vec<char>)
    ensures
        r@ == spec_kind_text(k),
{
    match k {
        SymbolKind::Struct => crate::text::str_chars("struct"),
        SymbolKind::Enum => crate::text::str_chars("enum"),
        SymbolKind::Trait => crate::text::str_chars("trait"),
        SymbolKind::Fn => crate::text::str_chars("fn"),
        SymbolKind::Module => crate::text::str_chars("module"),
    }
}

/// One documented symbol: where it lives, what it is, its declaration
/// line, its documentation text and its fully qualified paths.
pub struct SymbolRecord {
    pub module: Vec<char>,
    pub kind: SymbolKind,
    pub name: Vec<char>,
    pub signature: Vec<char>,
    pub docs: Vec<char>,
    pub source_path: Vec<char>,
    pub symbol_path: Vec<char>,
}

/// The mathematical value of a symbol record.
pub struct RecordV {
    pub module: Seq<char>,
    pub kind: SymbolKind,
    pub name: Seq<char>,
    pub signature: Seq<char>,
    pub docs: Seq<char>,
    pub source_path: Seq<char>,
    pub symbol_path: Seq<char>,
}

impl View for SymbolRecord {
    type V = RecordV;

    open spec fn view(&self) -> RecordV {
        RecordV {
            module: self.module@,
            kind: self.kind,
            name: self.name@,
            signature: self.signature@,
            docs: self.docs@,
            source_path: self.source_path@,
            symbol_path: self.symbol_path@,
        }
    }
}

impl DeepView for SymbolRecord {
    type V = RecordV;

    open spec fn deep_view(&self) -> RecordV {
        self.view()
    }
}

/// Three-way comparison of records: lexicographic over all fields in
/// declaration order, the kind compared by its keyword text. This is
/// the total order in which records are rendered.
pub open spec fn spec_record_cmp(a: RecordV, b: RecordV) -> int {
    let c1 = spec_lex_cmp(a.module, b.module);
    let c2 = spec_lex_cmp(spec_kind_text(a.kind), spec_kind_text(b.kind));
    let c3 = spec_lex_cmp(a.name, b.name);
    let c4 = spec_lex_cmp(a.signature, b.signature);
    let c5 = spec_lex_cmp(a.docs, b.docs);
    let c6 = spec_lex_cmp(a.source_path, b.source_path);
    let c7 = spec_lex_cmp(a.symbol_path, b.symbol_path);
    if c1 != 0 {
        c1
    } else if c2 != 0 {
        c2
    } else if c3 != 0 {
        c3
    } else if c4 != 0 {
        c4
    } else if c5 != 0 {
        c5
    } else if c6 != 0 {
        c6
    } else {
        c7
    }
}

/// `a` comes no later than `b` in rendering order.
pub open spec fn spec_record_le(a: RecordV, b: RecordV) -> bool {
    spec_record_cmp(a, b) <= 0
}

proof fn lemma_kind_text_zero(a: SymbolKind, b: SymbolKind)
    ensures
        (spec_lex_cmp(spec_kind_text(a), spec_kind_text(b)) == 0) <==> (a == b),
{
    lemma_lex_cmp_zero(spec_kind_text(a), spec_kind_text(b));
    if spec_kind_text(a) == spec_kind_text(b) && a != b {
        reveal_strlit("struct");
        reveal_strlit("enum");
        reveal_strlit("trait");
        reveal_strlit("fn");
        reveal_strlit("module");
        assert("struct"@.len() == 6);
        assert("enum"@.len() == 4);
        assert("trait"@.len() == 5);
        assert("fn"@.len() == 2);
        assert("module"@.len() == 6);
        assert("struct"@[0] == 's');
        assert("module"@[0] == 'm');
        assert(false);
    }
}

/// Comparison is zero exactly on equal records.
pub proof fn lemma_record_cmp_zero(a: RecordV, b: RecordV)
    ensures
        (spec_record_cmp(a, b) == 0) <==> (a == b),
{
    lemma_lex_cmp_zero(a.module, b.module);
    lemma_kind_text_zero(a.kind, b.kind);
    lemma_lex_cmp_zero(a.name, b.name);
    lemma_lex_cmp_zero(a.signature, b.signature);
    lemma_lex_cmp_zero(a.docs, b.docs);
    lemma_lex_cmp_zero(a.source_path, b.source_path);
    lemma_lex_cmp_zero(a.symbol_path, b.symbol_path);
}

/// Comparison is antisymmetric.
pub proof fn lemma_record_cmp_antisym(a: RecordV, b: RecordV)
    ensures
        spec_record_cmp(a, b) == -spec_record_cmp(b, a),
{
    lemma_lex_cmp_antisym(a.module, b.module);
    lemma_lex_cmp_antisym(spec_kind_text(a.kind), spec_kind_text(b.kind));
    lemma_lex_cmp_antisym(a.name, b.name);
    lemma_lex_cmp_antisym(a.signature, b.signature);
    lemma_lex_cmp_antisym(a.docs, b.docs);
    lemma_lex_cmp_antisym(a.source_path, b.source_path);
    lemma_lex_cmp_antisym(a.symbol_path, b.symbol_path);
}

/// The order is total: of two records, one comes no later than the
/// other.
pub proof fn lemma_record_le_total(a: RecordV, b: RecordV)
    ensures
        spec_record_le(a, b) || spec_record_le(b, a),
{
    lemma_record_cmp_antisym(a, b);
}

proof fn lemma_lex_chain(a1: Seq<char>, b1: Seq<char>, c1: Seq<char>)
    requires
        spec_lex_cmp(a1, b1) <= 0,
        spec_lex_cmp(b1, c1) <= 0,
    ensures
        spec_lex_cmp(a1, c1) <= 0,
        spec_lex_cmp(a1, c1) == 0 ==> a1 == b1 && b1 == c1,
{
    lemma_lex_cmp_trans(a1, b1, c1);
    lemma_lex_cmp_zero(a1, b1);
    lemma_lex_cmp_zero(b1, c1);
    lemma_lex_cmp_zero(a1, c1);
    if spec_lex_cmp(a1, c1) == 0 {
        if spec_lex_cmp(a1, b1) < 0 {
            lemma_lex_cmp_antisym(a1, c1);
            lemma_lex_cmp_trans(b1, c1, a1);
            lemma_lex_cmp_antisym(a1, b1);
        }
        if spec_lex_cmp(b1, c1) < 0 {
            lemma_lex_cmp_antisym(a1, c1);
            lemma_lex_cmp_trans(c1, a1, b1);
            lemma_lex_cmp_antisym(b1, c1);
        }
    }
}

/// The order is transitive.
pub proof fn lemma_record_le_trans(a: RecordV, b: RecordV, c: RecordV)
    requires
        spec_record_le(a, b),
        spec_record_le(b, c),
    ensures
        spec_record_le(a, c),
{
    lemma_record_cmp_zero(a, b);
    lemma_record_cmp_zero(b, c);
    if spec_record_cmp(a, b) == 0 {
    } else if spec_record_cmp(b, c) == 0 {
    } else {
        lemma_lex_chain(a.module, b.module, c.module);
        if spec_lex_cmp(a.module, c.module) == 0 {
            lemma_lex_chain(
                spec_kind_text(a.kind),
                spec_kind_text(b.kind),
                spec_kind_text(c.kind),
            );
            if spec_lex_cmp(spec_kind_text(a.kind), spec_kind_text(c.kind)) == 0 {
                lemma_lex_chain(a.name, b.name, c.name);
                if spec_lex_cmp(a.name, c.name) == 0 {
                    lemma_lex_chain(a.signature, b.signature, c.signature);
                    if spec_lex_cmp(a.signature, c.signature) == 0 {
                        lemma_lex_chain(a.docs, b.docs, c.docs);
                        if spec_lex_cmp(a.docs, c.docs) == 0 {
                            lemma_lex_chain(a.source_path, b.source_path, c.source_path);
                            if spec_lex_cmp(a.source_path, c.source_path) == 0 {
                                lemma_lex_chain(a.symbol_path, b.symbol_path, c.symbol_path);
                            }
                        }
                    }
                }
            }
        }
    }
}

/// Three-way comparison of two records in rendering order.
pub fn record_cmp(a: &SymbolRecord, b: &SymbolRecord) -> (r: i8)
    ensures
        r as int == spec_record_cmp(a@, b@),
{
    let c1 = lex_cmp(&a.module, &b.module);
    if c1 != 0 {
        return c1;
    }
    let ka = kind_text(a.kind);
    let kb = kind_text(b.kind);
    let c2 = lex_cmp(&ka, &kb);
    if c2 != 0 {
        return c2;
    }
    let c3 = lex_cmp(&a.name, &b.name);
    if c3 != 0 {
        return c3;
    }
    let c4 = lex_cmp(&a.signature, &b.signature);
    if c4 != 0 {
        return c4;
    }
    let c5 = lex_cmp(&a.docs, &b.docs);
    if c5 != 0 {
        return c5;
    }
    let c6 = lex_cmp(&a.source_path, &b.source_path);
    if c6 != 0 {
        return c6;
    }
    lex_cmp(&a.symbol_path, &b.symbol_path)
}

/// `x` inserted into `s` after every record that comes no later than
/// it, so that inserting into a sorted sequence keeps it sorted and
/// keeps equal records stable.
pub open spec fn spec_insert_record(s: Seq<RecordV>, x: RecordV) -> Seq<RecordV>
    decreases s.len(),
{
    if s.len() > 0 && spec_record_le(s.first(), x) {
        seq![s.first()] + spec_insert_record(s.drop_first(), x)
    } else {
        seq![x] + s
    }
}

/// Insertion sort of records in rendering order: the sorted sequence
/// is a pure function of the input sequence.
pub open spec fn spec_sort_records(s: Seq<RecordV>) -> Seq<RecordV>
    decreases s.len(),
{
    if s.len() == 0 {
        Seq::empty()
    } else {
        spec_insert_record(spec_sort_records(s.drop_last()), s.last())
    }
}

/// Every pair of positions is ordered.
pub open spec fn spec_records_sorted(s: Seq<RecordV>) -> bool {
    forall|i: int, j: int| 0 <= i < j < s.len() ==> spec_record_le(#[trigger] s[i], #[trigger] s[j])
}

proof fn lemma_insert_record_at(s: Seq<RecordV>, x: RecordV, j: int)
    requires
        0 <= j <= s.len(),
        forall|i: int| 0 <= i < j ==> spec_record_le(#[trigger] s[i], x),
        j == s.len() || !spec_record_le(s[j], x),
    ensures
        spec_insert_record(s, x) == s.take(j) + seq![x] + s.skip(j),
    decreases j,
{
    if j == 0 {
        if s.len() > 0 && spec_record_le(s.first(), x) {
            assert(false);
        }
        assert(seq![x] + s =~= s.take(0) + seq![x] + s.skip(0));
    } else {
        lemma_insert_record_at(s.drop_first(), x, j - 1);
        assert(seq![s.first()] + (s.drop_first().take(j - 1) + seq![x] + s.drop_first().skip(j - 1))
            =~= s.take(j) + seq![x] + s.skip(j));
    }
}

/// Inserting into a sorted sequence keeps it sorted.
pub proof fn lemma_insert_record_sorted(s: Seq<RecordV>, x: RecordV)
    requires
        spec_records_sorted(s),
    ensures
        spec_records_sorted(spec_insert_record(s, x)),
        spec_insert_record(s, x).len() == s.len() + 1,
    decreases s.len(),
{
    let r = spec_insert_record(s, x);
    if s.len() > 0 && spec_record_le(s.first(), x) {
        assert(spec_records_sorted(s.drop_first())) by {
            assert(forall|i: int, j: int|
                0 <= i < j < s.drop_first().len() ==> spec_record_le(
                    #[trigger] s.drop_first()[i],
                    #[trigger] s.drop_first()[j],
                ));
        }
        lemma_insert_record_sorted(s.drop_first(), x);
        let r2 = spec_insert_record(s.drop_first(), x);
        assert(r == seq![s.first()] + r2);
        assert forall|i: int, j: int| 0 <= i < j < r.len() implies spec_record_le(
            #[trigger] r[i],
            #[trigger] r[j],
        ) by {
            if i == 0 {
                // r[0] is s.first(); r[j] is either x or an element of s.
                lemma_insert_record_elements(s.drop_first(), x, j - 1);
                if r[j] == x {
                    assert(spec_record_le(s.first(), x));
                } else {
                    assert(exists|k: int|
                        0 <= k < s.drop_first().len() && #[trigger] s.drop_first()[k] == r2[j - 1]);
                    let k = choose|k: int|
                        0 <= k < s.drop_first().len() && #[trigger] s.drop_first()[k] == r2[j - 1];
                    assert(spec_record_le(s[0], s[k + 1]));
                }
            } else {
                assert(r[i] == r2[i - 1]);
                assert(r[j] == r2[j - 1]);
            }
        }
    } else {
        assert(r == seq![x] + s);
        assert forall|i: int, j: int| 0 <= i < j < r.len() implies spec_record_le(
            #[trigger] r[i],
            #[trigger] r[j],
        ) by {
            if i == 0 {
                // x goes no later than s.first(), which goes no later
                // than any other element.
                if s.len() > 0 {
                    lemma_record_le_total(s.first(), x);
                    assert(spec_record_le(x, s.first()));
                    if j > 1 {
                        assert(spec_record_le(s[0], s[j - 1]));
                        lemma_record_le_trans(x, s[0], s[j - 1]);
                    }
                }
            }
        }
    }
}

/// Every element of an insertion result is `x` or an element of `s`.
proof fn lemma_insert_record_elements(s: Seq<RecordV>, x: RecordV, j: int)
    requires
        0 <= j < spec_insert_record(s, x).len(),
    ensures
        spec_insert_record(s, x)[j] == x || exists|k: int|
            0 <= k < s.len() && #[trigger] s[k] == spec_insert_record(s, x)[j],
    decreases s.len(),
{
    let r = spec_insert_record(s, x);
    if s.len() > 0 && spec_record_le(s.first(), x) {
        if j == 0 {
            assert(s[0] == r[0]);
        } else {
            lemma_insert_record_elements(s.drop_first(), x, j - 1);
            let r2 = spec_insert_record(s.drop_first(), x);
            if r2[j - 1] == x {
            } else {
                let k = choose|k: int|
                    0 <= k < s.drop_first().len() && #[trigger] s.drop_first()[k] == r2[j - 1];
                assert(s[k + 1] == r[j]);
            }
        }
    } else {
        if j > 0 {
            assert(s[j - 1] == r[j]);
        }
    }
}

/// The sorted sequence is sorted and has the same length.
pub proof fn lemma_sort_records_sorted(s: Seq<RecordV>)
    ensures
        spec_records_sorted(spec_sort_records(s)),
        spec_sort_records(s).len() == s.len(),
    decreases s.len(),
{
    if s.len() > 0 {
        lemma_sort_records_sorted(s.drop_last());
        lemma_insert_record_sorted(spec_sort_records(s.drop_last()), s.last());
    }
}

/// Insert one record into an already sorted vector, keeping order and
/// stability.
#[verifier::loop_isolation(false)]
fn insert_record(out: &mut Vec<SymbolRecord>, x: SymbolRecord)
    ensures
        final(out).deep_view() == spec_insert_record(old(out).deep_view(), x@),
{
    let ghost s = out.deep_view();
    let mut j: usize = 0;
    while j < out.len() && record_cmp(&out[j], &x) <= 0
        invariant
            j <= out@.len(),
            forall|i: int| 0 <= i < j ==> spec_record_le(#[trigger] out.deep_view()[i], x@),
        decreases out@.len() - j,
    {
        j = j + 1;
    }
    proof {
        lemma_insert_record_at(s, x@, j as int);
    }
    out.insert(j, x);
    proof {
        assert(out.deep_view() =~= s.take(j as int) + seq![x@] + s.skip(j as int));
    }
}

/// Sort the extracted records into rendering order.
#[verifier::loop_isolation(false)]
pub fn sort_records(records: Vec<SymbolRecord>) -> (r: Vec<SymbolRecord>)
    ensures
        r.deep_view() == spec_sort_records(records.deep_view()),
{
    let ghost orig = records.deep_view();
    let mut v = records;
    let mut out: Vec<SymbolRecord> = Vec::new();
    while v.len() > 0
        invariant
            v@.len() <= orig.len(),
            v.deep_view() =~= orig.skip(orig.len() - v@.len()),
            out.deep_view() == spec_sort_records(orig.take(orig.len() - v@.len())),
        decreases v@.len(),
    {
        let ghost k = orig.len() - v@.len();
        let ghost vseq = v@;
        let ghost vd = v.deep_view();
        let x = v.remove(0);
        proof {
            assert(x == vseq[0]);
            assert(vd[0] == vseq[0].deep_view());
            assert(x@ == orig[k]);
            assert(forall|i: int|
                0 <= i < v@.len() ==> #[trigger] v.deep_view()[i] == vd[i + 1]);
            assert(v.deep_view() =~= orig.skip(k + 1));
            assert(orig.take(k + 1).drop_last() =~= orig.take(k));
            assert(orig.take(k + 1).last() == orig[k]);
        }
        insert_record(&mut out, x);
        proof {
            assert(out.deep_view() == spec_sort_records(orig.take(k + 1)));
        }
    }
    proof {
        assert(orig.take(orig.len() as int) =~= orig);
    }
    out
}

} // verus!
