//! Character-sequence utilities shared by the scanner, the renderer
//! and the formatting helpers. All text in this library is handled as
//! `Vec<char>` so that every transformation is verified; the two
//! trusted conversions at the bottom bridge to `str` and `String`.

use vstd::prelude::*;

verus! {

/// True when `c` is an ASCII whitespace character, the class the
/// line scanner treats as blank space.
pub open spec fn is_space_char(c: char) -> bool {
    c == ' ' || c == '\t' || c == '\n' || c == '\r' || c == '\x0b' || c == '\x0c'
}

/// Whether `c` is scanner whitespace.
pub fn is_space(c: char) -> (r: bool)
    ensures
        r == is_space_char(c),
{
    c == ' ' || c == '\t' || c == '\n' || c == '\r' || c == '\x0b' || c == '\x0c'
}

/// `s` with leading whitespace removed.
pub open spec fn spec_trim_start(s: Seq<char>) -> Seq<char>
    decreases s.len(),
{
    if s.len() > 0 && is_space_char(s.first()) {
        spec_trim_start(s.drop_first())
    } else {
        s
    }
}

/// `s` with trailing whitespace removed.
pub open spec fn spec_trim_end(s: Seq<char>) -> Seq<char>
    decreases s.len(),
{
    if s.len() > 0 && is_space_char(s.last()) {
        spec_trim_end(s.drop_last())
    } else {
        s
    }
}

/// `s` with whitespace removed on both sides.
pub open spec fn spec_trim(s: Seq<char>) -> Seq<char> {
    spec_trim_end(spec_trim_start(s))
}

proof fn lemma_trim_start_at(s: Seq<char>, i: int)
    requires
        0 <= i <= s.len(),
        forall|j: int| 0 <= j < i ==> is_space_char(s[j]),
        i == s.len() || !is_space_char(s[i]),
    ensures
        spec_trim_start(s) == s.skip(i),
    decreases i,
{
    if i == 0 {
        assert(spec_trim_start(s) == s.skip(0)) by {
            assert(s.skip(0) =~= s);
        }
    } else {
        assert(is_space_char(s.first()));
        lemma_trim_start_at(s.drop_first(), i - 1);
        assert(s.drop_first().skip(i - 1) =~= s.skip(i));
    }
}

proof fn lemma_trim_end_at(s: Seq<char>, i: int)
    requires
        0 <= i <= s.len(),
        forall|j: int| i <= j < s.len() ==> is_space_char(s[j]),
        i == 0 || !is_space_char(s[i - 1]),
    ensures
        spec_trim_end(s) == s.take(i),
    decreases s.len() - i,
{
    if i == s.len() {
        assert(spec_trim_end(s) == s.take(i)) by {
            assert(s.take(i) =~= s);
        }
    } else {
        assert(is_space_char(s.last()));
        lemma_trim_end_at(s.drop_last(), i);
        assert(s.drop_last().take(i) =~= s.take(i));
    }
}

/// Copy of `v[from..to]`.
pub fn subvec(v: &Vec<char>, from: usize, to: usize) -> (r: Vec<char>)
    requires
        from <= to <= v@.len(),
    ensures
        r@ == v@.subrange(from as int, to as int),
{
    let mut r: Vec<char> = Vec::new();
    let mut i = from;
    while i < to
        invariant
            from <= i <= to <= v@.len(),
            r@ == v@.subrange(from as int, i as int),
        decreases to - i,
    {
        r.push(v[i]);
        i = i + 1;
        proof {
            assert(v@.subrange(from as int, i as int) =~= v@.subrange(
                from as int,
                i - 1,
            ).push(v@[i - 1]));
        }
    }
    r
}

/// Append all of `s` to `out`.
pub fn push_all(out: &mut Vec<char>, s: &Vec<char>)
    ensures
        final(out)@ == old(out)@ + s@,
{
    let ghost orig = out@;
    let mut i: usize = 0;
    while i < s.len()
        invariant
            i <= s@.len(),
            out@ == orig + s@.take(i as int),
        decreases s@.len() - i,
    {
        out.push(s[i]);
        i = i + 1;
        proof {
            assert(orig + s@.take(i as int) =~= (orig + s@.take(i - 1)).push(s@[i - 1]));
        }
    }
    proof {
        assert(orig + s@.take(s@.len() as int) =~= orig + s@);
    }
}

/// Append the characters of a string literal to `out`.
pub fn push_str_chars(out: &mut Vec<char>, s: &str)
    ensures
        final(out)@ == old(out)@ + s@,
{
    let v = crate::text::str_chars(s);
    push_all(out, &v);
}

/// `v` with leading whitespace removed.
pub fn trim_start(v: &Vec<char>) -> (r: Vec<char>)
    ensures
        r@ == spec_trim_start(v@),
{
    let mut i: usize = 0;
    while i < v.len() && is_space(v[i])
        invariant
            i <= v@.len(),
            forall|j: int| 0 <= j < i ==> is_space_char(v@[j]),
        decreases v@.len() - i,
    {
        i = i + 1;
    }
    proof {
        lemma_trim_start_at(v@, i as int);
        assert(v@.subrange(i as int, v@.len() as int) =~= v@.skip(i as int));
    }
    subvec(v, i, v.len())
}

/// `v` with trailing whitespace removed.
pub fn trim_end(v: &Vec<char>) -> (r: Vec<char>)
    ensures
        r@ == spec_trim_end(v@),
{
    let mut i: usize = v.len();
    while i > 0 && is_space(v[i - 1])
        invariant
            i <= v@.len(),
            forall|j: int| i <= j < v@.len() ==> is_space_char(v@[j]),
        decreases i,
    {
        i = i - 1;
    }
    proof {
        lemma_trim_end_at(v@, i as int);
        assert(v@.subrange(0, i as int) =~= v@.take(i as int));
    }
    subvec(v, 0, i)
}

/// `v` with whitespace removed on both sides.
pub fn trim(v: &Vec<char>) -> (r: Vec<char>)
    ensures
        r@ == spec_trim(v@),
{
    let t = trim_start(v);
    trim_end(&t)
}

/// Character-for-character equality.
pub fn chars_eq(a: &Vec<char>, b: &Vec<char>) -> (r: bool)
    ensures
        r == (a@ == b@),
{
    if a.len() != b.len() {
        return false;
    }
    let mut i: usize = 0;
    while i < a.len()
        invariant
            a@.len() == b@.len(),
            i <= a@.len(),
            forall|j: int| 0 <= j < i ==> a@[j] == b@[j],
        decreases a@.len() - i,
    {
        if a[i] != b[i] {
            return false;
        }
        i = i + 1;
    }
    proof {
        assert(a@ =~= b@);
    }
    true
}

/// Equality against a string literal.
pub fn chars_eq_str(a: &Vec<char>, b: &str) -> (r: bool)
    ensures
        r == (a@ == b@),
{
    let bv = crate::text::str_chars(b);
    chars_eq(a, &bv)
}

/// `p` is a prefix of `a`.
pub open spec fn spec_has_prefix(a: Seq<char>, p: Seq<char>) -> bool {
    a.len() >= p.len() && a.take(p.len() as int) == p
}

/// `p` is a suffix of `a`.
pub open spec fn spec_has_suffix(a: Seq<char>, p: Seq<char>) -> bool {
    a.len() >= p.len() && a.skip(a.len() - p.len()) == p
}

/// Whether `a` starts with `p`.
pub fn has_prefix(a: &Vec<char>, p: &Vec<char>) -> (r: bool)
    ensures
        r == spec_has_prefix(a@, p@),
{
    if a.len() < p.len() {
        return false;
    }
    let mut i: usize = 0;
    while i < p.len()
        invariant
            p@.len() <= a@.len(),
            i <= p@.len(),
            forall|j: int| 0 <= j < i ==> a@[j] == p@[j],
        decreases p@.len() - i,
    {
        if a[i] != p[i] {
            proof {
                assert(a@.take(p@.len() as int)[i as int] != p@[i as int]);
            }
            return false;
        }
        i = i + 1;
    }
    proof {
        assert(a@.take(p@.len() as int) =~= p@);
    }
    true
}

/// Whether `a` starts with the literal `p`.
pub fn has_prefix_str(a: &Vec<char>, p: &str) -> (r: bool)
    ensures
        r == spec_has_prefix(a@, p@),
{
    let pv = crate::text::str_chars(p);
    has_prefix(a, &pv)
}

/// Whether `a` ends with `p`.
#[verifier::loop_isolation(false)]
pub fn has_suffix(a: &Vec<char>, p: &Vec<char>) -> (r: bool)
    ensures
        r == spec_has_suffix(a@, p@),
{
    if a.len() < p.len() {
        return false;
    }
    let start = a.len() - p.len();
    let mut i: usize = 0;
    while i < p.len()
        invariant
            p@.len() <= a@.len(),
            start == a@.len() - p@.len(),
            i <= p@.len(),
            forall|j: int| 0 <= j < i ==> a@[start + j] == p@[j],
        decreases p@.len() - i,
    {
        assert(start + i < a@.len());
        if a[start + i] != p[i] {
            proof {
                assert(a@.skip(a@.len() - p@.len())[i as int] != p@[i as int]);
            }
            return false;
        }
        i = i + 1;
    }
    proof {
        assert(a@.skip(a@.len() - p@.len()) =~= p@);
    }
    true
}

/// The rest of `a` after the prefix `p`, when `p` is a prefix.
pub fn strip_prefix_str(a: &Vec<char>, p: &str) -> (r: Option<Vec<char>>)
    ensures
        match r {
            Some(rest) => spec_has_prefix(a@, p@) && rest@ == a@.skip(p@.len() as int),
            None => !spec_has_prefix(a@, p@),
        },
{
    let pv = crate::text::str_chars(p);
    if has_prefix(a, &pv) {
        let r = subvec(a, pv.len(), a.len());
        proof {
            assert(a@.subrange(p@.len() as int, a@.len() as int) =~= a@.skip(p@.len() as int));
        }
        Some(r)
    } else {
        None
    }
}

/// The front of `a` before the suffix `p`, when `p` is a suffix.
pub fn strip_suffix_str(a: &Vec<char>, p: &str) -> (r: Option<Vec<char>>)
    ensures
        match r {
            Some(front) => spec_has_suffix(a@, p@) && front@ == a@.take(a@.len() - p@.len()),
            None => !spec_has_suffix(a@, p@),
        },
{
    let pv = crate::text::str_chars(p);
    if has_suffix(a, &pv) {
        let r = subvec(a, 0, a.len() - pv.len());
        proof {
            assert(a@.subrange(0, a@.len() - p@.len()) =~= a@.take(a@.len() - p@.len()));
        }
        Some(r)
    } else {
        None
    }
}

/// Index of the first occurrence of `c` in `s`, if any.
pub open spec fn spec_find_char(s: Seq<char>, c: char) -> Option<int>
    decreases s.len(),
{
    if s.len() == 0 {
        None
    } else if s.first() == c {
        Some(0)
    } else {
        match spec_find_char(s.drop_first(), c) {
            Some(i) => Some(i + 1),
            None => None,
        }
    }
}

proof fn lemma_find_char_at(s: Seq<char>, c: char, i: int)
    requires
        0 <= i <= s.len(),
        forall|j: int| 0 <= j < i ==> s[j] != c,
        i == s.len() || s[i] == c,
    ensures
        i < s.len() ==> spec_find_char(s, c) == Some(i),
        i == s.len() ==> spec_find_char(s, c) is None,
    decreases i,
{
    if s.len() == 0 {
    } else if i == 0 {
    } else {
        lemma_find_char_at(s.drop_first(), c, i - 1);
    }
}

/// First index of `c` in `v`, if any.
pub fn find_char(v: &Vec<char>, c: char) -> (r: Option<usize>)
    ensures
        match r {
            Some(i) => spec_find_char(v@, c) == Some(i as int) && i < v@.len(),
            None => spec_find_char(v@, c) is None,
        },
{
    let mut i: usize = 0;
    while i < v.len()
        invariant
            i <= v@.len(),
            forall|j: int| 0 <= j < i ==> v@[j] != c,
        decreases v@.len() - i,
    {
        if v[i] == c {
            proof {
                lemma_find_char_at(v@, c, i as int);
            }
            return Some(i);
        }
        i = i + 1;
    }
    proof {
        lemma_find_char_at(v@, c, v@.len() as int);
    }
    None
}

/// Whether `c` occurs in `s`.
pub open spec fn spec_contains_char(s: Seq<char>, c: char) -> bool {
    exists|i: int| 0 <= i < s.len() && s[i] == c
}

/// Whether `c` occurs in `v`.
pub fn contains_char(v: &Vec<char>, c: char) -> (r: bool)
    ensures
        r == spec_contains_char(v@, c),
{
    let mut i: usize = 0;
    while i < v.len()
        invariant
            i <= v@.len(),
            forall|j: int| 0 <= j < i ==> v@[j] != c,
        decreases v@.len() - i,
    {
        if v[i] == c {
            return true;
        }
        i = i + 1;
    }
    false
}

/// Whether `p` occurs in `s` as a contiguous run.
pub open spec fn spec_contains_seq(s: Seq<char>, p: Seq<char>) -> bool {
    exists|i: int| 0 <= i <= s.len() - p.len() && #[trigger] s.subrange(i, i + p.len()) == p
}

/// Whether `p` occurs anywhere in `v`.
#[verifier::loop_isolation(false)]
pub fn contains_seq(v: &Vec<char>, p: &Vec<char>) -> (r: bool)
    ensures
        r == spec_contains_seq(v@, p@),
{
    if p.len() > v.len() {
        return false;
    }
    let mut i: usize = 0;
    while i <= v.len() - p.len()
        invariant
            p@.len() <= v@.len(),
            i <= v@.len() - p@.len() + 1,
            forall|k: int| 0 <= k < i ==> #[trigger] v@.subrange(k, k + p@.len()) != p@,
        decreases v@.len() - p@.len() + 1 - i,
    {
        let mut j: usize = 0;
        let mut hit = true;
        while j < p.len()
            invariant
                p@.len() <= v@.len(),
                i <= v@.len() - p@.len(),
                j <= p@.len(),
                hit == (forall|m: int| 0 <= m < j ==> v@[i + m] == p@[m]),
            decreases p@.len() - j,
        {
            assert(i + j < v@.len());
            if v[i + j] != p[j] {
                hit = false;
                proof {
                    assert(v@[i + j as int] != p@[j as int]);
                }
                j = p.len();
            } else {
                j = j + 1;
            }
        }
        if hit {
            proof {
                assert(v@.subrange(i as int, i + p@.len()) =~= p@);
            }
            return true;
        }
        proof {
            if v@.subrange(i as int, i + p@.len()) == p@ {
                assert(forall|m: int|
                    0 <= m < p@.len() ==> v@[i + m] == #[trigger] v@.subrange(
                        i as int,
                        i + p@.len(),
                    )[m]);
                assert(false);
            }
        }
        i = i + 1;
    }
    false
}

/// Whether the literal `p` occurs anywhere in `v`.
pub fn contains_str(v: &Vec<char>, p: &str) -> (r: bool)
    ensures
        r == spec_contains_seq(v@, p@),
{
    let pv = crate::text::str_chars(p);
    contains_seq(v, &pv)
}

/// Pieces of `s` between occurrences of `sep`: one more piece than
/// there are separators, empty pieces kept.
pub open spec fn spec_split_char(s: Seq<char>, sep: char) -> Seq<Seq<char>>
    decreases s.len(),
{
    if s.len() == 0 {
        seq![Seq::<char>::empty()]
    } else if s.first() == sep {
        seq![Seq::<char>::empty()] + spec_split_char(s.drop_first(), sep)
    } else {
        let r = spec_split_char(s.drop_first(), sep);
        seq![seq![s.first()] + r.first()] + r.drop_first()
    }
}

pub proof fn lemma_split_nonempty(s: Seq<char>, sep: char)
    ensures
        spec_split_char(s, sep).len() >= 1,
    decreases s.len(),
{
    if s.len() > 0 {
        lemma_split_nonempty(s.drop_first(), sep);
    }
}

proof fn lemma_split_step(s: Seq<char>, sep: char, i: int)
    requires
        0 <= i <= s.len(),
        forall|j: int| 0 <= j < i ==> s[j] != sep,
        i == s.len() || s[i] == sep,
    ensures
        i == s.len() ==> spec_split_char(s, sep) == seq![s],
        i < s.len() ==> spec_split_char(s, sep) == seq![s.take(i)] + spec_split_char(
            s.skip(i + 1),
            sep,
        ),
    decreases i,
{
    lemma_split_nonempty(s.drop_first(), sep);
    if i == 0 {
        if s.len() == 0 {
            assert(spec_split_char(s, sep) =~~= seq![s]);
        } else if s[0] == sep {
            assert(s.drop_first() =~= s.skip(1));
            assert(spec_split_char(s, sep) =~~= seq![s.take(0)] + spec_split_char(s.skip(1), sep));
        }
    } else {
        lemma_split_step(s.drop_first(), sep, i - 1);
        let r = spec_split_char(s.drop_first(), sep);
        if i == s.len() {
            assert(s.drop_first() =~= s.drop_first().take(i - 1));
            assert(r =~~= seq![s.drop_first()]);
            assert(seq![s.first()] + s.drop_first() =~= s);
            assert(spec_split_char(s, sep) =~~= seq![s]);
        } else {
            assert(r == seq![s.drop_first().take(i - 1)] + spec_split_char(
                s.drop_first().skip(i),
                sep,
            ));
            assert(seq![s.first()] + s.drop_first().take(i - 1) =~= s.take(i));
            assert(s.drop_first().skip(i) =~= s.skip(i + 1));
            assert(r.first() == s.drop_first().take(i - 1));
            assert(r.drop_first() =~~= spec_split_char(s.skip(i + 1), sep));
            assert(spec_split_char(s, sep) =~~= seq![s.take(i)] + spec_split_char(
                s.skip(i + 1),
                sep,
            ));
        }
    }
}

/// Split `v` on the separator character, keeping empty pieces.
#[verifier::loop_isolation(false)]
pub fn split_char(v: &Vec<char>, sep: char) -> (r: Vec<Vec<char>>)
    ensures
        r.deep_view() == spec_split_char(v@, sep),
{
    let mut pieces: Vec<Vec<char>> = Vec::new();
    let mut pos: usize = 0;
    let mut piece: Vec<char> = Vec::new();
    proof {
        lemma_split_nonempty(v@, sep);
        assert(v@.skip(0) =~= v@);
        let r = spec_split_char(v@, sep);
        assert(piece@ + r.first() =~= r.first());
        assert(Seq::<Seq<char>>::empty().push(r.first()) + r.drop_first() =~~= r);
    }
    while pos < v.len()
        invariant
            pos <= v@.len(),
            pieces.deep_view().push(piece@ + spec_split_char(v@.skip(pos as int), sep).first())
                + spec_split_char(v@.skip(pos as int), sep).drop_first() =~~= spec_split_char(
                v@,
                sep,
            ),
        decreases v@.len() - pos,
    {
        proof {
            lemma_split_nonempty(v@.skip(pos as int).drop_first(), sep);
        }
        let c = v[pos];
        let ghost rest = v@.skip(pos as int);
        let ghost rest2 = v@.skip(pos + 1);
        proof {
            assert(rest.drop_first() =~= rest2);
        }
        if c == sep {
            pieces.push(piece);
            piece = Vec::new();
            proof {
                assert(spec_split_char(rest, sep) == seq![Seq::<char>::empty()] + spec_split_char(
                    rest2,
                    sep,
                ));
                assert(piece@ + spec_split_char(rest, sep).first() =~= piece@ + spec_split_char(
                    rest,
                    sep,
                ).first());
            }
        } else {
            piece.push(c);
            proof {
                let r2 = spec_split_char(rest2, sep);
                assert(spec_split_char(rest, sep) == seq![seq![rest.first()] + r2.first()]
                    + r2.drop_first());
            }
        }
        pos = pos + 1;
        proof {
            let r2 = spec_split_char(v@.skip(pos as int), sep);
            assert(pieces.deep_view().push(piece@ + r2.first()) + r2.drop_first() =~~=
                spec_split_char(v@, sep));
        }
    }
    proof {
        assert(v@.skip(v@.len() as int) =~= Seq::<char>::empty());
        let r = spec_split_char(v@.skip(pos as int), sep);
        assert(r =~~= seq![Seq::<char>::empty()]);
        assert(piece@ + r.first() =~= piece@);
        assert(r.drop_first() =~= Seq::<Seq<char>>::empty());
    }
    pieces.push(piece);
    proof {
        assert(pieces.deep_view() =~~= spec_split_char(v@, sep));
    }
    pieces
}

/// The pieces joined with `sep` between them.
pub open spec fn spec_join(ps: Seq<Seq<char>>, sep: Seq<char>) -> Seq<char>
    decreases ps.len(),
{
    if ps.len() == 0 {
        Seq::empty()
    } else if ps.len() == 1 {
        ps.first()
    } else {
        ps.first() + sep + spec_join(ps.drop_first(), sep)
    }
}

pub proof fn lemma_join_push(ps: Seq<Seq<char>>, sep: Seq<char>, x: Seq<char>)
    ensures
        spec_join(ps.push(x), sep) == if ps.len() == 0 {
            x
        } else {
            spec_join(ps, sep) + sep + x
        },
    decreases ps.len(),
{
    if ps.len() == 0 {
        assert(spec_join(ps.push(x), sep) == ps.push(x).first());
        assert(ps.push(x).first() == x);
    } else {
        lemma_join_push(ps.drop_first(), sep, x);
        assert(ps.push(x).drop_first() =~= ps.drop_first().push(x));
        assert(ps.push(x).first() == ps.first());
        if ps.len() == 1 {
            assert(spec_join(ps.push(x), sep) == ps.first() + sep + spec_join(
                ps.drop_first().push(x),
                sep,
            ));
            assert(spec_join(ps.drop_first().push(x), sep) == x);
            assert(spec_join(ps, sep) == ps.first());
        } else {
            assert(spec_join(ps, sep) + sep + x =~= ps.first() + sep + (spec_join(
                ps.drop_first(),
                sep,
            ) + sep + x));
        }
    }
}

/// Join the pieces with the literal separator.
#[verifier::loop_isolation(false)]
pub fn join_sep(pieces: &Vec<Vec<char>>, sep: &str) -> (r: Vec<char>)
    ensures
        r@ == spec_join(pieces.deep_view(), sep@),
{
    let mut out: Vec<char> = Vec::new();
    let mut i: usize = 0;
    while i < pieces.len()
        invariant
            i <= pieces@.len(),
            out@ == spec_join(pieces.deep_view().take(i as int), sep@),
        decreases pieces@.len() - i,
    {
        if i > 0 {
            push_str_chars(&mut out, sep);
        }
        push_all(&mut out, &pieces[i]);
        proof {
            let dv = pieces.deep_view();
            assert(dv.take(i + 1) =~= dv.take(i as int).push(dv[i as int]));
            lemma_join_push(dv.take(i as int), sep@, dv[i as int]);
            assert(dv[i as int] == pieces@[i as int]@);
        }
        i = i + 1;
    }
    proof {
        assert(pieces.deep_view().take(pieces@.len() as int) =~= pieces.deep_view());
    }
    out
}

/// `s` with every non-overlapping occurrence of `pat` replaced by
/// `rep`, scanning left to right.
pub open spec fn spec_replace(s: Seq<char>, pat: Seq<char>, rep: Seq<char>) -> Seq<char>
    decreases s.len(),
    when pat.len() > 0
{
    if s.len() == 0 {
        s
    } else if spec_has_prefix(s, pat) {
        rep + spec_replace(s.skip(pat.len() as int), pat, rep)
    } else {
        seq![s.first()] + spec_replace(s.drop_first(), pat, rep)
    }
}

/// Whether `pat` occurs in `v` starting at `pos`.
#[verifier::loop_isolation(false)]
pub fn matches_at(v: &Vec<char>, pos: usize, pat: &Vec<char>) -> (r: bool)
    requires
        pos <= v@.len(),
    ensures
        r == spec_has_prefix(v@.skip(pos as int), pat@),
{
    if v.len() - pos < pat.len() {
        return false;
    }
    let mut j: usize = 0;
    while j < pat.len()
        invariant
            pos + pat@.len() <= v@.len(),
            j <= pat@.len(),
            forall|m: int| 0 <= m < j ==> v@[pos + m] == pat@[m],
        decreases pat@.len() - j,
    {
        if v[pos + j] != pat[j] {
            proof {
                assert(v@.skip(pos as int).take(pat@.len() as int)[j as int] != pat@[j as int]);
            }
            return false;
        }
        j = j + 1;
    }
    proof {
        assert(v@.skip(pos as int).take(pat@.len() as int) =~= pat@);
    }
    true
}

/// Index of the first occurrence of `p` as a contiguous run in `s`.
pub open spec fn spec_find_seq(s: Seq<char>, p: Seq<char>) -> Option<int>
    decreases s.len(),
{
    if p.len() == 0 {
        Some(0)
    } else if s.len() < p.len() {
        None
    } else if spec_has_prefix(s, p) {
        Some(0)
    } else {
        match spec_find_seq(s.drop_first(), p) {
            Some(i) => Some(i + 1),
            None => None,
        }
    }
}

proof fn lemma_find_seq_at(s: Seq<char>, p: Seq<char>, i: int)
    requires
        0 <= i <= s.len(),
        forall|k: int| 0 <= k < i ==> !spec_has_prefix(#[trigger] s.skip(k), p),
        i + p.len() > s.len() || spec_has_prefix(s.skip(i), p),
    ensures
        i + p.len() <= s.len() ==> spec_find_seq(s, p) == Some(i),
        i + p.len() > s.len() ==> spec_find_seq(s, p) is None,
    decreases i,
{
    if p.len() == 0 {
        if i > 0 {
            assert(s.skip(0).take(0) =~= p);
            assert(spec_has_prefix(s.skip(0), p));
        }
    } else if s.len() < p.len() {
    } else if i == 0 {
        assert(s.skip(0) =~= s);
    } else {
        assert(s.skip(0) =~= s);
        assert(!spec_has_prefix(s, p));
        assert(forall|k: int|
            0 <= k < i - 1 ==> s.drop_first().skip(k) =~= s.skip(k + 1));
        if i + p.len() <= s.len() {
            assert(s.drop_first().skip(i - 1) =~= s.skip(i));
        }
        lemma_find_seq_at(s.drop_first(), p, i - 1);
    }
}

/// First index where `p` occurs in `v`, if any.
#[verifier::loop_isolation(false)]
pub fn find_seq(v: &Vec<char>, p: &Vec<char>) -> (r: Option<usize>)
    requires
        p@.len() > 0,
    ensures
        match r {
            Some(i) => spec_find_seq(v@, p@) == Some(i as int) && i + p@.len() <= v@.len(),
            None => spec_find_seq(v@, p@) is None,
        },
{
    if p.len() > v.len() {
        proof {
            lemma_find_seq_at(v@, p@, 0);
        }
        return None;
    }
    let mut i: usize = 0;
    while i <= v.len() - p.len()
        invariant
            p@.len() <= v@.len(),
            i <= v@.len() - p@.len() + 1,
            forall|k: int| 0 <= k < i ==> !spec_has_prefix(#[trigger] v@.skip(k), p@),
        decreases v@.len() - p@.len() + 1 - i,
    {
        if matches_at(v, i, p) {
            proof {
                lemma_find_seq_at(v@, p@, i as int);
            }
            return Some(i);
        }
        i = i + 1;
    }
    proof {
        lemma_find_seq_at(v@, p@, i as int);
    }
    None
}

/// First index where the literal `p` occurs in `v`, if any.
pub fn find_str(v: &Vec<char>, p: &str) -> (r: Option<usize>)
    requires
        p@.len() > 0,
    ensures
        match r {
            Some(i) => spec_find_seq(v@, p@) == Some(i as int) && i + p@.len() <= v@.len(),
            None => spec_find_seq(v@, p@) is None,
        },
{
    let pv = str_chars(p);
    find_seq(v, &pv)
}

/// Replace every occurrence of the literal `pat` by the literal `rep`.
#[verifier::loop_isolation(false)]
pub fn replace_str(v: &Vec<char>, pat: &str, rep: &str) -> (r: Vec<char>)
    requires
        pat@.len() > 0,
    ensures
        r@ == spec_replace(v@, pat@, rep@),
{
    let patv = str_chars(pat);
    let mut out: Vec<char> = Vec::new();
    let mut pos: usize = 0;
    proof {
        assert(v@.skip(0) =~= v@);
    }
    while pos < v.len()
        invariant
            pos <= v@.len(),
            out@ + spec_replace(v@.skip(pos as int), pat@, rep@) =~= spec_replace(
                v@,
                pat@,
                rep@,
            ),
        decreases v@.len() - pos,
    {
        let ghost rest = v@.skip(pos as int);
        if matches_at(v, pos, &patv) {
            push_str_chars(&mut out, rep);
            pos = pos + patv.len();
            proof {
                assert(rest.skip(pat@.len() as int) =~= v@.skip(pos as int));
                assert(spec_replace(rest, pat@, rep@) == rep@ + spec_replace(
                    v@.skip(pos as int),
                    pat@,
                    rep@,
                ));
            }
        } else {
            out.push(v[pos]);
            pos = pos + 1;
            proof {
                assert(rest.drop_first() =~= v@.skip(pos as int));
                assert(spec_replace(rest, pat@, rep@) == seq![rest.first()] + spec_replace(
                    v@.skip(pos as int),
                    pat@,
                    rep@,
                ));
            }
        }
    }
    proof {
        assert(v@.skip(v@.len() as int) =~= Seq::<char>::empty());
        assert(out@ =~= spec_replace(v@, pat@, rep@));
    }
    out
}

/// ASCII lowercase of one character; other characters unchanged.
pub open spec fn spec_lower_char(c: char) -> char {
    match c {
        'A' => 'a', 'B' => 'b', 'C' => 'c', 'D' => 'd', 'E' => 'e', 'F' => 'f',
        'G' => 'g', 'H' => 'h', 'I' => 'i', 'J' => 'j', 'K' => 'k', 'L' => 'l',
        'M' => 'm', 'N' => 'n', 'O' => 'o', 'P' => 'p', 'Q' => 'q', 'R' => 'r',
        'S' => 's', 'T' => 't', 'U' => 'u', 'V' => 'v', 'W' => 'w', 'X' => 'x',
        'Y' => 'y', 'Z' => 'z', _ => c,
    }
}

/// ASCII uppercase of one character; other characters unchanged.
pub open spec fn spec_upper_char(c: char) -> char {
    match c {
        'a' => 'A', 'b' => 'B', 'c' => 'C', 'd' => 'D', 'e' => 'E', 'f' => 'F',
        'g' => 'G', 'h' => 'H', 'i' => 'I', 'j' => 'J', 'k' => 'K', 'l' => 'L',
        'm' => 'M', 'n' => 'N', 'o' => 'O', 'p' => 'P', 'q' => 'Q', 'r' => 'R',
        's' => 'S', 't' => 'T', 'u' => 'U', 'v' => 'V', 'w' => 'W', 'x' => 'X',
        'y' => 'Y', 'z' => 'Z', _ => c,
    }
}

/// ASCII lowercase of one character.
pub fn lower_char(c: char) -> (r: char)
    ensures
        r == spec_lower_char(c),
{
    match c {
        'A' => 'a', 'B' => 'b', 'C' => 'c', 'D' => 'd', 'E' => 'e', 'F' => 'f',
        'G' => 'g', 'H' => 'h', 'I' => 'i', 'J' => 'j', 'K' => 'k', 'L' => 'l',
        'M' => 'm', 'N' => 'n', 'O' => 'o', 'P' => 'p', 'Q' => 'q', 'R' => 'r',
        'S' => 's', 'T' => 't', 'U' => 'u', 'V' => 'v', 'W' => 'w', 'X' => 'x',
        'Y' => 'y', 'Z' => 'z', _ => c,
    }
}

/// ASCII uppercase of one character.
pub fn upper_char(c: char) -> (r: char)
    ensures
        r == spec_upper_char(c),
{
    match c {
        'a' => 'A', 'b' => 'B', 'c' => 'C', 'd' => 'D', 'e' => 'E', 'f' => 'F',
        'g' => 'G', 'h' => 'H', 'i' => 'I', 'j' => 'J', 'k' => 'K', 'l' => 'L',
        'm' => 'M', 'n' => 'N', 'o' => 'O', 'p' => 'P', 'q' => 'Q', 'r' => 'R',
        's' => 'S', 't' => 'T', 'u' => 'U', 'v' => 'V', 'w' => 'W', 'x' => 'X',
        'y' => 'Y', 'z' => 'Z', _ => c,
    }
}

/// `s` lowercased character by character (ASCII letters only).
pub open spec fn spec_to_lower(s: Seq<char>) -> Seq<char> {
    s.map_values(|c: char| spec_lower_char(c))
}

/// `v` lowercased character by character.
pub fn to_lower(v: &Vec<char>) -> (r: Vec<char>)
    ensures
        r@ == spec_to_lower(v@),
{
    let mut out: Vec<char> = Vec::new();
    let mut i: usize = 0;
    while i < v.len()
        invariant
            i <= v@.len(),
            out@ =~= spec_to_lower(v@.take(i as int)),
        decreases v@.len() - i,
    {
        out.push(lower_char(v[i]));
        i = i + 1;
        proof {
            assert(out@ =~= spec_to_lower(v@.take(i as int)));
        }
    }
    proof {
        assert(v@.take(v@.len() as int) =~= v@);
    }
    out
}

/// `n` copies of `c`.
pub open spec fn spec_repeat_char(c: char, n: int) -> Seq<char>
    decreases n,
{
    if n <= 0 {
        Seq::empty()
    } else {
        spec_repeat_char(c, n - 1).push(c)
    }
}

/// A run of `n` copies of `c`.
pub fn repeat_char(c: char, n: usize) -> (r: Vec<char>)
    ensures
        r@ == spec_repeat_char(c, n as int),
{
    let mut out: Vec<char> = Vec::new();
    let mut i: usize = 0;
    while i < n
        invariant
            i <= n,
            out@ == spec_repeat_char(c, i as int),
        decreases n - i,
    {
        out.push(c);
        i = i + 1;
    }
    out
}

/// Decimal digit character for `d` in 0..10.
pub open spec fn spec_digit_char(d: int) -> char {
    if d == 0 { '0' } else if d == 1 { '1' } else if d == 2 { '2' } else if d == 3 { '3' }
    else if d == 4 { '4' } else if d == 5 { '5' } else if d == 6 { '6' } else if d == 7 { '7' }
    else if d == 8 { '8' } else { '9' }
}

/// Decimal rendering of a non-negative integer, no leading zeros.
pub open spec fn spec_dec(n: int) -> Seq<char>
    decreases n,
{
    if n < 10 {
        seq![spec_digit_char(n)]
    } else {
        spec_dec(n / 10).push(spec_digit_char(n % 10))
    }
}

fn digit_char(d: u64) -> (r: char)
    requires
        d < 10,
    ensures
        r == spec_digit_char(d as int),
{
    match d {
        0 => '0', 1 => '1', 2 => '2', 3 => '3', 4 => '4',
        5 => '5', 6 => '6', 7 => '7', 8 => '8', _ => '9',
    }
}

/// Decimal digits of `n`.
pub fn u64_to_chars(n: u64) -> (r: Vec<char>)
    ensures
        r@ == spec_dec(n as int),
    decreases n,
{
    if n < 10 {
        let mut out: Vec<char> = Vec::new();
        out.push(digit_char(n));
        proof {
            assert(out@ =~= spec_dec(n as int));
        }
        out
    } else {
        let mut out = u64_to_chars(n / 10);
        out.push(digit_char(n % 10));
        out
    }
}

/// Append the decimal digits of `n` to `out`.
pub fn push_dec(out: &mut Vec<char>, n: u64)
    ensures
        final(out)@ == old(out)@ + spec_dec(n as int),
{
    let d = u64_to_chars(n);
    push_all(out, &d);
}

/// Three-way lexicographic comparison of character sequences by
/// scalar value: -1, 0 or 1.
pub open spec fn spec_lex_cmp(a: Seq<char>, b: Seq<char>) -> int
    decreases a.len(),
{
    if a.len() == 0 && b.len() == 0 {
        0
    } else if a.len() == 0 {
        -1
    } else if b.len() == 0 {
        1
    } else if a.first() < b.first() {
        -1
    } else if b.first() < a.first() {
        1
    } else {
        spec_lex_cmp(a.drop_first(), b.drop_first())
    }
}

pub proof fn lemma_lex_cmp_zero(a: Seq<char>, b: Seq<char>)
    ensures
        (spec_lex_cmp(a, b) == 0) <==> (a == b),
    decreases a.len(),
{
    if a.len() > 0 && b.len() > 0 && a.first() == b.first() {
        lemma_lex_cmp_zero(a.drop_first(), b.drop_first());
        if a.drop_first() == b.drop_first() {
            assert(a.drop_first().len() == a.len() - 1);
            assert(b.drop_first().len() == b.len() - 1);
            assert(forall|i: int| 1 <= i < a.len() ==> #[trigger] a[i] == a.drop_first()[i - 1]);
            assert(forall|i: int| 1 <= i < b.len() ==> #[trigger] b[i] == b.drop_first()[i - 1]);
            assert(a =~= b);
        }
        if a == b {
            assert(a.drop_first() =~= b.drop_first());
        }
    } else if a.len() == 0 && b.len() == 0 {
        assert(a =~= b);
    } else {
        assert(a != b);
    }
}

pub proof fn lemma_lex_cmp_antisym(a: Seq<char>, b: Seq<char>)
    ensures
        spec_lex_cmp(a, b) == -spec_lex_cmp(b, a),
    decreases a.len(),
{
    if a.len() > 0 && b.len() > 0 {
        if a.first() == b.first() {
            lemma_lex_cmp_antisym(a.drop_first(), b.drop_first());
        }
    }
}

pub proof fn lemma_lex_cmp_trans(a: Seq<char>, b: Seq<char>, c: Seq<char>)
    requires
        spec_lex_cmp(a, b) <= 0,
        spec_lex_cmp(b, c) <= 0,
    ensures
        spec_lex_cmp(a, c) <= 0,
    decreases a.len() + b.len() + c.len(),
{
    if a.len() > 0 && b.len() > 0 && c.len() > 0 {
        if a.first() == b.first() && b.first() == c.first() {
            lemma_lex_cmp_trans(a.drop_first(), b.drop_first(), c.drop_first());
        }
    }
}

proof fn lemma_lex_cmp_skip(a: Seq<char>, b: Seq<char>, i: int)
    requires
        0 <= i <= a.len(),
        i <= b.len(),
        forall|j: int| 0 <= j < i ==> a[j] == b[j],
    ensures
        spec_lex_cmp(a, b) == spec_lex_cmp(a.skip(i), b.skip(i)),
    decreases i,
{
    if i > 0 {
        assert(a.first() == b.first());
        lemma_lex_cmp_skip(a.drop_first(), b.drop_first(), i - 1);
        assert(a.drop_first().skip(i - 1) =~= a.skip(i));
        assert(b.drop_first().skip(i - 1) =~= b.skip(i));
    } else {
        assert(a.skip(0) =~= a);
        assert(b.skip(0) =~= b);
    }
}

/// Three-way lexicographic comparison: -1, 0 or 1.
#[verifier::loop_isolation(false)]
pub fn lex_cmp(a: &Vec<char>, b: &Vec<char>) -> (r: i8)
    ensures
        r as int == spec_lex_cmp(a@, b@),
{
    let n = if a.len() < b.len() {
        a.len()
    } else {
        b.len()
    };
    let mut i: usize = 0;
    while i < n
        invariant
            i <= n,
            n <= a@.len(),
            n <= b@.len(),
            forall|j: int| 0 <= j < i ==> a@[j] == b@[j],
        decreases n - i,
    {
        if a[i] < b[i] {
            proof {
                lemma_lex_cmp_skip(a@, b@, i as int);
            }
            return -1;
        }
        if b[i] < a[i] {
            proof {
                lemma_lex_cmp_skip(a@, b@, i as int);
            }
            return 1;
        }
        i = i + 1;
    }
    proof {
        lemma_lex_cmp_skip(a@, b@, n as int);
    }
    if a.len() < b.len() {
        -1
    } else if a.len() > b.len() {
        1
    } else {
        0
    }
}

/// Relies on `str::chars` and `Iterator::collect` for `Vec`: the
/// collected vector holds exactly the characters of `s` in order.
#[verifier::external_body]
pub fn str_chars(s: &str) -> (r: Vec<char>)
    ensures
        r@ == s@,
{
    s.chars().collect()
}

/// Relies on `Iterator::collect` for `String`: the collected string
/// holds exactly the characters of `v` in order.
#[verifier::external_body]
pub fn chars_to_string(v: &Vec<char>) -> (r: String)
    ensures
        r@ == v@,
{
    v.iter().collect()
}

} // verus!
