//! The tree diff: the published reference tree and a freshly
//! rendered one are each flattened to a path-sorted file map, and
//! compared path by path into a sorted list of discrepancy messages.

use vstd::prelude::*;

use crate::render::FileV;
use crate::render::TreeFile;
use crate::text::chars_to_string;
use crate::text::lex_cmp;
use crate::text::push_all;
use crate::text::push_str_chars;
use crate::text::spec_lex_cmp;

verus! {

/// `x` placed into the path-sorted file list `s`: before the first
/// entry with a greater path, replacing an entry with the same path.
pub open spec fn spec_insert_file(s: Seq<FileV>, x: FileV) -> Seq<FileV>
    decreases s.len(),
{
    if s.len() == 0 {
        seq![x]
    } else {
        let c = spec_lex_cmp(s.first().path, x.path);
        if c < 0 {
            seq![s.first()] + spec_insert_file(s.drop_first(), x)
        } else if c == 0 {
            seq![x] + s.drop_first()
        } else {
            seq![x] + s
        }
    }
}

/// The file list folded into a path-sorted map: entries inserted in
/// order, a later entry for the same path replacing the earlier one,
/// exactly as a later write to the same file wins on disk.
pub open spec fn spec_tree_map(files: Seq<FileV>) -> Seq<FileV>
    decreases files.len(),
{
    if files.len() == 0 {
        Seq::empty()
    } else {
        spec_insert_file(spec_tree_map(files.drop_last()), files.last())
    }
}

fn file_path_cmp(a: &TreeFile, b: &TreeFile) -> (r: i8)
    ensures
        r as int == spec_lex_cmp(a@.path, b@.path),
{
    lex_cmp(&a.path, &b.path)
}

proof fn lemma_insert_file_at(s: Seq<FileV>, x: FileV, j: int)
    requires
        0 <= j <= s.len(),
        forall|i: int| 0 <= i < j ==> spec_lex_cmp((#[trigger] s[i]).path, x.path) < 0,
        j == s.len() || spec_lex_cmp(s[j].path, x.path) >= 0,
    ensures
        j < s.len() && spec_lex_cmp(s[j].path, x.path) == 0 ==> spec_insert_file(s, x) == s.take(
            j,
        ) + seq![x] + s.skip(j + 1),
        j == s.len() || spec_lex_cmp(s[j].path, x.path) > 0 ==> spec_insert_file(s, x) == s.take(
            j,
        ) + seq![x] + s.skip(j),
    decreases j,
{
    if j == 0 {
        if s.len() > 0 && spec_lex_cmp(s[0].path, x.path) == 0 {
            assert(seq![x] + s.drop_first() =~= s.take(0) + seq![x] + s.skip(1));
        } else {
            assert(seq![x] + s =~= s.take(0) + seq![x] + s.skip(0));
        }
    } else {
        lemma_insert_file_at(s.drop_first(), x, j - 1);
        if j < s.len() && spec_lex_cmp(s[j].path, x.path) == 0 {
            assert(seq![s.first()] + (s.drop_first().take(j - 1) + seq![x] + s.drop_first().skip(
                j,
            )) =~= s.take(j) + seq![x] + s.skip(j + 1));
        } else {
            assert(seq![s.first()] + (s.drop_first().take(j - 1) + seq![x] + s.drop_first().skip(
                j - 1,
            )) =~= s.take(j) + seq![x] + s.skip(j));
        }
    }
}

/// Fold rendered files into a path-sorted map, later entries for a
/// path replacing earlier ones.
#[verifier::loop_isolation(false)]
pub fn to_sorted_map(files: Vec<TreeFile>) -> (r: Vec<TreeFile>)
    ensures
        r.deep_view() == spec_tree_map(files.deep_view()),
{
    let ghost orig = files.deep_view();
    let mut v = files;
    let mut out: Vec<TreeFile> = Vec::new();
    proof {
        assert(v.deep_view() =~= orig.skip(0));
        assert(out.deep_view() =~= spec_tree_map(orig.take(0)));
    }
    while v.len() > 0
        invariant
            v@.len() <= orig.len(),
            v.deep_view() =~= orig.skip(orig.len() - v@.len()),
            out.deep_view() == spec_tree_map(orig.take(orig.len() - v@.len())),
        decreases v@.len(),
    {
        let ghost k = orig.len() - v@.len();
        let ghost vseq = v@;
        let ghost vd = v.deep_view();
        let x = v.remove(0);
        proof {
            assert(x == vseq[0]);
            assert(vd[0] == vseq[0].deep_view());
            assert(x@ == orig[k]);
            assert(forall|ii: int|
                0 <= ii < v@.len() ==> #[trigger] v.deep_view()[ii] == vd[ii + 1]);
            assert(v.deep_view() =~= orig.skip(k + 1));
            assert(orig.take(k + 1).drop_last() =~= orig.take(k));
            assert(orig.take(k + 1).last() == orig[k]);
        }
        let ghost s = out.deep_view();
        let mut j: usize = 0;
        while j < out.len() && file_path_cmp(&out[j], &x) < 0
            invariant
                j <= out@.len(),
                out.deep_view() == s,
                forall|i: int|
                    0 <= i < j ==> spec_lex_cmp((#[trigger] out.deep_view()[i]).path, x@.path)
                        < 0,
            decreases out@.len() - j,
        {
            j = j + 1;
        }
        proof {
            lemma_insert_file_at(s, x@, j as int);
        }
        if j < out.len() && file_path_cmp(&out[j], &x) == 0 {
            out.remove(j);
            out.insert(j, x);
            proof {
                assert(out.deep_view() =~= s.take(j as int) + seq![x@] + s.skip(j + 1));
            }
        } else {
            out.insert(j, x);
            proof {
                assert(out.deep_view() =~= s.take(j as int) + seq![x@] + s.skip(j as int));
            }
        }
        proof {
            assert(out.deep_view() == spec_tree_map(orig.take(k + 1)));
        }
    }
    proof {
        assert(orig.take(orig.len() as int) =~= orig);
    }
    out
}

/// A missing-file message: the generator produces this path but the
/// published tree lacks it.
pub open spec fn spec_missing_msg(path: Seq<char>) -> Seq<char> {
    "missing generated file: "@ + path
}

/// A stale-file message: the published tree holds this path but the
/// generator no longer produces it.
pub open spec fn spec_stale_msg(path: Seq<char>) -> Seq<char> {
    "stale file should be removed: "@ + path
}

/// A mismatch message: both trees hold the path with different text.
pub open spec fn spec_mismatch_msg(path: Seq<char>) -> Seq<char> {
    "content mismatch: "@ + path
}

/// The discrepancies between the published tree and the freshly
/// rendered tree, both given as path-sorted maps: walking the two in
/// step, a path only the fresh tree holds is a missing generated
/// file, a path only the published tree holds is stale, and a shared
/// path with different text is a content mismatch.
pub open spec fn spec_diff(published: Seq<FileV>, fresh: Seq<FileV>) -> Seq<Seq<char>>
    decreases published.len() + fresh.len(),
{
    if published.len() == 0 && fresh.len() == 0 {
        Seq::empty()
    } else if published.len() == 0 {
        seq![spec_missing_msg(fresh.first().path)] + spec_diff(published, fresh.drop_first())
    } else if fresh.len() == 0 {
        seq![spec_stale_msg(published.first().path)] + spec_diff(published.drop_first(), fresh)
    } else {
        let c = spec_lex_cmp(published.first().path, fresh.first().path);
        if c < 0 {
            seq![spec_stale_msg(published.first().path)] + spec_diff(
                published.drop_first(),
                fresh,
            )
        } else if c > 0 {
            seq![spec_missing_msg(fresh.first().path)] + spec_diff(
                published,
                fresh.drop_first(),
            )
        } else {
            let rest = spec_diff(published.drop_first(), fresh.drop_first());
            if published.first().content != fresh.first().content {
                seq![spec_mismatch_msg(published.first().path)] + rest
            } else {
                rest
            }
        }
    }
}

fn msg_with_path(prefix: &str, path: &Vec<char>) -> (r: String)
    ensures
        r@ == prefix@ + path@,
{
    let mut m: Vec<char> = Vec::new();
    push_str_chars(&mut m, prefix);
    push_all(&mut m, path);
    chars_to_string(&m)
}

/// Compare the published tree against a freshly rendered one, both
/// as path-sorted maps, and report every discrepancy in path order.
#[verifier::loop_isolation(false)]
pub fn diff_trees(published: &Vec<TreeFile>, fresh: &Vec<TreeFile>) -> (r: Vec<String>)
    ensures
        r.deep_view() == spec_diff(published.deep_view(), fresh.deep_view()),
{
    let ghost pv = published.deep_view();
    let ghost fv = fresh.deep_view();
    let mut msgs: Vec<String> = Vec::new();
    let mut i: usize = 0;
    let mut j: usize = 0;
    proof {
        assert(pv.skip(0) =~= pv);
        assert(fv.skip(0) =~= fv);
        assert(msgs.deep_view() + spec_diff(pv, fv) =~~= spec_diff(pv, fv));
    }
    while i < published.len() || j < fresh.len()
        invariant
            i <= published@.len(),
            j <= fresh@.len(),
            msgs.deep_view() + spec_diff(pv.skip(i as int), fv.skip(j as int)) =~~= spec_diff(
                pv,
                fv,
            ),
        decreases published@.len() - i + fresh@.len() - j,
    {
        let ghost pi = pv.skip(i as int);
        let ghost fj = fv.skip(j as int);
        let ghost mbefore = msgs.deep_view();
        if i >= published.len() {
            proof {
                assert(fj.first() == fv[j as int]);
                assert(fv[j as int] == fresh@[j as int]@);
            }
            let m = msg_with_path("missing generated file: ", &fresh[j].path);
            msgs.push(m);
            j = j + 1;
            proof {
                assert(pi.len() == 0);
                assert(msgs.deep_view() =~~= mbefore.push(spec_missing_msg(fj.first().path)));
                assert(fj.drop_first() =~= fv.skip(j as int));
            }
        } else if j >= fresh.len() {
            proof {
                assert(pi.first() == pv[i as int]);
                assert(pv[i as int] == published@[i as int]@);
            }
            let m = msg_with_path("stale file should be removed: ", &published[i].path);
            msgs.push(m);
            i = i + 1;
            proof {
                assert(fj.len() == 0);
                assert(msgs.deep_view() =~~= mbefore.push(spec_stale_msg(pi.first().path)));
                assert(pi.drop_first() =~= pv.skip(i as int));
            }
        } else {
            proof {
                assert(pi.first() == pv[i as int]);
                assert(pv[i as int] == published@[i as int]@);
                assert(fj.first() == fv[j as int]);
                assert(fv[j as int] == fresh@[j as int]@);
            }
            let c = file_path_cmp(&published[i], &fresh[j]);
            if c < 0 {
                let m = msg_with_path("stale file should be removed: ", &published[i].path);
                msgs.push(m);
                i = i + 1;
                proof {
                    assert(msgs.deep_view() =~~= mbefore.push(spec_stale_msg(pi.first().path)));
                    assert(pi.drop_first() =~= pv.skip(i as int));
                }
            } else if c > 0 {
                let m = msg_with_path("missing generated file: ", &fresh[j].path);
                msgs.push(m);
                j = j + 1;
                proof {
                    assert(msgs.deep_view() =~~= mbefore.push(
                        spec_missing_msg(fj.first().path),
                    ));
                    assert(fj.drop_first() =~= fv.skip(j as int));
                }
            } else {
                if !crate::text::chars_eq(&published[i].content, &fresh[j].content) {
                    let m = msg_with_path("content mismatch: ", &published[i].path);
                    msgs.push(m);
                    proof {
                        assert(msgs.deep_view() =~~= mbefore.push(
                            spec_mismatch_msg(pi.first().path),
                        ));
                    }
                }
                i = i + 1;
                j = j + 1;
                proof {
                    assert(pi.drop_first() =~= pv.skip(i as int));
                    assert(fj.drop_first() =~= fv.skip(j as int));
                }
            }
        }
        proof {
            assert(msgs.deep_view() + spec_diff(pv.skip(i as int), fv.skip(j as int)) =~~=
                spec_diff(pv, fv));
        }
    }
    proof {
        assert(pv.skip(pv.len() as int).len() == 0);
        assert(fv.skip(fv.len() as int).len() == 0);
        assert(msgs.deep_view() =~~= spec_diff(pv, fv));
    }
    msgs
}

/// Equal trees show no drift: diffing any file map against itself
/// yields no messages. With rendering a pure function of the sorted
/// records, this is why a check right after a sync reports clean.
pub proof fn lemma_diff_self_empty(t: Seq<FileV>)
    ensures
        spec_diff(t, t).len() == 0,
    decreases t.len(),
{
    if t.len() > 0 {
        lemma_diff_self_empty(t.drop_first());
        crate::text::lemma_lex_cmp_zero(t.first().path, t.first().path);
    }
}

} // verus!
