//! The extraction allowlist bundled with the setup assets: which
//! context projects the setup command copies into a working
//! directory.

use vstd::prelude::*;

use crate::scan::spec_lines;
use crate::scan::split_lines;
use crate::text::chars_to_string;
use crate::text::spec_trim;
use crate::text::str_chars;
use crate::text::trim;

verus! {

/// The allowlist entries of the file's lines: each line trimmed,
/// blank lines and comment lines dropped.
pub open spec fn spec_allow_entries(ls: Seq<Seq<char>>) -> Seq<Seq<char>>
    decreases ls.len(),
{
    if ls.len() == 0 {
        Seq::empty()
    } else {
        let prev = spec_allow_entries(ls.drop_last());
        let t = spec_trim(ls.last());
        if t.len() > 0 && t.first() != '#' {
            prev.push(t)
        } else {
            prev
        }
    }
}

/// The context projects the setup command extracts: the allowlist
/// file's entries, or the one default project when the file has none.
pub open spec fn spec_parse_allowlist(content: Seq<char>) -> Seq<Seq<char>> {
    let e = spec_allow_entries(spec_lines(content));
    if e.len() == 0 {
        seq!["fumadocs"@]
    } else {
        e
    }
}

/// Parse the extraction allowlist file.
#[verifier::loop_isolation(false)]
pub fn parse_allowlist(content: &str) -> (r: Vec<String>)
    ensures
        r.deep_view() == spec_parse_allowlist(content@),
{
    let cv = str_chars(content);
    let lines = split_lines(&cv);
    let ghost lv = lines.deep_view();
    let mut entries: Vec<String> = Vec::new();
    let mut i: usize = 0;
    proof {
        assert(lv.take(0) =~= Seq::<Seq<char>>::empty());
        assert(entries.deep_view() =~= Seq::<Seq<char>>::empty());
    }
    while i < lines.len()
        invariant
            i <= lines@.len(),
            lines.deep_view() == lv,
            entries.deep_view() == spec_allow_entries(lv.take(i as int)),
        decreases lines@.len() - i,
    {
        proof {
            assert(lv[i as int] == lines@[i as int]@);
        }
        let t = trim(&lines[i]);
        if t.len() > 0 && t[0] != '#' {
            let ghost before = entries.deep_view();
            entries.push(chars_to_string(&t));
            proof {
                assert(entries.deep_view() =~~= before.push(entries@[entries@.len() - 1]@));
            }
        }
        i = i + 1;
        proof {
            assert(lv.take(i as int).drop_last() =~= lv.take(i - 1));
            assert(lv.take(i as int).last() == lv[i - 1]);
        }
    }
    proof {
        assert(lv.take(lv.len() as int) =~= lv);
    }
    if entries.len() == 0 {
        let mut d: Vec<String> = Vec::new();
        d.push(chars_to_string(&str_chars("fumadocs")));
        proof {
            assert(d.deep_view() =~~= seq!["fumadocs"@]);
        }
        d
    } else {
        entries
    }
}

} // verus!
