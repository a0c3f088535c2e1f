//! Project data as returned from the remote server, and the prefix
//! the create command derives from a project name.

use vstd::prelude::*;

use crate::text::chars_to_string;
use crate::text::push_all;
use crate::text::push_dec;
use crate::text::push_str_chars;
use crate::text::spec_dec;
use crate::text::spec_upper_char;
use crate::text::str_chars;
use crate::text::upper_char;

verus! {

/// Project information returned from the server.
pub struct ProjectInfo {
    pub name: String,
    pub prefix: String,
    pub path: String,
    pub context_count: usize,
    pub created_at: String,
}

/// One project's line in the project listing.
pub open spec fn spec_project_line(p: &ProjectInfo) -> Seq<char> {
    "  "@ + p.name@ + " ("@ + p.prefix@ + ") - "@ + spec_dec(p.context_count as int)
        + " contexts"@
}

impl ProjectInfo {
    /// The line the project listing prints for this project.
    pub fn summary_line(&self) -> (r: String)
        ensures
            r@ == spec_project_line(self),
    {
        let mut out: Vec<char> = Vec::new();
        push_str_chars(&mut out, "  ");
        push_all(&mut out, &str_chars(self.name.as_str()));
        push_str_chars(&mut out, " (");
        push_all(&mut out, &str_chars(self.prefix.as_str()));
        push_str_chars(&mut out, ") - ");
        push_dec(&mut out, self.context_count as u64);
        push_str_chars(&mut out, " contexts");
        chars_to_string(&out)
    }
}

/// An ASCII letter.
pub open spec fn is_letter(c: char) -> bool {
    ('a' <= c && c <= 'z') || ('A' <= c && c <= 'Z')
}

/// The first `n` letters of `s`, uppercased.
pub open spec fn spec_letters_prefix(s: Seq<char>, n: int) -> Seq<char>
    decreases s.len(),
{
    if s.len() == 0 || n <= 0 {
        Seq::empty()
    } else if is_letter(s.first()) {
        seq![spec_upper_char(s.first())] + spec_letters_prefix(s.drop_first(), n - 1)
    } else {
        spec_letters_prefix(s.drop_first(), n)
    }
}

/// The display prefix derived from a project name when none is given:
/// the first three letters of the name, uppercased.
#[verifier::loop_isolation(false)]
pub fn derive_project_prefix(name: &str) -> (r: String)
    ensures
        r@ == spec_letters_prefix(name@, 3),
{
    let chars = str_chars(name);
    let mut out: Vec<char> = Vec::new();
    let mut i: usize = 0;
    let mut taken: usize = 0;
    proof {
        assert(chars@.skip(0) =~= chars@);
    }
    while i < chars.len() && taken < 3
        invariant
            i <= chars@.len(),
            taken <= 3,
            out@.len() == taken,
            out@ + spec_letters_prefix(chars@.skip(i as int), 3 - taken) =~= spec_letters_prefix(
                chars@,
                3,
            ),
        decreases chars@.len() - i,
    {
        let c = chars[i];
        let ghost rest = chars@.skip(i as int);
        if letter(c) {
            out.push(upper_char(c));
            taken = taken + 1;
        }
        i = i + 1;
        proof {
            assert(rest.drop_first() =~= chars@.skip(i as int));
            assert(out@ + spec_letters_prefix(chars@.skip(i as int), 3 - taken)
                =~= spec_letters_prefix(chars@, 3));
        }
    }
    proof {
        if i == chars@.len() {
            assert(chars@.skip(i as int).len() == 0);
            assert(out@ =~= spec_letters_prefix(chars@, 3));
        } else {
            lemma_letters_prefix_zero(chars@.skip(i as int));
            assert(out@ =~= spec_letters_prefix(chars@, 3));
        }
    }
    chars_to_string(&out)
}

proof fn lemma_letters_prefix_zero(s: Seq<char>)
    ensures
        spec_letters_prefix(s, 0).len() == 0,
    decreases s.len(),
{
    if s.len() > 0 {
        lemma_letters_prefix_zero(s.drop_first());
    }
}

/// Whether `c` is an ASCII letter.
fn letter(c: char) -> (r: bool)
    ensures
        r == is_letter(c),
{
    ('a' <= c && c <= 'z') || ('A' <= c && c <= 'Z')
}

} // verus!
