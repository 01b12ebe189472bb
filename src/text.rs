//! String helpers shared by the resolver, the classifier and the code
//! generator.

use vstd::prelude::*;

verus! {

/// Whether `s` holds exactly the characters of `w`.
pub fn is_word(s: &String, w: &str) -> (r: bool)
    ensures
        r == (s@ == w@),
{
    let lit = String::from_str(w);
    *s == lit
}

/// Whether `p` occurs in `s` starting at `i`.
pub open spec fn occurs_at(s: Seq<char>, p: Seq<char>, i: int) -> bool {
    0 <= i && i + p.len() <= s.len() && s.subrange(i, i + p.len()) == p
}

/// `s` with the first occurrence of `p` replaced by `t`; `s` itself where
/// `p` does not occur.
pub open spec fn replaced_first(s: Seq<char>, p: Seq<char>, t: Seq<char>) -> Seq<char> {
    if exists|i: int| occurs_at(s, p, i) {
        let i = choose|i: int|
            occurs_at(s, p, i) && forall|j: int| 0 <= j < i ==> !occurs_at(s, p, j);
        s.subrange(0, i) + t + s.subrange(i + p.len(), s.len() as int)
    } else {
        s
    }
}

/// Relies on `str::replacen` with a count of one: the first match of the
/// pattern, searching from the start, is replaced.
#[verifier::external_body]
pub(crate) fn replace_first(s: &str, p: &str, t: &str) -> (r: String)
    ensures
        r@ == replaced_first(s@, p@, t@),
{
    s.replacen(p, t, 1)
}

} // verus!
