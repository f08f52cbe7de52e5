//! Text primitives that the standard library computes and the verifier takes
//! on trust.

use vstd::prelude::*;

verus! {

/// The text that `str::trim` returns for `s`: `s` without its leading and
/// trailing white space.
pub uninterp spec fn trimmed(s: Seq<char>) -> Seq<char>;

/// The lower-case form of an ASCII upper-case letter; any other character
/// unchanged.
pub open spec fn ascii_lower(c: char) -> int {
    if 'A' as int <= c as int && c as int <= 'Z' as int {
        c as int + 32
    } else {
        c as int
    }
}

/// Whether two texts are the same once ASCII letters are read without
/// regard to case.
pub open spec fn ascii_case_equal(a: Seq<char>, b: Seq<char>) -> bool {
    &&& a.len() == b.len()
    &&& forall|i: int| 0 <= i < a.len() ==> ascii_lower(#[trigger] a[i]) == ascii_lower(b[i])
}

/// Calls `str::trim`. Trusted: the result is the trimmed text, and it has no
/// white space left at either end, so trimming it again changes nothing.
#[verifier::external_body]
pub(crate) fn trim_text(s: &str) -> (r: &str)
    ensures
        r@ == trimmed(s@),
        trimmed(r@) == r@,
{
    s.trim()
}

/// Calls `str::eq_ignore_ascii_case`. Trusted: the result says whether the
/// two texts match when `A`-`Z` are read as `a`-`z`.
#[verifier::external_body]
pub(crate) fn eq_ignore_case(a: &str, b: &str) -> (r: bool)
    ensures
        r == ascii_case_equal(a@, b@),
{
    a.eq_ignore_ascii_case(b)
}

} // verus!
