//! Path handling for prediction overlays.
//!
//! A slide's prediction overlay lives beside it under the same
//! identifier with the suffix replaced by `.pred.tiff`.

use vstd::prelude::*;

verus! {

/// `i` is the position of the last `.` in `s`.
pub open spec fn is_last_dot(s: Seq<char>, i: int) -> bool {
    &&& 0 <= i < s.len()
    &&& s[i] == '.'
    &&& forall|j: int| i < j < s.len() ==> s[j] != '.'
}

/// `s` contains a `.`.
pub open spec fn has_dot(s: Seq<char>) -> bool {
    exists|i: int| is_last_dot(s, i)
}

/// Prepare the path of a slide's prediction pendant: everything before
/// the last `.` keeps its place and the suffix becomes `.pred.tiff`; a
/// path without a `.` is returned unchanged.
pub fn replace_suffix_with_pred(path: &str) -> (r: String)
    ensures
        has_dot(path@) ==> exists|i: int|
            is_last_dot(path@, i) && r@ == #[trigger] path@.subrange(0, i) + ".pred.tiff"@,
        !has_dot(path@) ==> r@ == path@,
{
    let n: usize = path.unicode_len();
    let mut k: usize = n;
    while k > 0
        invariant
            0 <= k <= n,
            n == path@.len(),
            forall|j: int| k <= j < n ==> path@[j] != '.',
        decreases k,
    {
        if path.get_char(k - 1) == '.' {
            proof {
                assert(is_last_dot(path@, k - 1));
            }
            let prefix = path.substring_char(0, k - 1);
            let mut out = String::from_str(prefix);
            out.append(".pred.tiff");
            proof {
                assert(out@ == path@.subrange(0, k - 1) + ".pred.tiff"@);
            }
            return out;
        }
        k = k - 1;
    }
    proof {
        assert(!has_dot(path@));
    }
    String::from_str(path)
}

} // verus!
