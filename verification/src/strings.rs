//! Verified string helpers.
//!
//! Instance names, record fields and header values are compared and
//! assembled character by character, so the few primitive operations
//! the library needs are specified here over `Seq<char>` views.

use vstd::prelude::*;

verus! {

/// Relies on `String::push` from std: appending one character to the
/// end of the string.
pub assume_specification[ String::push ](s: &mut String, c: char)
    ensures
        final(s)@ == old(s)@ + seq![c],
;

/// Character-wise equality of two string slices.
pub fn str_eq(a: &str, b: &str) -> (r: bool)
    ensures
        r == (a@ == b@),
{
    let la = a.unicode_len();
    let lb = b.unicode_len();
    if la != lb {
        proof {
            assert(a@.len() != b@.len());
        }
        return false;
    }
    let mut i: usize = 0;
    while i < la
        invariant
            la == a@.len(),
            la == b@.len(),
            i <= la,
            forall|k: int| 0 <= k < i ==> a@[k] == b@[k],
        decreases la - i,
    {
        if a.get_char(i) != b.get_char(i) {
            return false;
        }
        i = i + 1;
    }
    proof {
        assert(a@ =~= b@);
    }
    true
}

/// Whether `s` ends with `suffix`, at character level.
pub open spec fn spec_ends_with(s: Seq<char>, suffix: Seq<char>) -> bool {
    s.len() >= suffix.len() && s.subrange(s.len() - suffix.len(), s.len() as int) == suffix
}

/// Whether `s` ends with `suffix`.
pub fn ends_with(s: &str, suffix: &str) -> (r: bool)
    ensures
        r == spec_ends_with(s@, suffix@),
{
    let ls = s.unicode_len();
    let lf = suffix.unicode_len();
    if ls < lf {
        return false;
    }
    let mut i: usize = 0;
    while i < lf
        invariant
            ls == s@.len(),
            lf == suffix@.len(),
            lf <= ls,
            i <= lf,
            forall|k: int| 0 <= k < i ==> s@[ls - lf + k] == suffix@[k],
        decreases lf - i,
    {
        if s.get_char(ls - lf + i) != suffix.get_char(i) {
            proof {
                assert(s@.subrange(s@.len() - suffix@.len(), s@.len() as int)[i as int]
                    == s@[ls - lf + i]);
            }
            return false;
        }
        i = i + 1;
    }
    proof {
        assert(s@.subrange(s@.len() - suffix@.len(), s@.len() as int) =~= suffix@);
    }
    true
}

/// `s` with every trailing occurrence of `suffix` removed, as
/// `str::trim_end_matches` leaves it.
pub open spec fn spec_trim_end_matches(s: Seq<char>, suffix: Seq<char>) -> Seq<char>
    decreases s.len(),
{
    if suffix.len() == 0 || !spec_ends_with(s, suffix) {
        s
    } else {
        spec_trim_end_matches(s.subrange(0, s.len() - suffix.len()), suffix)
    }
}

/// Remove every trailing occurrence of `suffix` from `s`.
pub fn trim_end_matches(s: &str, suffix: &str) -> (r: String)
    ensures
        r@ == spec_trim_end_matches(s@, suffix@),
{
    let lf = suffix.unicode_len();
    let mut cur: String = s.to_owned();
    if lf == 0 {
        return cur;
    }
    loop
        invariant
            lf == suffix@.len(),
            lf > 0,
            spec_trim_end_matches(cur@, suffix@) == spec_trim_end_matches(s@, suffix@),
        ensures
            cur@ == spec_trim_end_matches(s@, suffix@),
        decreases cur@.len(),
    {
        if !ends_with(cur.as_str(), suffix) {
            proof {
                assert(spec_trim_end_matches(cur@, suffix@) == cur@);
            }
            break;
        }
        let lc = cur.as_str().unicode_len();
        let next = cur.as_str().substring_char(0, lc - lf).to_owned();
        cur = next;
    }
    cur
}

/// `s` with one trailing occurrence of `suffix` removed when it ends
/// with `suffix`, otherwise `s` unchanged.
pub open spec fn spec_strip_suffix(s: Seq<char>, suffix: Seq<char>) -> Seq<char> {
    if suffix.len() > 0 && spec_ends_with(s, suffix) {
        s.subrange(0, s.len() - suffix.len())
    } else {
        s
    }
}

/// Remove one trailing occurrence of `suffix` from `s`, if present.
pub fn strip_suffix_once(s: &str, suffix: &str) -> (r: String)
    ensures
        r@ == spec_strip_suffix(s@, suffix@),
{
    let lf = suffix.unicode_len();
    if lf > 0 && ends_with(s, suffix) {
        let ls = s.unicode_len();
        s.substring_char(0, ls - lf).to_owned()
    } else {
        s.to_owned()
    }
}

} // verus!
