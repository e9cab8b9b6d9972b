//! Case-insensitive substring matching.
//!
//! The device enumerates its effects and palettes by name; the ones we need
//! are found by matching fixed ASCII patterns against those names without
//! regard to letter case.  Folding maps ASCII capitals to lower case and
//! leaves every other character alone.

use vstd::prelude::*;

verus! {

/// Unicode value of a character with an ASCII capital folded to lower
/// case.
pub open spec fn fold_char(c: char) -> int {
    if 'A' as int <= c as int && c as int <= 'Z' as int {
        c as int + 32
    } else {
        c as int
    }
}

/// The needle occurs at position `k` of the haystack, compared case
/// insensitively.
pub open spec fn matches_at(hay: Seq<char>, needle: Seq<char>, k: int) -> bool {
    &&& 0 <= k
    &&& k + needle.len() <= hay.len()
    &&& forall|i: int|
        0 <= i < needle.len() ==> fold_char(hay[k + i]) == fold_char(#[trigger] needle[i])
}

/// The haystack contains the needle somewhere, compared case
/// insensitively.
pub open spec fn contains_ci(hay: Seq<char>, needle: Seq<char>) -> bool {
    exists|k: int| matches_at(hay, needle, k)
}

/// Folded value of one character.
pub fn fold_char_val(c: char) -> (r: u32)
    ensures
        r == fold_char(c),
{
    let u = c as u32;
    if 65 <= u && u <= 90 {
        u + 32
    } else {
        u
    }
}

/// Whether the needle occurs at position `k` of the haystack.
fn matches_at_str(hay: &str, needle: &str, k: usize) -> (r: bool)
    requires
        k + needle@.len() <= hay@.len(),
    ensures
        r == matches_at(hay@, needle@, k as int),
{
    let hlen = hay.unicode_len();
    let nlen = needle.unicode_len();
    let mut i: usize = 0;
    while i < nlen
        invariant
            i <= nlen,
            nlen == needle@.len(),
            hlen == hay@.len(),
            k + nlen <= hlen,
            forall|j: int| 0 <= j < i ==> fold_char(hay@[k + j]) == fold_char(#[trigger] needle@[j]),
        decreases nlen - i,
    {
        let hc = fold_char_val(hay.get_char(k + i));
        let nc = fold_char_val(needle.get_char(i));
        if hc != nc {
            return false;
        }
        i += 1;
    }
    true
}

/// Whether the haystack contains the needle, compared case insensitively.
pub fn contains_ci_str(hay: &str, needle: &str) -> (r: bool)
    ensures
        r == contains_ci(hay@, needle@),
{
    let hlen = hay.unicode_len();
    let nlen = needle.unicode_len();
    if nlen > hlen {
        assert(forall|k: int| !matches_at(hay@, needle@, k));
        return false;
    }
    let mut k: usize = 0;
    while k <= hlen - nlen
        invariant
            hlen == hay@.len(),
            nlen == needle@.len(),
            nlen <= hlen,
            k <= hlen - nlen + 1,
            forall|j: int| 0 <= j < k ==> !matches_at(hay@, needle@, j),
        decreases hlen - nlen + 1 - k,
    {
        if matches_at_str(hay, needle, k) {
            return true;
        }
        k += 1;
    }
    assert(forall|j: int| !matches_at(hay@, needle@, j));
    false
}

} // verus!
