//! Trimming and validation of message text.
//!
//! A message is accepted when its text, after removing leading and trailing
//! whitespace, is between one and 128 characters long.  Anything shorter or
//! longer is rejected before it can reach the queue or the current slot.

use vstd::prelude::*;

verus! {

/// Longest a message may be, in characters, after trimming.
pub const MAX_TEXT_CHARS: usize = 128;

/// A character with the Unicode `White_Space` property, the set that
/// `str::trim` removes from either end.
pub open spec fn is_space(c: char) -> bool {
    let u = c as int;
    u == 0x20 || (0x9 <= u && u <= 0xd) || u == 0x85 || u == 0xa0 || u == 0x1680 || (0x2000 <= u
        && u <= 0x200a) || u == 0x2028 || u == 0x2029 || u == 0x202f || u == 0x205f || u == 0x3000
}

/// The sequence with its leading whitespace removed.
pub open spec fn trim_start(s: Seq<char>) -> Seq<char>
    decreases s.len(),
{
    if s.len() > 0 && is_space(s[0]) {
        trim_start(s.drop_first())
    } else {
        s
    }
}

/// The sequence with its trailing whitespace removed.
pub open spec fn trim_end(s: Seq<char>) -> Seq<char>
    decreases s.len(),
{
    if s.len() > 0 && is_space(s.last()) {
        trim_end(s.drop_last())
    } else {
        s
    }
}

/// The sequence with whitespace removed from both ends.
pub open spec fn spec_trim(s: Seq<char>) -> Seq<char> {
    trim_end(trim_start(s))
}

/// Message text is valid when, after trimming, it is neither empty nor
/// longer than `MAX_TEXT_CHARS` characters.
pub open spec fn valid_text(t: Seq<char>) -> bool {
    1 <= t.len() <= MAX_TEXT_CHARS
}

/// Removing leading whitespace keeps exactly the suffix that starts at the
/// first non-space character.
proof fn lemma_trim_start_at(s: Seq<char>, k: int)
    requires
        0 <= k <= s.len(),
        forall|i: int| 0 <= i < k ==> is_space(#[trigger] s[i]),
        k == s.len() || !is_space(s[k]),
    ensures
        trim_start(s) == s.subrange(k, s.len() as int),
    decreases k,
{
    if k == 0 {
        assert(trim_start(s) =~= s.subrange(0, s.len() as int));
    } else {
        lemma_trim_start_at(s.drop_first(), k - 1);
        assert(s.drop_first().subrange(k - 1, s.drop_first().len() as int) =~= s.subrange(
            k,
            s.len() as int,
        ));
    }
}

/// Removing trailing whitespace keeps exactly the prefix that ends after
/// the last non-space character.
proof fn lemma_trim_end_at(s: Seq<char>, h: int)
    requires
        0 <= h <= s.len(),
        forall|i: int| h <= i < s.len() ==> is_space(#[trigger] s[i]),
        h == 0 || !is_space(s[h - 1]),
    ensures
        trim_end(s) == s.subrange(0, h),
    decreases s.len(),
{
    if s.len() > 0 && is_space(s.last()) {
        lemma_trim_end_at(s.drop_last(), h);
        assert(s.drop_last().subrange(0, h) =~= s.subrange(0, h));
    } else {
        assert(trim_end(s) =~= s.subrange(0, h));
    }
}

/// Whether a character belongs to the Unicode whitespace set.
pub fn is_space_char(c: char) -> (r: bool)
    ensures
        r == is_space(c),
{
    let u = c as u32;
    u == 0x20 || (0x9 <= u && u <= 0xd) || u == 0x85 || u == 0xa0 || u == 0x1680 || (0x2000 <= u
        && u <= 0x200a) || u == 0x2028 || u == 0x2029 || u == 0x202f || u == 0x205f || u == 0x3000
}

/// Removes leading and trailing whitespace from a string.
pub fn trim_text(s: &str) -> (r: String)
    ensures
        r@ == spec_trim(s@),
{
    let len = s.unicode_len();
    let mut lo: usize = 0;
    while lo < len && is_space_char(s.get_char(lo))
        invariant
            lo <= len,
            len == s@.len(),
            forall|i: int| 0 <= i < lo ==> is_space(#[trigger] s@[i]),
        decreases len - lo,
    {
        lo += 1;
    }
    let mut hi: usize = len;
    while hi > lo && is_space_char(s.get_char(hi - 1))
        invariant
            lo <= hi <= len,
            len == s@.len(),
            forall|i: int| hi <= i < len ==> is_space(#[trigger] s@[i]),
        decreases hi,
    {
        hi -= 1;
    }
    proof {
        lemma_trim_start_at(s@, lo as int);
        let t = s@.subrange(lo as int, s@.len() as int);
        lemma_trim_end_at(t, hi - lo);
        assert(t.subrange(0, hi - lo) =~= s@.subrange(lo as int, hi as int));
    }
    let sub = s.substring_char(lo, hi);
    sub.to_owned()
}

/// Trims the text and accepts it when the result is between one and
/// `MAX_TEXT_CHARS` characters long; rejects it otherwise.
pub fn validate_text(s: &str) -> (r: Option<String>)
    ensures
        r matches Some(t) ==> t@ == spec_trim(s@) && valid_text(t@),
        r is None <==> !valid_text(spec_trim(s@)),
{
    let t = trim_text(s);
    let n = t.as_str().unicode_len();
    if n == 0 || n > MAX_TEXT_CHARS {
        None
    } else {
        Some(t)
    }
}

} // verus!
