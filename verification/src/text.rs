//! Exact, case-sensitive substring detection.
//!
//! Completion of the supervised agent is signalled by one thing only: the
//! configured marker occurring somewhere in the captured output. The scan is
//! a raw substring match, not anchored to line boundaries.

use vstd::prelude::*;

verus! {

/// `needle` occurs in `hay` starting at character position `i`.
pub open spec fn is_match_at(hay: Seq<char>, needle: Seq<char>, i: int) -> bool {
    0 <= i && i + needle.len() <= hay.len() && hay.subrange(i, i + needle.len() as int)
        == needle
}

/// `needle` occurs somewhere in `hay` (exact, case-sensitive, anywhere).
pub open spec fn contains_seq(hay: Seq<char>, needle: Seq<char>) -> bool {
    exists|i: int| is_match_at(hay, needle, i)
}

/// Occurrences survive appending more text on the right.
pub proof fn lemma_contains_extend(hay: Seq<char>, tail: Seq<char>, needle: Seq<char>)
    requires
        contains_seq(hay, needle),
    ensures
        contains_seq(hay + tail, needle),
{
    let i = choose|i: int| is_match_at(hay, needle, i);
    assert((hay + tail).subrange(i, i + needle.len() as int) =~= needle);
    assert(is_match_at(hay + tail, needle, i));
}

/// Compares `needle` against `hay` at character position `i`.
fn match_at(hay: &str, needle: &str, i: usize, n: usize) -> (r: bool)
    requires
        n == needle@.len(),
        i + n <= hay@.len(),
        i + n <= usize::MAX,
    ensures
        r == is_match_at(hay@, needle@, i as int),
{
    let mut j: usize = 0;
    while j < n
        invariant
            j <= n,
            n == needle@.len(),
            i + n <= hay@.len(),
            i + n <= usize::MAX,
            forall|k: int| 0 <= k < j ==> hay@[i + k] == needle@[k],
        decreases n - j,
    {
        if hay.get_char(i + j) != needle.get_char(j) {
            assert(!is_match_at(hay@, needle@, i as int)) by {
                assert(hay@.subrange(i as int, i + n as int)[j as int] == hay@[i + j]);
            }
            return false;
        }
        j += 1;
    }
    assert(hay@.subrange(i as int, i + n as int) =~= needle@);
    true
}

/// Raw substring scan: true exactly when `needle` occurs in `hay`.
pub fn contains_str(hay: &str, needle: &str) -> (r: bool)
    ensures
        r == contains_seq(hay@, needle@),
{
    let hay_len: usize = hay.unicode_len();
    let needle_len: usize = needle.unicode_len();
    if needle_len > hay_len {
        assert(forall|i: int| !is_match_at(hay@, needle@, i));
        return false;
    }
    if needle_len == 0 {
        assert(is_match_at(hay@, needle@, 0)) by {
            assert(hay@.subrange(0, 0) =~= needle@);
        }
        return true;
    }
    let last: usize = hay_len - needle_len;
    let mut i: usize = 0;
    while i <= last
        invariant
            needle_len == needle@.len(),
            hay_len == hay@.len(),
            1 <= needle_len <= hay_len,
            last == hay_len - needle_len,
            i <= last + 1,
            forall|k: int| 0 <= k < i ==> !is_match_at(hay@, needle@, k),
        decreases last + 1 - i,
    {
        if match_at(hay, needle, i, needle_len) {
            return true;
        }
        i += 1;
    }
    assert(forall|k: int| !is_match_at(hay@, needle@, k)) by {
        assert(forall|k: int| k > last ==> !is_match_at(hay@, needle@, k));
    }
    false
}

} // verus!
