//! Comparing and searching the short texts that name tools, handles and inputs.

use vstd::prelude::*;

verus! {

/// Whether `pattern` occurs in `text` as a run of consecutive characters.
pub open spec fn has_substring(text: Seq<char>, pattern: Seq<char>) -> bool {
    exists|i: int|
        0 <= i <= text.len() - pattern.len() && #[trigger] text.subrange(i, i + pattern.len())
            == pattern
}

/// Whether the two texts have the same characters.
pub fn same_text(a: &str, b: &str) -> (same: bool)
    ensures
        same == (a@ == b@),
{
    let len: usize = a.unicode_len();
    if b.unicode_len() != len {
        return false;
    }
    let mut index: usize = 0;
    while index < len
        invariant
            index <= len,
            len == a@.len(),
            len == b@.len(),
            forall|i: int| 0 <= i < index ==> a@[i] == b@[i],
        decreases len - index,
    {
        if a.get_char(index) != b.get_char(index) {
            return false;
        }
        index = index + 1;
    }
    assert(a@ =~= b@);
    true
}

/// Whether `pattern` occurs in `text` at the given position.
fn occurs_at(text: &str, pattern: &str, start: usize, len: usize) -> (found: bool)
    requires
        len == pattern@.len(),
        start + len <= text@.len() <= usize::MAX,
    ensures
        found == (text@.subrange(start as int, start + len) == pattern@),
{
    let mut index: usize = 0;
    while index < len
        invariant
            index <= len,
            len == pattern@.len(),
            start + len <= text@.len() <= usize::MAX,
            forall|i: int| 0 <= i < index ==> text@[start + i] == pattern@[i],
        decreases len - index,
    {
        if text.get_char(start + index) != pattern.get_char(index) {
            assert(text@.subrange(start as int, start + len)[index as int] != pattern@[index as int]);
            return false;
        }
        index = index + 1;
    }
    assert(text@.subrange(start as int, start + len) =~= pattern@);
    true
}

/// Whether `pattern` occurs somewhere in `text`.
pub fn contains(text: &str, pattern: &str) -> (found: bool)
    ensures
        found == has_substring(text@, pattern@),
{
    let text_len: usize = text.unicode_len();
    let len: usize = pattern.unicode_len();
    if len > text_len {
        return false;
    }
    let last: usize = text_len - len;
    let mut start: usize = 0;
    loop
        invariant
            start <= last,
            last == text@.len() - pattern@.len(),
            text_len == text@.len(),
            len == pattern@.len(),
            forall|i: int| 0 <= i < start ==> #[trigger] text@.subrange(i, i + len) != pattern@,
        decreases last - start,
    {
        if occurs_at(text, pattern, start, len) {
            return true;
        }
        if start == last {
            return false;
        }
        start = start + 1;
    }
}

} // verus!
