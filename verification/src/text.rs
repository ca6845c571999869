//! Text as a sequence of characters: the few operations on it that the
//! command line needs.

use vstd::prelude::*;

verus! {

/// Where the field that starts at `from` ends: at the first `stop` at or
/// after `from`, or at the end of `s` where there is none.
pub open spec fn field_end(s: Seq<char>, from: int, stop: char) -> int
    decreases s.len() - from,
{
    if from < s.len() && s[from] != stop {
        field_end(s, from + 1, stop)
    } else {
        from
    }
}

/// The field ends inside `s`, holds no `stop`, and a `stop` or the end of
/// `s` follows it.
pub proof fn lemma_field_end(s: Seq<char>, from: int, stop: char)
    requires
        0 <= from <= s.len(),
    ensures
        from <= field_end(s, from, stop) <= s.len(),
        forall|i: int| from <= i < field_end(s, from, stop) ==> s[i] != stop,
        field_end(s, from, stop) < s.len() ==> s[field_end(s, from, stop)] == stop,
    decreases s.len() - from,
{
    if from < s.len() && s[from] != stop {
        lemma_field_end(s, from + 1, stop);
    }
}

/// The characters of `s`, in order, as a vector that can be indexed in
/// constant time.
pub fn chars_of(s: &str) -> (chars: Vec<char>)
    ensures
        chars@ == s@,
{
    let mut chars: Vec<char> = Vec::new();
    for c in it: s.chars()
        invariant
            chars@ == it.seq().take(it.index() as int),
            it.seq() == s@,
    {
        chars.push(c);
    }
    chars
}

/// Whether `text` begins with all of `prefix`.
pub fn starts_with(text: &[char], prefix: &[char]) -> (found: bool)
    ensures
        found == prefix@.is_prefix_of(text@),
{
    if prefix.len() > text.len() {
        return false;
    }
    let mut i: usize = 0;
    while i < prefix.len()
        invariant
            i <= prefix@.len() <= text@.len(),
            prefix@.take(i as int) == text@.take(i as int),
        decreases prefix.len() - i,
    {
        if prefix[i] != text[i] {
            assert(prefix@[i as int] != text@.subrange(0, prefix@.len() as int)[i as int]);
            return false;
        }
        assert(prefix@.take(i + 1) =~= prefix@.take(i as int).push(prefix@[i as int]));
        assert(text@.take(i + 1) =~= text@.take(i as int).push(text@[i as int]));
        i = i + 1;
    }
    assert(prefix@.take(i as int) =~= prefix@);
    true
}

/// Whether `text` and `other` hold the same characters.
pub fn same_text(text: &[char], other: &[char]) -> (same: bool)
    ensures
        same == (text@ == other@),
{
    if text.len() != other.len() {
        return false;
    }
    let found = starts_with(text, other);
    assert(text@.subrange(0, other@.len() as int) =~= text@);
    found
}

/// The index at which the field of `text` that starts at `from` ends.
pub(crate) fn find_field_end(text: &[char], from: usize, stop: char) -> (end: usize)
    requires
        from <= text@.len(),
    ensures
        end == field_end(text@, from as int, stop),
        from <= end <= text@.len(),
{
    let mut end: usize = from;
    while end < text.len() && text[end] != stop
        invariant
            from <= end <= text@.len(),
            field_end(text@, from as int, stop) == field_end(text@, end as int, stop),
        decreases text.len() - end,
    {
        end = end + 1;
    }
    end
}

} // verus!
