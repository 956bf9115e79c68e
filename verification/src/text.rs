//! Small operations on texts, each in one pass over the characters.

use vstd::prelude::*;

verus! {

/// Lower-case form of an ASCII letter; every other character is unchanged.
pub open spec fn ascii_lower(c: char) -> char {
    if 'A' <= c && c <= 'Z' {
        ((c as u8) + 32) as char
    } else {
        c
    }
}

/// A text with every ASCII upper-case letter replaced by its lower-case form.
pub open spec fn lowered(text: Seq<char>) -> Seq<char> {
    Seq::new(text.len(), |i: int| ascii_lower(text[i]))
}

/// Whether `suffix` stands at the end of `text`.
pub open spec fn has_suffix(text: Seq<char>, suffix: Seq<char>) -> bool {
    suffix.len() <= text.len() && text.subrange(text.len() - suffix.len(), text.len() as int)
        == suffix
}

/// Where the last path segment of a text begins: just behind its last `/`,
/// or at 0 when it has none.
pub open spec fn segment_start(text: Seq<char>) -> int
    decreases text.len(),
{
    if text.len() == 0 {
        0
    } else if text.last() == '/' {
        text.len() as int
    } else {
        segment_start(text.drop_last())
    }
}

/// The part of a text behind its last `/`; the whole text when it has none.
pub open spec fn last_segment(text: Seq<char>) -> Seq<char> {
    text.subrange(segment_start(text), text.len() as int)
}

/// A position with no `/` behind it, and with a `/` just before it unless
/// it is 0, is where the last segment begins.
pub proof fn lemma_segment_start(text: Seq<char>, start: int)
    requires
        0 <= start <= text.len(),
        forall|j: int| start <= j < text.len() ==> text[j] != '/',
        start > 0 ==> text[start - 1] == '/',
    ensures
        segment_start(text) == start,
    decreases text.len(),
{
    if text.len() > 0 && text.last() != '/' {
        lemma_segment_start(text.drop_last(), start);
    }
}

/// The characters of a text.
pub fn chars_of(text: &str) -> (chars: Vec<char>)
    ensures
        chars@ == text@,
{
    let mut chars: Vec<char> = Vec::new();
    for c in it: text.chars()
        invariant
            chars@ == it.seq().take(it.index() as int),
            it.seq() == text@,
    {
        chars.push(c);
        assert(chars@ =~= it.seq().take(it.index() + 1));
    }
    assert(chars@ =~= text@);
    chars
}

/// Lowers an ASCII upper-case letter and leaves every other character.
pub fn to_ascii_lower(c: char) -> (lower: char)
    ensures
        lower == ascii_lower(c),
{
    if 'A' <= c && c <= 'Z' {
        ((c as u8) + 32) as char
    } else {
        c
    }
}

/// Whether `text`, with its ASCII letters lowered, is exactly `word`.
pub fn equals_ignoring_case(text: &str, word: &str) -> (equal: bool)
    ensures
        equal == (lowered(text@) == word@),
{
    let given = chars_of(text);
    let wanted = chars_of(word);
    if given.len() != wanted.len() {
        return false;
    }
    let mut i: usize = 0;
    while i < given.len()
        invariant
            i <= given.len(),
            given.len() == wanted.len(),
            given@ == text@,
            wanted@ == word@,
            forall|j: int| 0 <= j < i ==> ascii_lower(text@[j]) == word@[j],
        decreases given.len() - i,
    {
        if to_ascii_lower(given[i]) != wanted[i] {
            assert(lowered(text@)[i as int] != word@[i as int]);
            return false;
        }
        i = i + 1;
    }
    assert(lowered(text@) =~= word@);
    true
}

/// Whether `suffix` stands at the end of `text`.
pub fn ends_with(text: &str, suffix: &str) -> (yes: bool)
    ensures
        yes == has_suffix(text@, suffix@),
{
    let whole = chars_of(text);
    let tail = chars_of(suffix);
    let n: usize = whole.len();
    let m: usize = tail.len();
    if m > n {
        return false;
    }
    let offset: usize = n - m;
    let mut i: usize = 0;
    while i < m
        invariant
            i <= m,
            m <= n,
            offset == n - m,
            whole@ == text@,
            tail@ == suffix@,
            n == text@.len(),
            m == suffix@.len(),
            forall|j: int| 0 <= j < i ==> text@[offset + j] == suffix@[j],
        decreases m - i,
    {
        if whole[offset + i] != tail[i] {
            assert(text@.subrange(n - m, n as int)[i as int] != suffix@[i as int]);
            return false;
        }
        i = i + 1;
    }
    assert(text@.subrange(n - m, n as int) =~= suffix@);
    true
}

/// The part of a text behind its last `/`, as a text of its own.
pub fn last_segment_of(text: &str) -> (segment: String)
    ensures
        segment@ == last_segment(text@),
{
    let chars = chars_of(text);
    let n: usize = chars.len();
    let mut start: usize = n;
    while start > 0
        invariant
            start <= n,
            n == chars@.len(),
            forall|j: int| start <= j < n ==> chars@[j] != '/',
        ensures
            start <= n,
            forall|j: int| start <= j < n ==> chars@[j] != '/',
            start > 0 ==> chars@[start - 1] == '/',
        decreases start,
    {
        if chars[start - 1] == '/' {
            break;
        }
        start = start - 1;
    }
    proof {
        lemma_segment_start(text@, start as int);
    }
    String::from_str(text.substring_char(start, n))
}

} // verus!
