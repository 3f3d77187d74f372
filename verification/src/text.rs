//! Plain text as sequences of characters: reading the characters of a string
//! and searching a text for a pattern.

use vstd::prelude::*;
use vstd::utf8::{decode_utf8, valid_utf8};

verus! {

/// Whether `pattern` stands in `text` at position `at`.
pub open spec fn occurs_at(text: Seq<char>, pattern: Seq<char>, at: int) -> bool {
    &&& 0 <= at
    &&& at + pattern.len() <= text.len()
    &&& text.subrange(at, at + pattern.len()) == pattern
}

/// The least position at or after `from` at which `pattern` stands in `text`.
pub open spec fn occurrence_from(text: Seq<char>, pattern: Seq<char>, from: int) -> Option<int>
    decreases text.len() + 1 - from,
{
    if from < 0 || from + pattern.len() > text.len() {
        None
    } else if occurs_at(text, pattern, from) {
        Some(from)
    } else {
        occurrence_from(text, pattern, from + 1)
    }
}

/// The position of the leftmost occurrence of `pattern` in `text`.
pub open spec fn first_occurrence(text: Seq<char>, pattern: Seq<char>) -> Option<int> {
    occurrence_from(text, pattern, 0)
}

/// `occurrence_from` finds an occurrence that no other one at or after `from`
/// precedes, and finds none only where there is none.
pub proof fn lemma_occurrence_from(text: Seq<char>, pattern: Seq<char>, from: int)
    requires
        0 <= from,
    ensures
        match occurrence_from(text, pattern, from) {
            Some(at) => {
                &&& from <= at
                &&& occurs_at(text, pattern, at)
                &&& forall|j: int| from <= j < at ==> !occurs_at(text, pattern, j)
            },
            None => forall|j: int| from <= j ==> !occurs_at(text, pattern, j),
        },
    decreases text.len() + 1 - from,
{
    if from + pattern.len() > text.len() {
    } else if occurs_at(text, pattern, from) {
    } else {
        lemma_occurrence_from(text, pattern, from + 1);
    }
}

/// An occurrence with none before it is the first one.
pub proof fn lemma_first_occurrence_is(text: Seq<char>, pattern: Seq<char>, at: int)
    requires
        occurs_at(text, pattern, at),
        forall|j: int| 0 <= j < at ==> !occurs_at(text, pattern, j),
    ensures
        first_occurrence(text, pattern) == Some(at),
{
    lemma_occurrence_from(text, pattern, 0);
}

/// A text without any occurrence has no first one.
pub proof fn lemma_first_occurrence_none(text: Seq<char>, pattern: Seq<char>)
    requires
        forall|j: int| 0 <= j ==> !occurs_at(text, pattern, j),
    ensures
        first_occurrence(text, pattern) is None,
{
    lemma_occurrence_from(text, pattern, 0);
}

/// The characters of a string, in order.
pub fn chars_of(text: &str) -> (chars: Vec<char>)
    ensures
        chars@ == text@,
{
    let mut chars: Vec<char> = Vec::new();
    for c in it: text.chars()
        invariant
            chars@ == it.seq().take(it.index()),
            it.seq() == text@,
    {
        chars.push(c);
    }
    chars
}

/// Whether `pattern` stands in `text` at position `at`.
pub fn matches_at(text: &Vec<char>, pattern: &Vec<char>, at: usize) -> (found: bool)
    ensures
        found == occurs_at(text@, pattern@, at as int),
{
    if pattern.len() > text.len() || at > text.len() - pattern.len() {
        return false;
    }
    let mut k: usize = 0;
    while k < pattern.len()
        invariant
            k <= pattern.len(),
            at + pattern.len() <= text.len(),
            forall|j: int| 0 <= j < k ==> text@[at + j] == pattern@[j],
        decreases pattern.len() - k,
    {
        if text[at + k] != pattern[k] {
            assert(text@.subrange(at as int, at + pattern.len())[k as int] != pattern@[k as int]);
            return false;
        }
        k += 1;
    }
    assert(text@.subrange(at as int, at + pattern.len()) =~= pattern@);
    true
}

/// Searches `text[from..to]` for the leftmost occurrence of `pattern` and
/// returns its position in `text`.
pub fn find(text: &Vec<char>, pattern: &Vec<char>, from: usize, to: usize) -> (found: Option<usize>)
    requires
        from <= to <= text.len(),
    ensures
        match found {
            Some(at) => {
                &&& from <= at
                &&& at + pattern.len() <= to
                &&& first_occurrence(text@.subrange(from as int, to as int), pattern@) == Some(
                    at - from,
                )
            },
            None => first_occurrence(text@.subrange(from as int, to as int), pattern@) is None,
        },
{
    let ghost part = text@.subrange(from as int, to as int);
    if pattern.len() == 0 {
        proof {
            assert(part.subrange(0, 0) =~= pattern@);
            lemma_first_occurrence_is(part, pattern@, 0);
        }
        return Some(from);
    }
    if pattern.len() > to - from {
        proof {
            lemma_first_occurrence_none(part, pattern@);
        }
        return None;
    }
    let last: usize = to - pattern.len();
    let mut at: usize = from;
    while at <= last
        invariant
            from <= at <= last + 1,
            last + pattern.len() == to,
            pattern.len() > 0,
            to <= text.len(),
            part == text@.subrange(from as int, to as int),
            forall|j: int| 0 <= j < at - from ==> !occurs_at(part, pattern@, j),
        decreases last + 1 - at,
    {
        let here = matches_at(text, pattern, at);
        proof {
            assert(part.subrange(at - from, at - from + pattern.len()) =~= text@.subrange(
                at as int,
                at + pattern.len(),
            ));
        }
        if here {
            proof {
                lemma_first_occurrence_is(part, pattern@, at - from);
            }
            return Some(at);
        }
        at += 1;
    }
    proof {
        lemma_first_occurrence_none(part, pattern@);
    }
    None
}

/// Calls `String::from_utf8`. Bytes that are valid UTF-8 become the text
/// that they encode, and other bytes give no text.
#[verifier::external_body]
pub(crate) fn utf8_text(bytes: Vec<u8>) -> (text: Option<String>)
    ensures
        text matches Some(t) ==> valid_utf8(bytes@) && t@ == decode_utf8(bytes@),
        text is None ==> !valid_utf8(bytes@),
{
    match String::from_utf8(bytes) {
        Ok(text) => Some(text),
        Err(_) => None,
    }
}

} // verus!
