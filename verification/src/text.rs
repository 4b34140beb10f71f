//! Taking texts apart: splitting at a character or a word, and leaving
//! characters or words out.

use vstd::prelude::*;
use vstd::string::{StrSliceExecFns, StringExecFns};

verus! {

/// Whether `pattern` stands in `text` at index `at`.
pub open spec fn occurs_at(text: Seq<char>, pattern: Seq<char>, at: int) -> bool {
    &&& 0 <= at
    &&& at + pattern.len() <= text.len()
    &&& text.subrange(at, at + pattern.len()) == pattern
}

/// Whether `at` is where `pattern` first stands in `text`.
pub open spec fn is_first_occurrence(text: Seq<char>, pattern: Seq<char>, at: int) -> bool {
    &&& occurs_at(text, pattern, at)
    &&& forall|j: int| 0 <= j < at ==> !occurs_at(text, pattern, j)
}

/// `text` split at the first place where `pattern` stands: what is before it
/// and what is after it, or `None` where `pattern` does not occur.
pub open spec fn split_once_spec(text: Seq<char>, pattern: Seq<char>) -> Option<
    (Seq<char>, Seq<char>),
> {
    if exists|at: int| is_first_occurrence(text, pattern, at) {
        let at = choose|at: int| is_first_occurrence(text, pattern, at);
        Some((text.take(at), text.skip(at + pattern.len())))
    } else {
        None
    }
}

/// `text` without the occurrences of `pattern`, taken out from left to right.
/// An empty pattern takes nothing out.
pub open spec fn without(text: Seq<char>, pattern: Seq<char>) -> Seq<char>
    decreases text.len(),
{
    if pattern.len() == 0 || text.len() < pattern.len() {
        text
    } else if occurs_at(text, pattern, 0) {
        without(text.skip(pattern.len() as int), pattern)
    } else {
        seq![text[0]] + without(text.skip(1), pattern)
    }
}

/// The first occurrence of a pattern is the only first occurrence.
pub proof fn lemma_first_occurrence_unique(text: Seq<char>, pattern: Seq<char>, at: int)
    requires
        is_first_occurrence(text, pattern, at),
    ensures
        split_once_spec(text, pattern) == Some(
            (text.take(at), text.skip(at + pattern.len())),
        ),
{
    let chosen = choose|c: int| is_first_occurrence(text, pattern, c);
    if chosen < at {
        assert(!occurs_at(text, pattern, chosen));
    } else if at < chosen {
        assert(!occurs_at(text, pattern, at));
    }
}

/// Whether `pattern` stands in `text` at character `at`.
pub fn matches_at(text: &str, pattern: &str, at: usize) -> (matches: bool)
    ensures
        matches == occurs_at(text@, pattern@, at as int),
{
    let n: usize = text.unicode_len();
    let m: usize = pattern.unicode_len();
    if at > n || m > n - at {
        return false;
    }
    let mut k: usize = 0;
    while k < m
        invariant
            k <= m,
            m == pattern@.len(),
            n == text@.len(),
            at + m <= n,
            forall|j: int| 0 <= j < k ==> text@[at + j] == pattern@[j],
        decreases m - k,
    {
        if text.get_char(at + k) != pattern.get_char(k) {
            assert(text@.subrange(at as int, at + m)[k as int] != pattern@[k as int]);
            return false;
        }
        k += 1;
    }
    assert(text@.subrange(at as int, at + m) =~= pattern@);
    true
}

/// The index of the character at which `pattern` first stands in `text`.
pub fn find(text: &str, pattern: &str) -> (found: Option<usize>)
    ensures
        match found {
            Some(at) => is_first_occurrence(text@, pattern@, at as int),
            None => forall|j: int| !occurs_at(text@, pattern@, j),
        },
{
    let n: usize = text.unicode_len();
    let mut at: usize = 0;
    while at < n
        invariant
            at <= n,
            n == text@.len(),
            forall|j: int| 0 <= j < at ==> !occurs_at(text@, pattern@, j),
        decreases n - at,
    {
        if matches_at(text, pattern, at) {
            return Some(at);
        }
        at += 1;
    }
    if matches_at(text, pattern, n) {
        Some(n)
    } else {
        None
    }
}

/// Splits `text` at the first place where `pattern` stands, as
/// `str::split_once` does.
pub fn split_once(text: &str, pattern: &str) -> (parts: Option<(String, String)>)
    ensures
        match parts {
            Some((before, after)) => split_once_spec(text@, pattern@) == Some(
                (before@, after@),
            ),
            None => split_once_spec(text@, pattern@) is None,
        },
{
    let n: usize = text.unicode_len();
    let m: usize = pattern.unicode_len();
    match find(text, pattern) {
        Some(at) => {
            proof {
                lemma_first_occurrence_unique(text@, pattern@, at as int);
            }
            let before = String::from_str(text.substring_char(0, at));
            let after = String::from_str(text.substring_char(at + m, n));
            assert(text@.subrange(0, at as int) =~= text@.take(at as int));
            assert(text@.subrange(at + m, n as int) =~= text@.skip(at + m));
            Some((before, after))
        },
        None => None,
    }
}

/// `text` with every occurrence of `pattern` left out, as replacing the
/// pattern by nothing with `str::replace` does.
pub fn remove(text: &str, pattern: &str) -> (rest: String)
    ensures
        rest@ == without(text@, pattern@),
{
    let n: usize = text.unicode_len();
    let m: usize = pattern.unicode_len();
    if m == 0 {
        return String::from_str(text);
    }
    let mut rest = String::new();
    let mut i: usize = 0;
    assert(text@.skip(0) =~= text@);
    while i < n
        invariant
            i <= n,
            n == text@.len(),
            m == pattern@.len(),
            m > 0,
            rest@ + without(text@.skip(i as int), pattern@) == without(text@, pattern@),
        decreases n - i,
    {
        let ghost tail = text@.skip(i as int);
        if matches_at(text, pattern, i) {
            assert(tail.subrange(0, m as int) =~= text@.subrange(i as int, i + m));
            assert(tail.skip(m as int) =~= text@.skip(i + m));
            i += m;
        } else {
            if m <= n - i {
                assert(tail.subrange(0, m as int) =~= text@.subrange(i as int, i + m));
                rest.append(text.substring_char(i, i + 1));
                assert(text@.subrange(i as int, i + 1) =~= seq![tail[0]]);
                assert(tail.skip(1) =~= text@.skip(i + 1));
                i += 1;
            } else {
                rest.append(text.substring_char(i, n));
                assert(text@.subrange(i as int, n as int) =~= tail);
                assert(text@.skip(n as int) =~= Seq::<char>::empty());
                assert(rest@ + without(text@.skip(n as int), pattern@) =~= rest@);
                i = n;
            }
        }
    }
    assert(text@.skip(n as int) =~= Seq::<char>::empty());
    assert(rest@ + without(text@.skip(n as int), pattern@) =~= rest@);
    rest
}

} // verus!
