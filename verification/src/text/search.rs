//! Finding characters and strings inside a text.

use crate::text::{ascii, chars};
use vstd::prelude::*;

verus! {

/// `p` stands in `s` at position `i`.
pub open spec fn occurs_at(s: Seq<char>, p: Seq<char>, i: int) -> bool {
    0 <= i && i + p.len() <= s.len() && s.subrange(i, i + p.len()) == p
}

/// `p` stands somewhere in `s`.
pub open spec fn contains(s: Seq<char>, p: Seq<char>) -> bool {
    exists|i: int| occurs_at(s, p, i)
}

/// The first position, not before `from`, at which `p` stands in `s`.
pub open spec fn find_from(s: Seq<char>, p: Seq<char>, from: int) -> Option<int>
    decreases s.len() + 1 - from,
{
    if from + p.len() > s.len() {
        None
    } else if occurs_at(s, p, from) {
        Some(from)
    } else {
        find_from(s, p, from + 1)
    }
}

/// The first position at which `p` stands in `s`.
pub open spec fn find(s: Seq<char>, p: Seq<char>) -> Option<int> {
    find_from(s, p, 0)
}

/// The first position, not before `from`, of the character `c` in `s`.
pub open spec fn find_char(s: Seq<char>, c: char, from: int) -> Option<int>
    decreases s.len() - from,
{
    if from >= s.len() {
        None
    } else if s[from] == c {
        Some(from)
    } else {
        find_char(s, c, from + 1)
    }
}

/// The first position, not before `from`, at which white space stands in `s`; the end of `s` if
/// there is none.
pub open spec fn white_from(s: Seq<char>, from: int) -> int
    decreases s.len() - from,
{
    if from >= s.len() {
        s.len() as int
    } else if ascii::white(s[from]) {
        from
    } else {
        white_from(s, from + 1)
    }
}

/// The first position, not before `from`, at which something other than white space stands in
/// `s`; the end of `s` if there is none.
pub open spec fn word_from(s: Seq<char>, from: int) -> int
    decreases s.len() - from,
{
    if from >= s.len() {
        s.len() as int
    } else if !ascii::white(s[from]) {
        from
    } else {
        word_from(s, from + 1)
    }
}

/// What `find_from` returns is the first occurrence.
pub proof fn lemma_find_from(s: Seq<char>, p: Seq<char>, from: int)
    requires
        0 <= from,
    ensures
        match find_from(s, p, from) {
            Some(i) => from <= i && occurs_at(s, p, i) && (forall|j: int|
                from <= j < i ==> !occurs_at(s, p, j)),
            None => forall|j: int| from <= j ==> !occurs_at(s, p, j),
        },
    decreases s.len() + 1 - from,
{
    if from + p.len() <= s.len() && !occurs_at(s, p, from) {
        lemma_find_from(s, p, from + 1);
    }
}

/// What `find_char` returns is the first occurrence.
pub proof fn lemma_find_char(s: Seq<char>, c: char, from: int)
    requires
        0 <= from,
    ensures
        match find_char(s, c, from) {
            Some(i) => from <= i < s.len() && s[i] == c && (forall|j: int|
                from <= j < i ==> s[j] != c),
            None => forall|j: int| from <= j < s.len() ==> s[j] != c,
        },
    decreases s.len() - from,
{
    if from < s.len() && s[from] != c {
        lemma_find_char(s, c, from + 1);
    }
}

/// `white_from` skips what is not white space, and no more.
pub proof fn lemma_white_from(s: Seq<char>, from: int)
    requires
        0 <= from <= s.len(),
    ensures
        from <= white_from(s, from) <= s.len(),
        forall|j: int| from <= j < white_from(s, from) ==> !ascii::white(s[j]),
        white_from(s, from) < s.len() ==> ascii::white(s[white_from(s, from)]),
    decreases s.len() - from,
{
    if from < s.len() && !ascii::white(s[from]) {
        lemma_white_from(s, from + 1);
    }
}

/// `word_from` skips white space, and no more.
pub proof fn lemma_word_from(s: Seq<char>, from: int)
    requires
        0 <= from <= s.len(),
    ensures
        from <= word_from(s, from) <= s.len(),
        forall|j: int| from <= j < word_from(s, from) ==> ascii::white(s[j]),
        word_from(s, from) < s.len() ==> !ascii::white(s[word_from(s, from)]),
    decreases s.len() - from,
{
    if from < s.len() && ascii::white(s[from]) {
        lemma_word_from(s, from + 1);
    }
}

/// Whether `p` stands in `s` at position `i`.
pub fn occurs(s: &Vec<char>, p: &Vec<char>, i: usize) -> (r: bool)
    ensures
        r == occurs_at(s@, p@, i as int),
{
    if i > s.len() || s.len() - i < p.len() {
        return false;
    }
    let mut k: usize = 0;
    while k < p.len()
        invariant
            k <= p.len(),
            i + p.len() <= s.len(),
            forall|j: int| 0 <= j < k ==> s@[i + j] == p@[j],
        decreases p.len() - k,
    {
        if s[i + k] != p[k] {
            assert(s@.subrange(i as int, i + p@.len())[k as int] != p@[k as int]);
            return false;
        }
        k += 1;
    }
    assert(s@.subrange(i as int, i + p@.len()) =~= p@);
    true
}

/// Finds `p` in `s`, from `from` on.
pub fn index_of(s: &Vec<char>, p: &Vec<char>, from: usize) -> (r: Option<usize>)
    requires
        from <= s.len(),
    ensures
        match r {
            Some(i) => find_from(s@, p@, from as int) == Some(i as int) && from <= i && i + p.len()
                <= s.len(),
            None => find_from(s@, p@, from as int) is None,
        },
{
    let mut i: usize = from;
    while i <= s.len() && p.len() <= s.len() - i
        invariant
            from <= i <= s.len() + 1,
            find_from(s@, p@, from as int) == find_from(s@, p@, i as int),
        decreases s.len() + 1 - i,
    {
        if occurs(s, p, i) {
            return Some(i);
        }
        if i == s.len() {
            assert(find_from(s@, p@, i + 1) is None);
            return None;
        }
        i += 1;
    }
    None
}

/// Finds the character `c` in `s`, from `from` on.
pub fn index_of_char(s: &Vec<char>, c: char, from: usize) -> (r: Option<usize>)
    ensures
        match r {
            Some(i) => find_char(s@, c, from as int) == Some(i as int) && from <= i < s.len(),
            None => find_char(s@, c, from as int) is None,
        },
{
    let mut i: usize = from;
    while i < s.len()
        invariant
            from <= i,
            find_char(s@, c, from as int) == find_char(s@, c, i as int),
        decreases s.len() - i,
    {
        if s[i] == c {
            return Some(i);
        }
        i += 1;
    }
    None
}

/// Finds white space in `s`, from `from` on.
pub fn next_white(s: &Vec<char>, from: usize) -> (r: usize)
    requires
        from <= s.len(),
    ensures
        r == white_from(s@, from as int),
        from <= r <= s.len(),
{
    let mut i: usize = from;
    while i < s.len() && !ascii::is_white(s[i])
        invariant
            from <= i <= s.len(),
            white_from(s@, from as int) == white_from(s@, i as int),
        decreases s.len() - i,
    {
        i += 1;
    }
    i
}

/// Finds something other than white space in `s`, from `from` on.
pub fn next_word(s: &Vec<char>, from: usize) -> (r: usize)
    requires
        from <= s.len(),
    ensures
        r == word_from(s@, from as int),
        from <= r <= s.len(),
{
    let mut i: usize = from;
    while i < s.len() && ascii::is_white(s[i])
        invariant
            from <= i <= s.len(),
            word_from(s@, from as int) == word_from(s@, i as int),
        decreases s.len() - i,
    {
        i += 1;
    }
    i
}

/// Whether `p` stands somewhere in `s`.
pub fn has(s: &str, p: &str) -> (r: bool)
    ensures
        r == contains(s@, p@),
{
    let cs = chars::chars_of(s);
    let ps = chars::chars_of(p);
    proof {
        lemma_find_from(s@, p@, 0);
    }
    index_of(&cs, &ps, 0).is_some()
}

/// Whether `s` begins with `p`.
pub fn begins(s: &str, p: &str) -> (r: bool)
    ensures
        r == p@.is_prefix_of(s@),
{
    let cs = chars::chars_of(s);
    let ps = chars::chars_of(p);
    occurs(&cs, &ps, 0)
}

/// Whether `s` ends with `p`.
pub fn ends(s: &str, p: &str) -> (r: bool)
    ensures
        r == p@.is_suffix_of(s@),
{
    let cs = chars::chars_of(s);
    let ps = chars::chars_of(p);
    if ps.len() > cs.len() {
        return false;
    }
    let at: usize = cs.len() - ps.len();
    occurs(&cs, &ps, at)
}

/// What follows the prefix `p` in `s`.
pub open spec fn after_prefix(s: Seq<char>, p: Seq<char>) -> Option<Seq<char>> {
    if p.is_prefix_of(s) {
        Some(s.skip(p.len() as int))
    } else {
        None
    }
}

/// What precedes the suffix `p` in `s`.
pub open spec fn before_suffix(s: Seq<char>, p: Seq<char>) -> Option<Seq<char>> {
    if p.is_suffix_of(s) {
        Some(s.take(s.len() - p.len()))
    } else {
        None
    }
}

/// Strips the prefix `p` off `s`.
pub fn strip_prefix(s: &str, p: &str) -> (r: Option<String>)
    ensures
        chars::opt_text(r) == after_prefix(s@, p@),
{
    let cs = chars::chars_of(s);
    let ps = chars::chars_of(p);
    if occurs(&cs, &ps, 0) {
        Some(chars::text_of(&cs, ps.len(), cs.len()))
    } else {
        None
    }
}

/// Strips the suffix `p` off `s`.
pub fn strip_suffix(s: &str, p: &str) -> (r: Option<String>)
    ensures
        chars::opt_text(r) == before_suffix(s@, p@),
{
    if !ends(s, p) {
        return None;
    }
    let cs = chars::chars_of(s);
    let ps = chars::chars_of(p);
    Some(chars::text_of(&cs, 0, cs.len() - ps.len()))
}

} // verus!
