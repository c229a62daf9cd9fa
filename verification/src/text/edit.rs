//! Changing the characters of a text, and shortening texts.

use crate::text::{ascii, chars};
use vstd::prelude::*;

verus! {

/// The text in ASCII lower case.
pub open spec fn lower_text(s: Seq<char>) -> Seq<char> {
    s.map_values(|c: char| ascii::lower(c))
}

/// Two texts differ at most in ASCII case.
pub open spec fn same_ignoring_case(a: Seq<char>, b: Seq<char>) -> bool {
    lower_text(a) == lower_text(b)
}

/// The text with every character `c` replaced by the text `by`.
pub open spec fn replace_char(s: Seq<char>, c: char, by: Seq<char>) -> Seq<char>
    decreases s.len(),
{
    if s.len() == 0 {
        seq![]
    } else if s.last() == c {
        replace_char(s.drop_last(), c, by) + by
    } else {
        replace_char(s.drop_last(), c, by).push(s.last())
    }
}

/// The first `max` characters of the text, followed by three dots where that is not all of it.
pub open spec fn shorten(s: Seq<char>, max: nat) -> Seq<char> {
    if s.len() <= max {
        s
    } else {
        s.take(max as int) + "..."@
    }
}

/// The last `max` characters of the text, after three dots where that is not all of it.
pub open spec fn shorten_front(s: Seq<char>, max: nat) -> Seq<char> {
    if s.len() <= max {
        s
    } else {
        "..."@ + s.skip(s.len() - max)
    }
}

/// Puts a text in ASCII lower case.
pub fn lowered(s: &str) -> (r: String)
    ensures
        r@ == lower_text(s@),
{
    let cs = chars::chars_of(s);
    let mut r = String::new();
    let mut i: usize = 0;
    while i < cs.len()
        invariant
            i <= cs.len(),
            cs@ == s@,
            r@ == lower_text(s@.take(i as int)),
        decreases cs.len() - i,
    {
        r.push(ascii::to_lower(cs[i]));
        i += 1;
        proof {
            assert(r@ =~= lower_text(s@.take(i as int)));
        }
    }
    proof {
        assert(s@.take(i as int) =~= s@);
    }
    r
}

/// Whether two texts differ at most in ASCII case.
pub fn equal_ignoring_case(a: &str, b: &str) -> (r: bool)
    ensures
        r == same_ignoring_case(a@, b@),
{
    chars::same(&lowered(a), &lowered(b))
}

/// Replaces every character `c` by `by`.
pub fn replaced(s: &str, c: char, by: &str) -> (r: String)
    ensures
        r@ == replace_char(s@, c, by@),
{
    let cs = chars::chars_of(s);
    let mut r = String::new();
    let mut i: usize = 0;
    while i < cs.len()
        invariant
            i <= cs.len(),
            cs@ == s@,
            r@ == replace_char(s@.take(i as int), c, by@),
        decreases cs.len() - i,
    {
        proof {
            assert(s@.take(i + 1).drop_last() =~= s@.take(i as int));
        }
        if cs[i] == c {
            r.append(by);
        } else {
            r.push(cs[i]);
        }
        i += 1;
    }
    proof {
        assert(s@.take(i as int) =~= s@);
    }
    r
}

/// Keeps at most the first `max` characters, and marks the cut with three dots.
pub fn shortened(s: &str, max: usize) -> (r: String)
    ensures
        r@ == shorten(s@, max as nat),
{
    let cs = chars::chars_of(s);
    if cs.len() <= max {
        return s.to_owned();
    }
    let mut r = chars::text_of(&cs, 0, max);
    r.append("...");
    r
}

/// Keeps at most the last `max` characters, and marks the cut with three dots.
pub fn shortened_front(s: &str, max: usize) -> (r: String)
    ensures
        r@ == shorten_front(s@, max as nat),
{
    let cs = chars::chars_of(s);
    if cs.len() <= max {
        return s.to_owned();
    }
    let mut r = "...".to_owned();
    let tail = chars::text_of(&cs, cs.len() - max, cs.len());
    r.append(&tail);
    r
}

/// A shortened text is never longer than the limit and the three dots.
pub proof fn shortened_is_bounded(s: Seq<char>, max: nat)
    ensures
        shorten(s, max).len() <= max + 3,
        shorten_front(s, max).len() <= max + 3,
{
    reveal_strlit("...");
}

} // verus!
