//! Removing what stands at the ends of a text.

use crate::text::{ascii, chars, search};
use vstd::prelude::*;

verus! {

/// `s` without the white space it begins with.
pub open spec fn trim_start(s: Seq<char>) -> Seq<char>
    decreases s.len(),
{
    if s.len() > 0 && ascii::white(s[0]) {
        trim_start(s.drop_first())
    } else {
        s
    }
}

/// `s` without the white space it ends with.
pub open spec fn trim_end(s: Seq<char>) -> Seq<char>
    decreases s.len(),
{
    if s.len() > 0 && ascii::white(s.last()) {
        trim_end(s.drop_last())
    } else {
        s
    }
}

/// `s` without the white space at its ends.
pub open spec fn trim(s: Seq<char>) -> Seq<char> {
    trim_end(trim_start(s))
}

/// `s` without the characters `c` it begins with.
pub open spec fn trim_start_char(s: Seq<char>, c: char) -> Seq<char>
    decreases s.len(),
{
    if s.len() > 0 && s[0] == c {
        trim_start_char(s.drop_first(), c)
    } else {
        s
    }
}

/// `s` without the characters `c` it ends with.
pub open spec fn trim_end_char(s: Seq<char>, c: char) -> Seq<char>
    decreases s.len(),
{
    if s.len() > 0 && s.last() == c {
        trim_end_char(s.drop_last(), c)
    } else {
        s
    }
}

/// `s` without the line ends it ends with.
pub open spec fn trim_line_end(s: Seq<char>) -> Seq<char>
    decreases s.len(),
{
    if s.len() > 0 && (s.last() == '\r' || s.last() == '\n') {
        trim_line_end(s.drop_last())
    } else {
        s
    }
}

/// `s` without the copies of `p` it begins with.
pub open spec fn trim_start_text(s: Seq<char>, p: Seq<char>) -> Seq<char>
    decreases s.len(),
{
    if p.len() > 0 && p.is_prefix_of(s) {
        trim_start_text(s.skip(p.len() as int), p)
    } else {
        s
    }
}

/// Trimming keeps a stretch of the text, with no white space at its ends.
pub proof fn lemma_trim_end(s: Seq<char>)
    ensures
        trim_end(s).is_prefix_of(s),
        trim_end(s).len() > 0 ==> !ascii::white(trim_end(s).last()),
    decreases s.len(),
{
    if s.len() > 0 && ascii::white(s.last()) {
        lemma_trim_end(s.drop_last());
    }
}

pub proof fn lemma_trim_start(s: Seq<char>)
    ensures
        trim_start(s).is_suffix_of(s),
        trim_start(s).len() > 0 ==> !ascii::white(trim_start(s)[0]),
    decreases s.len(),
{
    if s.len() > 0 && ascii::white(s[0]) {
        lemma_trim_start(s.drop_first());
        let t = trim_start(s);
        assert(t.is_suffix_of(s)) by {
            let d = s.drop_first();
            assert(d.subrange(d.len() - t.len(), d.len() as int) =~= s.subrange(
                s.len() - t.len(),
                s.len() as int,
            ));
        }
    } else {
        assert(s.subrange(0, s.len() as int) =~= s);
    }
}

/// What has been trimmed once stays as it is.
pub proof fn trimmed_once(s: Seq<char>)
    ensures
        trim(trim(s)) == trim(s),
{
    lemma_trim_start(s);
    lemma_trim_end(trim_start(s));
    let t = trim(s);
    if t.len() > 0 {
        assert(t[0] == trim_start(s)[0]);
    }
    assert(trim_start(t) == t);
    assert(trim_end(t) == t);
}

/// The end of a text without the white space it ends with.
fn end_of(cs: &Vec<char>, from: usize) -> (to: usize)
    requires
        from <= cs.len(),
    ensures
        from <= to <= cs.len(),
        cs@.subrange(from as int, to as int) == trim_end(cs@.skip(from as int)),
{
    let mut to: usize = cs.len();
    proof {
        assert(cs@.subrange(from as int, to as int) =~= cs@.skip(from as int));
    }
    while to > from && ascii::is_white(cs[to - 1])
        invariant
            from <= to <= cs.len(),
            trim_end(cs@.subrange(from as int, to as int)) == trim_end(cs@.skip(from as int)),
        decreases to,
    {
        proof {
            assert(cs@.subrange(from as int, to as int).drop_last() =~= cs@.subrange(
                from as int,
                to - 1,
            ));
        }
        to -= 1;
    }
    to
}

/// Removes the white space at both ends.
pub fn trimmed(s: &str) -> (r: String)
    ensures
        r@ == trim(s@),
{
    let cs = chars::chars_of(s);
    let mut from: usize = 0;
    proof {
        assert(cs@.skip(0) =~= cs@);
    }
    while from < cs.len() && ascii::is_white(cs[from])
        invariant
            from <= cs.len(),
            trim_start(cs@.skip(from as int)) == trim_start(cs@),
        decreases cs.len() - from,
    {
        proof {
            assert(cs@.skip(from as int).drop_first() =~= cs@.skip(from + 1));
        }
        from += 1;
    }
    let to = end_of(&cs, from);
    chars::text_of(&cs, from, to)
}

/// Removes the characters `c` at the end.
pub fn trimmed_end_char(s: &str, c: char) -> (r: String)
    ensures
        r@ == trim_end_char(s@, c),
{
    let cs = chars::chars_of(s);
    let mut to: usize = cs.len();
    proof {
        assert(cs@.take(to as int) =~= cs@);
    }
    while to > 0 && cs[to - 1] == c
        invariant
            to <= cs.len(),
            trim_end_char(cs@.take(to as int), c) == trim_end_char(cs@, c),
        decreases to,
    {
        proof {
            assert(cs@.take(to as int).drop_last() =~= cs@.take(to - 1));
        }
        to -= 1;
    }
    chars::text_of(&cs, 0, to)
}

/// Removes the line ends at the end.
pub fn trimmed_line_end(s: &str) -> (r: String)
    ensures
        r@ == trim_line_end(s@),
{
    let cs = chars::chars_of(s);
    let mut to: usize = cs.len();
    proof {
        assert(cs@.take(to as int) =~= cs@);
    }
    while to > 0 && (cs[to - 1] == '\r' || cs[to - 1] == '\n')
        invariant
            to <= cs.len(),
            trim_line_end(cs@.take(to as int)) == trim_line_end(cs@),
        decreases to,
    {
        proof {
            assert(cs@.take(to as int).drop_last() =~= cs@.take(to - 1));
        }
        to -= 1;
    }
    chars::text_of(&cs, 0, to)
}

/// Removes the characters `c` at the start.
pub fn trimmed_start_char(s: &str, c: char) -> (r: String)
    ensures
        r@ == trim_start_char(s@, c),
{
    let cs = chars::chars_of(s);
    let mut from: usize = 0;
    proof {
        assert(cs@.skip(0) =~= cs@);
    }
    while from < cs.len() && cs[from] == c
        invariant
            from <= cs.len(),
            trim_start_char(cs@.skip(from as int), c) == trim_start_char(cs@, c),
        decreases cs.len() - from,
    {
        proof {
            assert(cs@.skip(from as int).drop_first() =~= cs@.skip(from + 1));
        }
        from += 1;
    }
    chars::text_of(&cs, from, cs.len())
}

/// Removes the copies of `p` at the start.
pub fn trimmed_start_text(s: &str, p: &str) -> (r: String)
    ensures
        r@ == trim_start_text(s@, p@),
{
    let cs = chars::chars_of(s);
    let ps = chars::chars_of(p);
    let mut from: usize = 0;
    proof {
        assert(cs@.skip(0) =~= cs@);
    }
    while ps.len() > 0 && search::occurs(&cs, &ps, from)
        invariant
            from <= cs.len(),
            cs@ == s@,
            ps@ == p@,
            trim_start_text(cs@.skip(from as int), ps@) == trim_start_text(cs@, ps@),
        decreases cs.len() - from,
    {
        proof {
            let rest = cs@.skip(from as int);
            assert(rest.subrange(0, ps@.len() as int) =~= cs@.subrange(
                from as int,
                from + ps@.len(),
            ));
            assert(rest.skip(ps@.len() as int) =~= cs@.skip(from + ps@.len()));
        }
        from += ps.len();
    }
    proof {
        let rest = cs@.skip(from as int);
        if ps@.len() > 0 && ps@.is_prefix_of(rest) {
            assert(rest.subrange(0, ps@.len() as int) =~= cs@.subrange(
                from as int,
                from + ps@.len(),
            ));
        }
    }
    chars::text_of(&cs, from, cs.len())
}

} // verus!
