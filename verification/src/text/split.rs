//! Splitting a text into pieces, and joining pieces.

use crate::text::{chars, search};
use vstd::prelude::*;

verus! {

/// The pieces of `s`, from `from` on, between the characters `c`.
pub open spec fn split_from(s: Seq<char>, c: char, from: int) -> Seq<Seq<char>>
    decreases s.len() - from,
{
    match search::find_char(s, c, from) {
        Some(i) if from <= i < s.len() => seq![s.subrange(from, i)] + split_from(s, c, i + 1),
        _ => seq![s.skip(from)],
    }
}

/// The pieces of `s` between the characters `c`: one more than there are characters `c` in `s`.
pub open spec fn split(s: Seq<char>, c: char) -> Seq<Seq<char>> {
    split_from(s, c, 0)
}

/// The part of `s` before the first `p`, and the part after it.
pub open spec fn split_once(s: Seq<char>, p: Seq<char>) -> Option<(Seq<char>, Seq<char>)> {
    match search::find(s, p) {
        Some(i) => Some((s.take(i), s.skip(i + p.len()))),
        None => None,
    }
}

/// The part of `s` before the first character `c`, and the part after it.
pub open spec fn split_once_char(s: Seq<char>, c: char) -> Option<(Seq<char>, Seq<char>)> {
    match search::find_char(s, c, 0) {
        Some(i) => Some((s.take(i), s.skip(i + 1))),
        None => None,
    }
}

/// A line without the carriage return that it may end with.
pub open spec fn without_return(s: Seq<char>) -> Seq<char> {
    if s.len() > 0 && s.last() == '\r' {
        s.drop_last()
    } else {
        s
    }
}

/// The lines of `s` from `from` on.
pub open spec fn lines_from(s: Seq<char>, from: int) -> Seq<Seq<char>>
    decreases s.len() - from,
{
    if from >= s.len() {
        seq![]
    } else {
        match search::find_char(s, '\n', from) {
            Some(i) if from <= i < s.len() => seq![without_return(s.subrange(from, i))]
                + lines_from(s, i + 1),
            _ => seq![s.skip(from)],
        }
    }
}

/// The lines of `s`: each ends before a line feed, or a carriage return and a line feed, or at
/// the end of `s`. The line feed that ends the last line is optional.
pub open spec fn lines(s: Seq<char>) -> Seq<Seq<char>> {
    lines_from(s, 0)
}

/// The words of `s` from `from` on.
pub open spec fn words_from(s: Seq<char>, from: int) -> Seq<Seq<char>>
    decreases s.len() - from,
{
    let start = search::word_from(s, from);
    let end = search::white_from(s, start);
    if from <= start < end <= s.len() {
        seq![s.subrange(start, end)] + words_from(s, end)
    } else {
        seq![]
    }
}

/// The words of `s`: the longest stretches without white space.
pub open spec fn words(s: Seq<char>) -> Seq<Seq<char>> {
    words_from(s, 0)
}

/// The pieces, one after the other, with `sep` between two of them.
pub open spec fn join(pieces: Seq<Seq<char>>, sep: Seq<char>) -> Seq<char>
    decreases pieces.len(),
{
    if pieces.len() == 0 {
        seq![]
    } else if pieces.len() == 1 {
        pieces[0]
    } else {
        join(pieces.drop_last(), sep) + sep + pieces.last()
    }
}

/// The pieces between the characters `c`.
pub fn pieces(s: &str, c: char) -> (r: Vec<String>)
    ensures
        chars::texts(r@) == split(s@, c),
        r.len() > 0,
{
    let cs = chars::chars_of(s);
    let mut r: Vec<String> = Vec::new();
    let mut from: usize = 0;
    loop
        invariant_except_break
            split(s@, c) == chars::texts(r@) + split_from(s@, c, from as int),
        invariant
            from <= cs.len(),
            cs@ == s@,
        ensures
            split(s@, c) == chars::texts(r@),
            r.len() > 0,
        decreases cs.len() - from,
    {
        match search::index_of_char(&cs, c, from) {
            Some(i) => {
                let ghost before = r@;
                r.push(chars::text_of(&cs, from, i));
                proof {
                    assert(chars::texts(r@) =~= chars::texts(before).push(s@.subrange(from as int, i as int)));
                }
                from = i + 1;
            },
            None => {
                let ghost before = r@;
                r.push(chars::text_of(&cs, from, cs.len()));
                proof {
                    assert(s@.subrange(from as int, s@.len() as int) =~= s@.skip(from as int));
                    assert(chars::texts(r@) =~= chars::texts(before).push(s@.skip(from as int)));
                }
                break;
            },
        }
    }
    r
}

/// Splits at the first `p`.
pub fn cut(s: &str, p: &str) -> (r: Option<(String, String)>)
    ensures
        match r {
            Some((a, b)) => split_once(s@, p@) == Some((a@, b@)),
            None => split_once(s@, p@) is None,
        },
{
    let cs = chars::chars_of(s);
    let ps = chars::chars_of(p);
    match search::index_of(&cs, &ps, 0) {
        Some(i) => {
            proof {
                assert(s@.subrange(0, i as int) =~= s@.take(i as int));
                assert(s@.subrange(i + p@.len(), s@.len() as int) =~= s@.skip(i + p@.len()));
            }
            Some((chars::text_of(&cs, 0, i), chars::text_of(&cs, i + ps.len(), cs.len())))
        },
        None => None,
    }
}

/// Splits at the first character `c`.
pub fn cut_char(s: &str, c: char) -> (r: Option<(String, String)>)
    ensures
        match r {
            Some((a, b)) => split_once_char(s@, c) == Some((a@, b@)),
            None => split_once_char(s@, c) is None,
        },
{
    let cs = chars::chars_of(s);
    match search::index_of_char(&cs, c, 0) {
        Some(i) => {
            proof {
                assert(s@.subrange(0, i as int) =~= s@.take(i as int));
                assert(s@.subrange(i + 1, s@.len() as int) =~= s@.skip(i + 1));
            }
            Some((chars::text_of(&cs, 0, i), chars::text_of(&cs, i + 1, cs.len())))
        },
        None => None,
    }
}

/// The lines of a text.
pub fn lines_of(s: &str) -> (r: Vec<String>)
    ensures
        chars::texts(r@) == lines(s@),
{
    let cs = chars::chars_of(s);
    let mut r: Vec<String> = Vec::new();
    let mut from: usize = 0;
    while from < cs.len()
        invariant
            from <= cs.len(),
            cs@ == s@,
            lines(s@) == chars::texts(r@) + lines_from(s@, from as int),
        decreases cs.len() - from,
    {
        let ghost before = r@;
        match search::index_of_char(&cs, '\n', from) {
            Some(i) => {
                let mut end: usize = i;
                if end > from && cs[end - 1] == '\r' {
                    end -= 1;
                }
                r.push(chars::text_of(&cs, from, end));
                proof {
                    let line = s@.subrange(from as int, i as int);
                    assert(without_return(line) =~= s@.subrange(from as int, end as int));
                    assert(chars::texts(r@) =~= chars::texts(before).push(without_return(line)));
                    assert(lines_from(s@, from as int) =~= seq![without_return(line)] + lines_from(
                        s@,
                        i + 1,
                    ));
                    assert(chars::texts(before) + (seq![without_return(line)] + lines_from(s@, i + 1))
                        =~= chars::texts(r@) + lines_from(s@, i + 1));
                }
                from = i + 1;
            },
            None => {
                r.push(chars::text_of(&cs, from, cs.len()));
                proof {
                    assert(s@.subrange(from as int, s@.len() as int) =~= s@.skip(from as int));
                    assert(chars::texts(r@) =~= chars::texts(before).push(s@.skip(from as int)));
                    assert(lines_from(s@, s@.len() as int) =~= seq![]);
                }
                from = cs.len();
            },
        }
    }
    r
}

/// The words of a text.
pub fn words_of(s: &str) -> (r: Vec<String>)
    ensures
        chars::texts(r@) == words(s@),
{
    let cs = chars::chars_of(s);
    let mut r: Vec<String> = Vec::new();
    let mut from: usize = 0;
    loop
        invariant
            from <= cs.len(),
            cs@ == s@,
            words(s@) == chars::texts(r@) + words_from(s@, from as int),
        ensures
            words(s@) == chars::texts(r@),
        decreases cs.len() - from,
    {
        let start = search::next_word(&cs, from);
        let end = search::next_white(&cs, start);
        proof {
            search::lemma_word_from(s@, from as int);
            search::lemma_white_from(s@, start as int);
        }
        if start == end {
            break;
        }
        let ghost before = r@;
        r.push(chars::text_of(&cs, start, end));
        proof {
            assert(chars::texts(r@) =~= chars::texts(before).push(s@.subrange(start as int, end as int)));
        }
        from = end;
    }
    r
}

/// Joins strings, with `sep` between two of them.
pub fn joined(v: &Vec<String>, sep: &str) -> (r: String)
    ensures
        r@ == join(chars::texts(v@), sep@),
{
    let mut r = String::new();
    let mut i: usize = 0;
    while i < v.len()
        invariant
            i <= v.len(),
            r@ == join(chars::texts(v@).take(i as int), sep@),
        decreases v.len() - i,
    {
        if i > 0 {
            r.append(sep);
        }
        r.append(v[i].as_str());
        proof {
            let done = chars::texts(v@).take(i + 1);
            assert(done.drop_last() =~= chars::texts(v@).take(i as int));
            assert(done.last() == v@[i as int]@);
        }
        i += 1;
    }
    proof {
        assert(chars::texts(v@).take(i as int) =~= chars::texts(v@));
    }
    r
}

} // verus!
