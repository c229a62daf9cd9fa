//! What holds of texts that are taken apart and put together.

use crate::text::{ascii, edit, number, search, split, trim};
use vstd::prelude::*;

verus! {

/// A text holds no character `c`.
pub open spec fn lacks(s: Seq<char>, c: char) -> bool {
    forall|i: int| 0 <= i < s.len() ==> #[trigger] s[i] != c
}

/// A text holds no white space.
pub open spec fn one_word(s: Seq<char>) -> bool {
    s.len() > 0 && forall|i: int| 0 <= i < s.len() ==> !ascii::white(#[trigger] s[i])
}

/// Joined pieces are the first one, and behind it the others.
pub proof fn lemma_join_front(pieces: Seq<Seq<char>>, sep: Seq<char>)
    requires
        pieces.len() > 1,
    ensures
        split::join(pieces, sep) == pieces[0] + sep + split::join(pieces.skip(1), sep),
    decreases pieces.len(),
{
    let rest = pieces.skip(1);
    if pieces.len() == 2 {
        assert(pieces.drop_last() =~= seq![pieces[0]]);
        assert(rest =~= seq![pieces[1]]);
        assert(split::join(seq![pieces[0]], sep) == pieces[0]);
        assert(split::join(seq![pieces[1]], sep) == pieces[1]);
    } else {
        let d = pieces.drop_last();
        lemma_join_front(d, sep);
        assert(d.skip(1) =~= rest.drop_last());
        assert(rest.last() == pieces.last());
        assert(split::join(pieces, sep) =~= pieces[0] + sep + split::join(rest, sep));
    }
}

proof fn lemma_find_shift(s: Seq<char>, c: char, k: int, from: int)
    requires
        0 <= k,
        0 <= from,
        k + from <= s.len(),
    ensures
        search::find_char(s, c, k + from) == match search::find_char(s.skip(k), c, from) {
            Some(i) => Some(k + i),
            None => None,
        },
    decreases s.len() - k - from,
{
    if k + from < s.len() {
        assert(s.skip(k)[from] == s[k + from]);
        if s[k + from] != c {
            lemma_find_shift(s, c, k, from + 1);
        }
    }
}

proof fn lemma_split_shift(s: Seq<char>, c: char, k: int, from: int)
    requires
        0 <= k,
        0 <= from,
        k + from <= s.len(),
    ensures
        split::split_from(s, c, k + from) == split::split_from(s.skip(k), c, from),
    decreases s.len() - k - from,
{
    lemma_find_shift(s, c, k, from);
    search::lemma_find_char(s.skip(k), c, from);
    match search::find_char(s.skip(k), c, from) {
        Some(i) => {
            assert(s.subrange(k + from, k + i) =~= s.skip(k).subrange(from, i));
            lemma_split_shift(s, c, k, i + 1);
        },
        None => {
            assert(s.skip(k + from) =~= s.skip(k).skip(from));
        },
    }
}

/// A text that holds no separator is one piece; else the first piece ends at the first one.
proof fn lemma_split_front(a: Seq<char>, c: char, b: Seq<char>)
    requires
        lacks(a, c),
    ensures
        split::split(a, c) == seq![a],
        split::split(a + seq![c] + b, c) == seq![a] + split::split(b, c),
{
    search::lemma_find_char(a, c, 0);
    assert(a.skip(0) =~= a);
    let s = a + seq![c] + b;
    search::lemma_find_char(s, c, 0);
    assert(s[a.len() as int] == c);
    let i = search::find_char(s, c, 0)->Some_0;
    if i < a.len() {
        assert(s[i] == a[i]);
    }
    assert(i == a.len());
    assert(s.subrange(0, i) =~= a);
    lemma_split_shift(s, c, i + 1, 0);
    assert(s.skip(i + 1) =~= b);
}

/// Pieces without a separator that are joined by it are found again.
pub proof fn pieces_are_read_back(pieces: Seq<Seq<char>>, c: char)
    requires
        pieces.len() > 0,
        forall|i: int| 0 <= i < pieces.len() ==> lacks(#[trigger] pieces[i], c),
    ensures
        split::split(split::join(pieces, seq![c]), c) == pieces,
    decreases pieces.len(),
{
    if pieces.len() == 1 {
        lemma_split_front(pieces[0], c, seq![]);
        assert(pieces =~= seq![pieces[0]]);
    } else {
        let rest = pieces.skip(1);
        assert forall|i: int| 0 <= i < rest.len() implies lacks(#[trigger] rest[i], c) by {
            assert(rest[i] == pieces[i + 1]);
        }
        pieces_are_read_back(rest, c);
        lemma_join_front(pieces, seq![c]);
        lemma_split_front(pieces[0], c, split::join(rest, seq![c]));
        assert(seq![pieces[0]] + rest =~= pieces);
    }
}

/// What a text is split into holds no separator, and joined by it is the text.
pub proof fn text_is_its_pieces(s: Seq<char>, c: char)
    ensures
        split::split(s, c).len() > 0,
        forall|i: int| 0 <= i < split::split(s, c).len() ==> lacks(
            #[trigger] split::split(s, c)[i],
            c,
        ),
        split::join(split::split(s, c), seq![c]) == s,
    decreases s.len(),
{
    search::lemma_find_char(s, c, 0);
    let all = split::split(s, c);
    match search::find_char(s, c, 0) {
        Some(k) => {
            let a = s.take(k);
            let b = s.skip(k + 1);
            assert(s =~= a + seq![c] + b);
            assert(lacks(a, c));
            lemma_split_front(a, c, b);
            text_is_its_pieces(b, c);
            let rest = split::split(b, c);
            assert forall|i: int| 0 <= i < all.len() implies lacks(#[trigger] all[i], c) by {
                if i > 0 {
                    assert(all[i] == rest[i - 1]);
                }
            }
            lemma_join_front(all, seq![c]);
            assert(all.skip(1) =~= rest);
        },
        None => {
            assert(lacks(s, c));
            lemma_split_front(s, c, seq![]);
        },
    }
}

proof fn lemma_lines_shift(s: Seq<char>, k: int, from: int)
    requires
        0 <= k,
        0 <= from,
        k + from <= s.len(),
    ensures
        split::lines_from(s, k + from) == split::lines_from(s.skip(k), from),
    decreases s.len() - k - from,
{
    if k + from < s.len() {
        lemma_find_shift(s, '\n', k, from);
        search::lemma_find_char(s.skip(k), '\n', from);
        match search::find_char(s.skip(k), '\n', from) {
            Some(i) => {
                assert(s.subrange(k + from, k + i) =~= s.skip(k).subrange(from, i));
                lemma_lines_shift(s, k, i + 1);
            },
            None => {
                assert(s.skip(k + from) =~= s.skip(k).skip(from));
            },
        }
    }
}

/// Lines, each ended by a line feed.
pub open spec fn ended_lines(lines: Seq<Seq<char>>) -> Seq<char>
    decreases lines.len(),
{
    if lines.len() == 0 {
        seq![]
    } else {
        lines[0] + seq!['\n'] + ended_lines(lines.skip(1))
    }
}

/// Lines that are each ended by a line feed are found again.
pub proof fn lines_are_read_back(lines: Seq<Seq<char>>)
    requires
        forall|i: int|
            0 <= i < lines.len() ==> lacks(#[trigger] lines[i], '\n') && lacks(lines[i], '\r'),
    ensures
        split::lines(ended_lines(lines)) == lines,
    decreases lines.len(),
{
    let s = ended_lines(lines);
    if lines.len() == 0 {
        assert(lines =~= seq![]);
    } else {
        let a = lines[0];
        let rest = lines.skip(1);
        assert forall|i: int| 0 <= i < rest.len() implies lacks(#[trigger] rest[i], '\n') && lacks(
            rest[i],
            '\r',
        ) by {
            assert(rest[i] == lines[i + 1]);
        }
        lines_are_read_back(rest);
        search::lemma_find_char(s, '\n', 0);
        assert(s[a.len() as int] == '\n');
        let i = search::find_char(s, '\n', 0)->Some_0;
        if i < a.len() {
            assert(s[i] == a[i]);
        }
        assert(i == a.len());
        assert(s.subrange(0, i) =~= a);
        assert(split::without_return(a) == a);
        lemma_lines_shift(s, i + 1, 0);
        assert(s.skip(i + 1) =~= ended_lines(rest));
        assert(seq![a] + rest =~= lines);
    }
}

proof fn lemma_word_shift(s: Seq<char>, k: int, from: int)
    requires
        0 <= k,
        0 <= from,
        k + from <= s.len(),
    ensures
        search::word_from(s, k + from) == k + search::word_from(s.skip(k), from),
        search::white_from(s, k + from) == k + search::white_from(s.skip(k), from),
    decreases s.len() - k - from,
{
    if k + from < s.len() {
        assert(s.skip(k)[from] == s[k + from]);
        lemma_word_shift(s, k, from + 1);
    }
}

proof fn lemma_words_shift(s: Seq<char>, k: int, from: int)
    requires
        0 <= k,
        0 <= from,
        k + from <= s.len(),
    ensures
        split::words_from(s, k + from) == split::words_from(s.skip(k), from),
    decreases s.len() - k - from,
{
    let t = s.skip(k);
    lemma_word_shift(s, k, from);
    search::lemma_word_from(t, from);
    let start = search::word_from(t, from);
    lemma_word_shift(s, k, start);
    search::lemma_white_from(t, start);
    let end = search::white_from(t, start);
    if start < end {
        assert(s.subrange(k + start, k + end) =~= t.subrange(start, end));
        lemma_words_shift(s, k, end);
    }
}

/// A word that a blank follows is the first word.
proof fn lemma_words_front(a: Seq<char>, b: Seq<char>)
    requires
        one_word(a),
    ensures
        split::words(a) == seq![a],
        split::words(a + seq![' '] + b) == seq![a] + split::words(b),
{
    search::lemma_word_from(a, 0);
    assert(!ascii::white(a[0]));
    search::lemma_white_from(a, 0);
    let e = search::white_from(a, 0);
    if e < a.len() {
        assert(!ascii::white(a[e]));
    }
    assert(a.subrange(0, a.len() as int) =~= a);
    search::lemma_word_from(a, a.len() as int);
    search::lemma_white_from(a, a.len() as int);
    assert(split::words_from(a, a.len() as int) =~= seq![]);
    assert(split::words(a) =~= seq![a]);
    let s = a + seq![' '] + b;
    let n = a.len() as int;
    assert(s[0] == a[0]);
    search::lemma_word_from(s, 0);
    search::lemma_white_from(s, 0);
    let end = search::white_from(s, 0);
    assert(s[n] == ' ');
    if end < n {
        assert(s[end] == a[end]);
        assert(!ascii::white(a[end]));
    }
    assert(end == n);
    assert(s.subrange(0, n) =~= a);
    assert(search::word_from(s, n) == search::word_from(s, n + 1));
    assert(split::words_from(s, n) == split::words_from(s, n + 1));
    lemma_words_shift(s, n + 1, 0);
    assert(s.skip(n + 1) =~= b);
}

/// Words that are joined by blanks are found again.
pub proof fn words_are_read_back(words: Seq<Seq<char>>)
    requires
        forall|i: int| 0 <= i < words.len() ==> one_word(#[trigger] words[i]),
    ensures
        split::words(split::join(words, seq![' '])) == words,
    decreases words.len(),
{
    if words.len() == 0 {
        assert(words =~= seq![]);
        search::lemma_word_from(seq![], 0);
        search::lemma_white_from(seq![], 0);
        assert(split::words(seq![]) =~= seq![]);
    } else if words.len() == 1 {
        lemma_words_front(words[0], seq![]);
        assert(words =~= seq![words[0]]);
    } else {
        let rest = words.skip(1);
        assert forall|i: int| 0 <= i < rest.len() implies one_word(#[trigger] rest[i]) by {
            assert(rest[i] == words[i + 1]);
        }
        words_are_read_back(rest);
        lemma_join_front(words, seq![' ']);
        lemma_words_front(words[0], split::join(rest, seq![' ']));
        assert(seq![words[0]] + rest =~= words);
    }
}

/// White space around a text that neither begins nor ends with it is trimmed, and nothing else.
pub proof fn blanks_are_trimmed(before: Seq<char>, s: Seq<char>, after: Seq<char>)
    requires
        forall|i: int| 0 <= i < before.len() ==> ascii::white(#[trigger] before[i]),
        forall|i: int| 0 <= i < after.len() ==> ascii::white(#[trigger] after[i]),
        s.len() > 0 ==> !ascii::white(s[0]) && !ascii::white(s.last()),
    ensures
        trim::trim(before + s + after) == s,
{
    let t = before + s + after;
    lemma_trim_front(before, s + after);
    assert(t =~= before + (s + after));
    if s.len() > 0 {
        assert((s + after)[0] == s[0]);
        assert(trim::trim_start(s + after) == s + after);
        lemma_trim_back(s, after);
    } else {
        lemma_trim_front(after, seq![]);
        assert(after + Seq::<char>::empty() =~= after);
        assert(s + after =~= after);
        assert(trim::trim_start(after) =~= seq![]);
    }
}

proof fn lemma_trim_front(before: Seq<char>, s: Seq<char>)
    requires
        forall|i: int| 0 <= i < before.len() ==> ascii::white(#[trigger] before[i]),
    ensures
        trim::trim_start(before + s) == trim::trim_start(s),
    decreases before.len(),
{
    if before.len() == 0 {
        assert(before + s =~= s);
    } else {
        assert((before + s)[0] == before[0]);
        assert((before + s).drop_first() =~= before.drop_first() + s);
        assert forall|i: int| 0 <= i < before.drop_first().len() implies ascii::white(
            #[trigger] before.drop_first()[i],
        ) by {
            assert(before.drop_first()[i] == before[i + 1]);
        }
        lemma_trim_front(before.drop_first(), s);
    }
}

proof fn lemma_trim_back(s: Seq<char>, after: Seq<char>)
    requires
        forall|i: int| 0 <= i < after.len() ==> ascii::white(#[trigger] after[i]),
        s.len() > 0,
        !ascii::white(s.last()),
    ensures
        trim::trim_end(s + after) == s,
    decreases after.len(),
{
    if after.len() == 0 {
        assert(s + after =~= s);
    } else {
        assert((s + after).last() == after.last());
        assert(ascii::white(after[after.len() - 1]));
        assert((s + after).drop_last() =~= s + after.drop_last());
        assert forall|i: int| 0 <= i < after.drop_last().len() implies ascii::white(
            #[trigger] after.drop_last()[i],
        ) by {
            assert(after.drop_last()[i] == after[i]);
        }
        lemma_trim_back(s, after.drop_last());
    }
}

/// Of a number and the text of a number, each is found again; a text with anything but digits, or
/// of a number above the limit, is none.
pub proof fn numbers_are_read(n: nat, s: Seq<char>, max: nat)
    ensures
        n <= max ==> number::parse(number::decimal(n), max) == Some(n),
        n > max ==> number::parse(number::decimal(n), max) is None,
        s.len() == 0 ==> number::parse(s, max) is None,
        number::parse(s, max) matches Some(k) ==> k <= max,
        number::parse(s, max) is Some ==> forall|i: int|
            0 < i < s.len() ==> '0' <= #[trigger] s[i] <= '9',
{
    number::lemma_decimal(n);
    assert(ascii::digit(number::decimal(n)[0]));
    if number::parse(s, max) is Some {
        let digits = number::unsigned_digits(s);
        assert forall|i: int| 0 < i < s.len() implies '0' <= #[trigger] s[i] <= '9' by {
            if digits.len() == s.len() {
                assert(ascii::digit(digits[i]));
            } else {
                assert(ascii::digit(digits[i - 1]));
            }
        }
    }
}

/// Lower case keeps the length, and all but ASCII capitals; texts that differ in case only are
/// then the same.
pub proof fn lower_case_keeps_the_rest(s: Seq<char>)
    ensures
        edit::lower_text(s).len() == s.len(),
        forall|i: int|
            0 <= i < s.len() ==> {
                &&& !('A' <= #[trigger] s[i] <= 'Z') ==> edit::lower_text(s)[i] == s[i]
                &&& 'A' <= s[i] <= 'Z' ==> edit::lower_text(s)[i] as int == s[i] as int + ('a' as int
                    - 'A' as int)
            },
        edit::lower_text(edit::lower_text(s)) == edit::lower_text(s),
{
    assert(edit::lower_text(edit::lower_text(s)) =~= edit::lower_text(s));
}

/// A shortened text is the text where it is short enough; else it begins, or ends, as the text
/// does, and tells by dots that something is left out.
pub proof fn shortened_text_shows_its_cut(s: Seq<char>, max: nat)
    ensures
        s.len() <= max ==> edit::shorten(s, max) == s && edit::shorten_front(s, max) == s,
        s.len() > max ==> {
            &&& edit::shorten(s, max).take(max as int) == s.take(max as int)
            &&& edit::shorten(s, max).skip(max as int) == "..."@
            &&& edit::shorten_front(s, max).take(3) == "..."@
            &&& edit::shorten_front(s, max).skip(3) == s.skip(s.len() - max)
        },
{
    reveal_strlit("...");
    if s.len() > max {
        assert(edit::shorten(s, max).take(max as int) =~= s.take(max as int));
        assert(edit::shorten(s, max).skip(max as int) =~= "..."@);
        assert(edit::shorten_front(s, max).take(3) =~= "..."@);
        assert(edit::shorten_front(s, max).skip(3) =~= s.skip(s.len() - max));
    }
}

} // verus!
