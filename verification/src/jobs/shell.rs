//! Commands as text for a POSIX shell.

use crate::text::{ascii, chars, edit, split};
use vstd::prelude::*;

verus! {

/// A character that a shell takes as it is, wherever it stands in a word.
pub open spec fn plain(c: char) -> bool {
    ||| ascii::alphanumeric(c)
    ||| c == '@'
    ||| c == '%'
    ||| c == '_'
    ||| c == '-'
    ||| c == '+'
    ||| c == '='
    ||| c == ':'
    ||| c == ','
    ||| c == '.'
    ||| c == '/'
}

/// All characters of a text are plain.
pub open spec fn all_plain(s: Seq<char>) -> bool {
    forall|i: int| 0 <= i < s.len() ==> plain(#[trigger] s[i])
}

/// A word as text for a shell: as it is where that is safe, else in single quotes.
pub open spec fn escape(s: Seq<char>) -> Seq<char> {
    if s.len() == 0 {
        "''"@
    } else if all_plain(s) {
        s
    } else {
        "'"@ + edit::replace_char(s, '\'', "'\\''"@) + "'"@
    }
}

/// The words of a command, each as text for a shell.
pub open spec fn escaped(command: Seq<Seq<char>>) -> Seq<Seq<char>> {
    command.map_values(|word: Seq<char>| escape(word))
}

/// A command as text for a shell.
pub open spec fn command_text(command: Seq<Seq<char>>) -> Seq<char> {
    split::join(escaped(command), " "@)
}

/// The word read so far, with one more character.
pub open spec fn longer(word: Option<Seq<char>>, c: char) -> Option<Seq<char>> {
    match word {
        Some(w) => Some(w.push(c)),
        None => Some(seq![c]),
    }
}

/// How a shell goes on to read `s`, after the words `done`, inside single quotes or not, and with
/// a word begun or not. Blanks end a word; between single quotes each character stands for
/// itself; elsewhere a backslash makes the next character stand for itself. Nothing is said
/// (`None`) of a text with an open quote, or with a character outside of quotes that is neither
/// plain nor one of these.
pub open spec fn read(
    s: Seq<char>,
    done: Seq<Seq<char>>,
    quoted: bool,
    word: Option<Seq<char>>,
) -> Option<Seq<Seq<char>>>
    decreases s.len(),
{
    if s.len() == 0 {
        if quoted {
            None
        } else {
            match word {
                Some(w) => Some(done.push(w)),
                None => Some(done),
            }
        }
    } else if quoted {
        if s[0] == '\'' {
            read(s.skip(1), done, false, word)
        } else {
            read(s.skip(1), done, true, longer(word, s[0]))
        }
    } else if s[0] == '\'' {
        match word {
            Some(w) => read(s.skip(1), done, true, Some(w)),
            None => read(s.skip(1), done, true, Some(seq![])),
        }
    } else if s[0] == '\\' {
        if s.len() > 1 {
            read(s.skip(2), done, false, longer(word, s[1]))
        } else {
            None
        }
    } else if s[0] == ' ' {
        match word {
            Some(w) => read(s.skip(1), done.push(w), false, None),
            None => read(s.skip(1), done, false, None),
        }
    } else if plain(s[0]) {
        read(s.skip(1), done, false, longer(word, s[0]))
    } else {
        None
    }
}

/// The words that a shell reads in a text.
pub open spec fn shell_words(s: Seq<char>) -> Option<Seq<Seq<char>>> {
    read(s, seq![], false, None)
}

/// A text between quotes, with each quote in it replaced, is read back.
proof fn lemma_quoted(v: Seq<char>, rest: Seq<char>, done: Seq<Seq<char>>, w: Seq<char>)
    ensures
        read(edit::replace_char(v, '\'', "'\\''"@) + rest, done, true, Some(w)) == read(
            rest,
            done,
            true,
            Some(w + v),
        ),
    decreases v.len(),
{
    reveal_strlit("'\\''");
    if v.len() == 0 {
        assert(edit::replace_char(v, '\'', "'\\''"@) + rest =~= rest);
        assert(w + v =~= w);
    } else {
        let u = v.drop_last();
        let c = v.last();
        let head = edit::replace_char(u, '\'', "'\\''"@);
        let word = w + u;
        assert(word.push(c) =~= w + v);
        if c == '\'' {
            let more = "'\\''"@ + rest;
            assert(edit::replace_char(v, '\'', "'\\''"@) + rest =~= head + more);
            lemma_quoted(u, more, done, w);
            let after_quote = more.skip(1);
            assert(after_quote[0] == '\\' && after_quote[1] == '\'');
            assert(read(more, done, true, Some(word)) == read(
                after_quote,
                done,
                false,
                Some(word),
            ));
            let after_escape = after_quote.skip(2);
            assert(read(after_quote, done, false, Some(word)) == read(
                after_escape,
                done,
                false,
                Some(word.push('\'')),
            ));
            assert(after_escape[0] == '\'');
            assert(after_escape.skip(1) =~= rest);
        } else {
            let more = seq![c] + rest;
            assert(edit::replace_char(v, '\'', "'\\''"@) + rest =~= head + more);
            lemma_quoted(u, more, done, w);
            assert(more.skip(1) =~= rest);
        }
    }
}

/// Plain characters are read as a word.
proof fn lemma_plain(v: Seq<char>, rest: Seq<char>, done: Seq<Seq<char>>)
    requires
        v.len() > 0,
        all_plain(v),
    ensures
        read(v + rest, done, false, None) == read(rest, done, false, Some(v)),
    decreases v.len(),
{
    let u = v.drop_last();
    let c = v.last();
    let more = seq![c] + rest;
    assert(plain(v[v.len() - 1]));
    assert(v + rest =~= u + more);
    assert(more.skip(1) =~= rest);
    if u.len() > 0 {
        assert(all_plain(u)) by {
            assert forall|i: int| 0 <= i < u.len() implies plain(#[trigger] u[i]) by {
                assert(plain(v[i]));
            }
        }
        lemma_plain(u, more, done);
        assert(u.push(c) =~= v);
    } else {
        assert(v + rest =~= more);
        assert(seq![c] =~= v);
    }
}

/// What is written for a word is read as that word.
proof fn lemma_word(v: Seq<char>, rest: Seq<char>, done: Seq<Seq<char>>)
    ensures
        read(escape(v) + rest, done, false, None) == read(rest, done, false, Some(v)),
{
    reveal_strlit("'");
    reveal_strlit("''");
    if v.len() == 0 {
        let s = "''"@ + rest;
        assert(s[0] == '\'');
        let t = s.skip(1);
        assert(t[0] == '\'');
        assert(read(s, done, false, None) == read(t, done, true, Some(seq![])));
        assert(t.skip(1) =~= rest);
        assert(v =~= seq![]);
    } else if all_plain(v) {
        lemma_plain(v, rest, done);
    } else {
        let body = edit::replace_char(v, '\'', "'\\''"@);
        let s = escape(v) + rest;
        let more = "'"@ + rest;
        assert(s[0] == '\'');
        assert(s.skip(1) =~= body + more);
        assert(read(s, done, false, None) == read(body + more, done, true, Some(seq![])));
        lemma_quoted(v, more, done, seq![]);
        assert(Seq::<char>::empty() + v =~= v);
        assert(more[0] == '\'');
        assert(more.skip(1) =~= rest);
    }
}

/// A command that is followed by more text is read up to its last word.
proof fn lemma_command(command: Seq<Seq<char>>, rest: Seq<char>)
    requires
        command.len() > 0,
    ensures
        read(command_text(command) + rest, seq![], false, None) == read(
            rest,
            command.drop_last(),
            false,
            Some(command.last()),
        ),
    decreases command.len(),
{
    reveal_strlit(" ");
    let e = escaped(command);
    assert(e.len() == command.len());
    assert(e.last() == escape(command.last()));
    if command.len() == 1 {
        lemma_word(command[0], rest, seq![]);
        assert(command.drop_last() =~= Seq::<Seq<char>>::empty());
    } else {
        let before = command.drop_last();
        assert(e.drop_last() =~= escaped(before));
        let more = " "@ + (escape(command.last()) + rest);
        assert(command_text(command) + rest =~= command_text(before) + more);
        lemma_command(before, more);
        assert(more.skip(1) =~= escape(command.last()) + rest);
        assert(before.drop_last().push(before.last()) =~= before);
        lemma_word(command.last(), rest, before);
    }
}

/// A shell that reads the text of a command gets the words of the command back, whatever
/// characters they hold.
pub proof fn command_is_read_back(command: Seq<Seq<char>>)
    ensures
        shell_words(command_text(command)) == Some(command),
{
    if command.len() == 0 {
        assert(escaped(command) =~= Seq::<Seq<char>>::empty());
        assert(command =~= Seq::<Seq<char>>::empty());
    } else {
        lemma_command(command, seq![]);
        assert(command_text(command) + Seq::<char>::empty() =~= command_text(command));
        assert(command.drop_last().push(command.last()) =~= command);
    }
}

/// A shell that reads the text of one word gets that word back, and nothing else.
pub proof fn word_is_read_back(word: Seq<char>)
    ensures
        shell_words(escape(word)) == Some(seq![word]),
{
    lemma_word(word, seq![], seq![]);
    assert(escape(word) + Seq::<char>::empty() =~= escape(word));
    assert(Seq::<Seq<char>>::empty().push(word) =~= seq![word]);
}

/// Whether a shell takes a character as it is.
fn is_plain(c: char) -> (r: bool)
    ensures
        r == plain(c),
{
    ascii::is_alphanumeric(c) || c == '@' || c == '%' || c == '_' || c == '-' || c == '+' || c == '='
        || c == ':' || c == ',' || c == '.' || c == '/'
}

/// Writes a word as text for a shell.
pub fn shell_escape(value: &str) -> (r: String)
    ensures
        r@ == escape(value@),
{
    if value.is_empty() {
        return "''".to_owned();
    }
    let cs = chars::chars_of(value);
    let mut i: usize = 0;
    while i < cs.len() && is_plain(cs[i])
        invariant
            i <= cs.len(),
            cs@ == value@,
            forall|j: int| 0 <= j < i ==> plain(#[trigger] value@[j]),
        decreases cs.len() - i,
    {
        i += 1;
    }
    if i == cs.len() {
        return value.to_owned();
    }
    assert(!plain(value@[i as int]));
    let body = edit::replaced(value, '\'', "'\\''");
    chars::cat3("'", &body, "'")
}

/// Writes a command as text for a shell.
pub fn shell_join(command: &Vec<String>) -> (r: String)
    ensures
        r@ == command_text(chars::texts(command@)),
{
    let mut words: Vec<String> = Vec::new();
    let mut i: usize = 0;
    while i < command.len()
        invariant
            i <= command.len(),
            chars::texts(words@) == escaped(chars::texts(command@)).take(i as int),
        decreases command.len() - i,
    {
        let word = shell_escape(&command[i]);
        let ghost before = words@;
        words.push(word);
        proof {
            assert(chars::texts(words@) =~= chars::texts(before).push(word@));
            let all = escaped(chars::texts(command@));
            assert(all.take(i + 1) =~= all.take(i as int).push(all[i as int]));
        }
        i += 1;
    }
    proof {
        let all = escaped(chars::texts(command@));
        assert(all.take(i as int) =~= all);
    }
    split::joined(&words, " ")
}

/// A name that a shell takes for a variable: letters, digits and underscores, no digit first.
pub open spec fn variable_name(s: Seq<char>) -> bool {
    &&& s.len() > 0
    &&& !ascii::digit(s[0])
    &&& forall|i: int|
        0 <= i < s.len() ==> (#[trigger] s[i] == '_' || ascii::alphanumeric(s[i]))
}

/// The text that sets and exports a variable.
pub open spec fn export(key: Seq<char>, value: Seq<char>) -> Seq<char> {
    "export "@ + key + "="@ + escape(value) + ";"@
}

/// A line sets a variable to a value, and exports it.
pub open spec fn sets(line: Seq<char>, name: Seq<char>, value: Seq<char>) -> bool {
    exists|quoted: Seq<char>|
        line == "export "@ + name + "="@ + quoted + ";"@ && #[trigger] shell_words(quoted)
            == Some(seq![value])
}

/// The text that exports a variable sets it to its value, whatever characters that holds.
pub proof fn export_is_read_back(name: Seq<char>, value: Seq<char>)
    ensures
        sets(export(name, value), name, value),
{
    word_is_read_back(value);
}

/// Whether a text is a name that a shell takes for a variable.
pub fn is_variable_name(value: &str) -> (r: bool)
    ensures
        r == variable_name(value@),
{
    let cs = chars::chars_of(value);
    if cs.len() == 0 || ascii::is_digit(cs[0]) {
        return false;
    }
    let mut i: usize = 0;
    while i < cs.len()
        invariant
            i <= cs.len(),
            cs@ == value@,
            forall|j: int|
                0 <= j < i ==> (#[trigger] value@[j] == '_' || ascii::alphanumeric(value@[j])),
        decreases cs.len() - i,
    {
        if !(cs[i] == '_' || ascii::is_alphanumeric(cs[i])) {
            assert(!(value@[i as int] == '_' || ascii::alphanumeric(value@[i as int])));
            return false;
        }
        i += 1;
    }
    true
}

/// Writes the text that sets and exports a variable.
pub fn export_text(key: &str, value: &str) -> (r: String)
    ensures
        r@ == export(key@, value@),
{
    let mut r = chars::cat3("export ", key, "=");
    r.append(&shell_escape(value));
    r.append(";");
    r
}

/// A name is taken for a variable's where it is made of letters, digits and underscores, and does
/// not begin with a digit; also where it is a single character.
pub proof fn variables_are_named_with_letters(s: Seq<char>, c: char)
    ensures
        variable_name(seq![c]) <==> 'a' <= c <= 'z' || 'A' <= c <= 'Z' || c == '_',
        s.len() > 0 ==> (variable_name(s.push(c)) <==> variable_name(s) && ('a' <= c <= 'z' || 'A'
            <= c <= 'Z' || '0' <= c <= '9' || c == '_')),
        !variable_name(seq![]),
{
    let one = seq![c];
    assert(one[0] == c);
    let more = s.push(c);
    if s.len() > 0 {
        assert(more[0] == s[0]);
        assert(more[s.len() as int] == c);
        if variable_name(more) {
            assert forall|i: int| 0 <= i < s.len() implies (#[trigger] s[i] == '_'
                || ascii::alphanumeric(s[i])) by {
                assert(more[i] == s[i]);
            }
        }
        if variable_name(s) {
            assert forall|i: int| 0 <= i < s.len() implies more[i] == s[i] by {}
        }
    }
}

} // verus!
