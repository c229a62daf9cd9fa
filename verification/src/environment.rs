//! The variables that the agent's process was started with.

use crate::string_map::StringMap;
use crate::text::{ascii, chars, edit, laws, number, split, trim};
use vstd::prelude::*;

verus! {

/// The variables of a process, each with its value.
pub type Environment = StringMap<String>;

/// The value of a variable.
pub open spec fn var(env: &Environment, name: Seq<char>) -> Option<Seq<char>> {
    if env.map().contains_key(name) {
        Some(env.map()[name]@)
    } else {
        None
    }
}

/// A text without the blanks around it, where anything is left of it.
pub open spec fn non_blank(value: Option<Seq<char>>) -> Option<Seq<char>> {
    match value {
        Some(v) => if trim::trim(v).len() > 0 {
            Some(trim::trim(v))
        } else {
            None
        },
        None => None,
    }
}

/// The value of a variable without the blanks around it, where anything is left of it.
pub open spec fn set_var(env: &Environment, name: Seq<char>) -> Option<Seq<char>> {
    non_blank(var(env, name))
}

/// A text that switches something on.
pub open spec fn affirmative(value: Seq<char>) -> bool {
    let word = edit::lower_text(trim::trim(value));
    word == "1"@ || word == "true"@ || word == "yes"@ || word == "on"@
}

/// Whether a variable switches something on.
pub open spec fn flag(env: &Environment, name: Seq<char>) -> bool {
    match var(env, name) {
        Some(value) => affirmative(value),
        None => false,
    }
}

/// The positive number, of at most `max`, that a variable holds.
pub open spec fn positive(env: &Environment, name: Seq<char>, max: nat) -> Option<nat> {
    match var(env, name) {
        Some(value) => match number::parse(trim::trim(value), max) {
            Some(n) => if n > 0 {
                Some(n)
            } else {
                None
            },
            None => None,
        },
        None => None,
    }
}

/// The positive number that a variable holds, else `fallback`.
pub open spec fn positive_or(env: &Environment, name: Seq<char>, max: nat, fallback: nat) -> nat {
    match positive(env, name, max) {
        Some(n) => n,
        None => fallback,
    }
}

/// The items of a list with blanks around them taken away, but for those that are blank.
pub open spec fn non_blank_items(items: Seq<Seq<char>>) -> Seq<Seq<char>>
    decreases items.len(),
{
    if items.len() == 0 {
        seq![]
    } else {
        let before = non_blank_items(items.drop_last());
        match non_blank(Some(items.last())) {
            Some(item) => before.push(item),
            None => before,
        }
    }
}

/// The items of a text that are separated by commas.
pub open spec fn comma_list(value: Seq<char>) -> Seq<Seq<char>> {
    non_blank_items(split::split(value, ','))
}

/// The items that a variable lists.
pub open spec fn list_var(env: &Environment, name: Seq<char>) -> Seq<Seq<char>> {
    match var(env, name) {
        Some(value) => comma_list(value),
        None => seq![],
    }
}

/// The value of a variable.
pub fn var_of<'a>(env: &'a Environment, name: &str) -> (r: Option<&'a str>)
    ensures
        chars::opt_str(r) == var(env, name@),
{
    match env.get(name) {
        Some(value) => Some(value.as_str()),
        None => None,
    }
}

/// A text without the blanks around it, where anything is left of it.
pub fn non_blank_text(value: Option<&str>) -> (r: Option<String>)
    ensures
        chars::opt_text(r) == non_blank(chars::opt_str(value)),
{
    match value {
        Some(value) => {
            let trimmed = trim::trimmed(value);
            if trimmed.as_str().is_empty() {
                None
            } else {
                Some(trimmed)
            }
        },
        None => None,
    }
}

/// The value of a variable without the blanks around it, where anything is left of it.
pub fn set_var_of(env: &Environment, name: &str) -> (r: Option<String>)
    ensures
        chars::opt_text(r) == set_var(env, name@),
{
    non_blank_text(var_of(env, name))
}

/// The path that a variable holds.
pub fn env_path(env: &Environment, name: &str) -> (r: Option<String>)
    ensures
        chars::opt_text(r) == set_var(env, name@),
{
    set_var_of(env, name)
}

/// Whether a variable switches something on.
pub fn env_flag(env: &Environment, name: &str) -> (r: bool)
    ensures
        r == flag(env, name@),
{
    match var_of(env, name) {
        Some(value) => {
            let word = edit::lowered(&trim::trimmed(value));
            chars::same(&word, "1") || chars::same(&word, "true") || chars::same(&word, "yes")
                || chars::same(&word, "on")
        },
        None => false,
    }
}

/// Whether the agent writes its debug diagnostics.
pub fn verbose_logs_enabled(env: &Environment) -> (r: bool)
    ensures
        r == flag(env, "STATIX_VERBOSE_LOGS"@),
{
    env_flag(env, "STATIX_VERBOSE_LOGS")
}

/// The positive number, of at most `max`, that a variable holds.
pub fn positive_of(env: &Environment, name: &str, max: u64) -> (r: Option<u64>)
    ensures
        match r {
            Some(n) => positive(env, name@, max as nat) == Some(n as nat) && 0 < n <= max,
            None => positive(env, name@, max as nat) is None,
        },
{
    match var_of(env, name) {
        Some(value) => match number::parsed(&trim::trimmed(value), max) {
            Some(n) => if n > 0 {
                Some(n)
            } else {
                None
            },
            None => None,
        },
        None => None,
    }
}

/// The positive number that a variable holds, else `fallback`.
pub fn parse_positive_int(env: &Environment, name: &str, fallback: u64) -> (r: u64)
    ensures
        r == positive_or(env, name@, u64::MAX as nat, fallback as nat),
{
    match positive_of(env, name, u64::MAX) {
        Some(n) => n,
        None => fallback,
    }
}

/// The positive number of at most 8 bits that a variable holds, else `fallback`.
pub fn parse_positive_u8(env: &Environment, name: &str, fallback: u8) -> (r: u8)
    ensures
        r == positive_or(env, name@, u8::MAX as nat, fallback as nat),
{
    match positive_of(env, name, 255) {
        Some(n) => n as u8,
        None => fallback,
    }
}

/// The positive number of at most 32 bits that a variable holds, else `fallback`.
pub fn parse_positive_u32(env: &Environment, name: &str, fallback: u32) -> (r: u32)
    ensures
        r == positive_or(env, name@, u32::MAX as nat, fallback as nat),
{
    match positive_of(env, name, 4_294_967_295) {
        Some(n) => n as u32,
        None => fallback,
    }
}

/// Reads the items of a text that are separated by commas.
pub fn parse_csv(value: &str) -> (r: Vec<String>)
    ensures
        chars::texts(r@) == comma_list(value@),
{
    let items = split::pieces(value, ',');
    let ghost all = chars::texts(items@);
    let mut r: Vec<String> = Vec::new();
    let mut i: usize = 0;
    while i < items.len()
        invariant
            i <= items.len(),
            all == chars::texts(items@),
            chars::texts(r@) == non_blank_items(all.take(i as int)),
        decreases items.len() - i,
    {
        proof {
            assert(all.take(i + 1).drop_last() =~= all.take(i as int));
            assert(all.take(i + 1).last() == items@[i as int]@);
        }
        match non_blank_text(Some(items[i].as_str())) {
            Some(item) => {
                let ghost before = r@;
                r.push(item);
                proof {
                    assert(chars::texts(r@) =~= chars::texts(before).push(item@));
                }
            },
            None => {},
        }
        i += 1;
    }
    proof {
        assert(all.take(i as int) =~= all);
    }
    r
}

/// Reads the items that a variable lists.
pub fn parse_csv_env(env: &Environment, name: &str) -> (r: Vec<String>)
    ensures
        chars::texts(r@) == list_var(env, name@),
{
    match var_of(env, name) {
        Some(value) => parse_csv(value),
        None => {
            let r: Vec<String> = Vec::new();
            proof {
                assert(chars::texts(r@) =~= seq![]);
            }
            r
        },
    }
}

/// A text with no blanks around it.
pub open spec fn bare(s: Seq<char>) -> bool {
    s.len() > 0 ==> !ascii::white(s[0]) && !ascii::white(s.last())
}

/// A text of blanks.
pub open spec fn blank(s: Seq<char>) -> bool {
    forall|i: int| 0 <= i < s.len() ==> ascii::white(#[trigger] s[i])
}

/// What a variable holds is read without the blanks around it; where nothing is left, or the
/// variable is not there, nothing is read.
pub proof fn variable_is_read(
    env: &Environment,
    name: Seq<char>,
    before: Seq<char>,
    value: Seq<char>,
    after: Seq<char>,
)
    requires
        bare(value),
        blank(before),
        blank(after),
    ensures
        !env.map().contains_key(name) ==> set_var(env, name) is None,
        env.map().contains_key(name) && env.map()[name]@ == before + value + after ==> {
            &&& value.len() > 0 ==> set_var(env, name) == Some(value)
            &&& value.len() == 0 ==> set_var(env, name) is None
        },
{
    laws::blanks_are_trimmed(before, value, after);
}

/// A variable switches something on with `1`, `true`, `yes` or `on`, in either case and with blanks
/// around it, and with nothing else.
pub proof fn word_switches_on(
    env: &Environment,
    name: Seq<char>,
    before: Seq<char>,
    word: Seq<char>,
    after: Seq<char>,
)
    requires
        bare(word),
        blank(before),
        blank(after),
    ensures
        !env.map().contains_key(name) ==> !flag(env, name),
        env.map().contains_key(name) && env.map()[name]@ == before + word + after ==> {
            flag(env, name) <==> {
                ||| edit::lower_text(word) == "1"@
                ||| edit::lower_text(word) == "true"@
                ||| edit::lower_text(word) == "yes"@
                ||| edit::lower_text(word) == "on"@
            }
        },
{
    laws::blanks_are_trimmed(before, word, after);
}

/// A number that a variable holds is read where it is positive and not too great; else the
/// fallback is taken, as where the variable is not there.
pub proof fn number_is_read(
    env: &Environment,
    name: Seq<char>,
    before: Seq<char>,
    n: nat,
    after: Seq<char>,
    max: nat,
    fallback: nat,
)
    requires
        blank(before),
        blank(after),
    ensures
        !env.map().contains_key(name) ==> positive_or(env, name, max, fallback) == fallback,
        env.map().contains_key(name) && env.map()[name]@ == before + number::decimal(n) + after ==> {
            &&& 0 < n <= max ==> positive_or(env, name, max, fallback) == n
            &&& n == 0 || n > max ==> positive_or(env, name, max, fallback) == fallback
        },
{
    number::lemma_decimal(n);
    laws::numbers_are_read(n, number::decimal(n), max);
    laws::blanks_are_trimmed(before, number::decimal(n), after);
}

/// What is no number is not read from a variable.
pub proof fn other_text_is_no_number(
    env: &Environment,
    name: Seq<char>,
    max: nat,
    fallback: nat,
    i: int,
)
    requires
        env.map().contains_key(name),
        bare(env.map()[name]@),
        0 < i < env.map()[name]@.len(),
        !('0' <= env.map()[name]@[i] <= '9'),
    ensures
        positive_or(env, name, max, fallback) == fallback,
{
    let value = env.map()[name]@;
    laws::blanks_are_trimmed(seq![], value, seq![]);
    assert(Seq::<char>::empty() + value + Seq::<char>::empty() =~= value);
    laws::numbers_are_read(0, value, max);
}

/// Items that are listed with commas between them are read in their order.
pub proof fn listed_items_are_read(items: Seq<Seq<char>>)
    requires
        items.len() > 0,
        forall|i: int|
            0 <= i < items.len() ==> bare(#[trigger] items[i]) && items[i].len() > 0 && laws::lacks(
                items[i],
                ',',
            ),
    ensures
        comma_list(split::join(items, seq![','])) == items,
{
    assert forall|i: int| 0 <= i < items.len() implies laws::lacks(#[trigger] items[i], ',') by {
        assert(bare(items[i]));
    }
    laws::pieces_are_read_back(items, ',');
    lemma_items_kept(items);
}

proof fn lemma_items_kept(items: Seq<Seq<char>>)
    requires
        forall|i: int| 0 <= i < items.len() ==> bare(#[trigger] items[i]) && items[i].len() > 0,
    ensures
        non_blank_items(items) == items,
    decreases items.len(),
{
    if items.len() > 0 {
        let d = items.drop_last();
        assert forall|i: int| 0 <= i < d.len() implies bare(#[trigger] d[i]) && d[i].len() > 0 by {
            assert(d[i] == items[i]);
        }
        lemma_items_kept(d);
        let last = items[items.len() - 1];
        assert(bare(last));
        laws::blanks_are_trimmed(seq![], last, seq![]);
        assert(Seq::<char>::empty() + last + Seq::<char>::empty() =~= last);
        assert(d.push(last) =~= items);
    }
}

/// Blanks between the commas of a list are no items, and what is listed behind them is read.
pub proof fn blank_items_are_passed_over(items: Seq<Seq<char>>, item: Seq<char>)
    ensures
        blank(item) ==> non_blank_items(items.push(item)) == non_blank_items(items),
        bare(item) && item.len() > 0 ==> non_blank_items(items.push(item)) == non_blank_items(
            items,
        ).push(item),
{
    assert(items.push(item).drop_last() =~= items);
    if blank(item) {
        laws::blanks_are_trimmed(item, seq![], seq![]);
        assert(item + Seq::<char>::empty() + Seq::<char>::empty() =~= item);
    }
    if bare(item) && item.len() > 0 {
        laws::blanks_are_trimmed(seq![], item, seq![]);
        assert(Seq::<char>::empty() + item + Seq::<char>::empty() =~= item);
    }
}

} // verus!
