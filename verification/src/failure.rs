//! Failures, each with the failures that caused it.

use crate::text::{chars, split};
use vstd::prelude::*;

verus! {

/// A failure: what it says, and after that what its causes say, the nearest one first.
#[derive(Debug)]
pub struct Failure {
    pub causes: Vec<String>,
}

/// The texts of a list, but for those that repeat the text kept before them.
pub open spec fn without_repeats(causes: Seq<Seq<char>>) -> Seq<Seq<char>>
    decreases causes.len(),
{
    if causes.len() == 0 {
        seq![]
    } else {
        let before = without_repeats(causes.drop_last());
        if before.len() > 0 && before.last() == causes.last() {
            before
        } else {
            before.push(causes.last())
        }
    }
}

/// A failure and its causes in one line.
pub open spec fn chain_text(causes: Seq<Seq<char>>) -> Seq<char> {
    split::join(without_repeats(causes), ": "@)
}

/// No text of a list stands behind itself.
pub open spec fn no_repeats(texts: Seq<Seq<char>>) -> bool {
    forall|i: int| 0 < i < texts.len() ==> #[trigger] texts[i] != texts[i - 1]
}

/// In the line of a failure no cause stands behind one with the same text.
pub proof fn repeats_are_dropped(causes: Seq<Seq<char>>)
    ensures
        no_repeats(without_repeats(causes)),
        causes.len() > 0 ==> without_repeats(causes).len() > 0 && without_repeats(causes).last()
            == causes.last(),
    decreases causes.len(),
{
    if causes.len() > 0 {
        repeats_are_dropped(causes.drop_last());
    }
}

impl Failure {
    /// What the failure and its causes say.
    pub open spec fn texts(self) -> Seq<Seq<char>> {
        chars::texts(self.causes@)
    }

    /// A failure without a cause.
    pub fn new(text: String) -> (r: Failure)
        ensures
            r.texts() == seq![text@],
    {
        let mut causes: Vec<String> = Vec::new();
        let ghost said = text@;
        causes.push(text);
        proof {
            assert(chars::texts(causes@) =~= seq![said]);
        }
        Failure { causes }
    }

    /// The failure as the cause of another one.
    pub fn context(self, text: String) -> (r: Failure)
        ensures
            r.texts() == seq![text@] + self.texts(),
    {
        let mut causes: Vec<String> = Vec::new();
        let ghost said = text@;
        causes.push(text);
        proof {
            assert(chars::texts(causes@) =~= seq![said]);
        }
        chars::push_texts(&mut causes, &self.causes);
        Failure { causes }
    }
}

/// Writes a failure and its causes in one line.
pub fn format_error_chain(error: &Failure) -> (r: String)
    ensures
        r@ == chain_text(error.texts()),
{
    let ghost all = error.texts();
    let mut parts: Vec<String> = chars::no_texts();
    let mut i: usize = 0;
    while i < error.causes.len()
        invariant
            i <= error.causes.len(),
            all == chars::texts(error.causes@),
            chars::texts(parts@) == without_repeats(all.take(i as int)),
        decreases error.causes.len() - i,
    {
        proof {
            assert(all.take(i + 1).drop_last() =~= all.take(i as int));
            assert(all.take(i + 1).last() == error.causes@[i as int]@);
            assert(chars::texts(parts@).len() == parts@.len());
        }
        let count: usize = parts.len();
        let repeated = count > 0 && chars::same(&parts[count - 1], &error.causes[i]);
        if !repeated {
            chars::push_text(&mut parts, &error.causes[i]);
        }
        i += 1;
    }
    proof {
        assert(all.take(i as int) =~= all);
    }
    split::joined(&parts, ": ")
}

} // verus!
