//! The programs that the agent cannot do without.

use crate::text::chars;
use vstd::prelude::*;

verus! {

/// The programs of a list that were not found.
pub open spec fn missing(programs: Seq<Seq<char>>, found: Seq<bool>) -> Seq<Seq<char>>
    decreases programs.len(),
{
    if programs.len() == 0 {
        seq![]
    } else {
        let before = missing(programs.drop_last(), found.drop_last());
        if found.last() {
            before
        } else {
            before.push(programs.last())
        }
    }
}

/// The programs of a list that were not found.
pub fn missing_programs(programs: &Vec<String>, found: &Vec<bool>) -> (r: Vec<String>)
    requires
        programs@.len() == found@.len(),
    ensures
        chars::texts(r@) == missing(chars::texts(programs@), found@),
        r@.len() == missing(chars::texts(programs@), found@).len(),
{
    let ghost all = chars::texts(programs@);
    let mut r = chars::no_texts();
    let mut i: usize = 0;
    while i < programs.len()
        invariant
            i <= programs.len(),
            programs@.len() == found@.len(),
            all == chars::texts(programs@),
            chars::texts(r@) == missing(all.take(i as int), found@.take(i as int)),
        decreases programs.len() - i,
    {
        proof {
            assert(all.take(i + 1).drop_last() =~= all.take(i as int));
            assert(all.take(i + 1).last() == programs@[i as int]@);
            assert(found@.take(i + 1).drop_last() =~= found@.take(i as int));
        }
        if !found[i] {
            chars::push_text(&mut r, &programs[i]);
        }
        i += 1;
    }
    proof {
        assert(all.take(i as int) =~= all);
        assert(found@.take(i as int) =~= found@);
        assert(chars::texts(r@).len() == r@.len());
    }
    r
}

} // verus!
