//! The order of texts: by their first difference, and a text before every longer one that begins
//! with it.

use crate::text::chars;
use vstd::prelude::*;

verus! {

/// The text `a` stands before `b`, where both agree up to `i`.
pub open spec fn before_from(a: Seq<char>, b: Seq<char>, i: int) -> bool
    decreases b.len() - i,
{
    if i >= b.len() {
        false
    } else if i >= a.len() {
        true
    } else if a[i] != b[i] {
        a[i] < b[i]
    } else {
        before_from(a, b, i + 1)
    }
}

/// The text `a` stands before the text `b`.
pub open spec fn before(a: Seq<char>, b: Seq<char>) -> bool {
    before_from(a, b, 0)
}

/// `before` is decided at the first difference.
proof fn lemma_difference(a: Seq<char>, b: Seq<char>, i: int, k: int)
    requires
        0 <= i <= k <= a.len(),
        k <= b.len(),
        forall|j: int| i <= j < k ==> a[j] == b[j],
    ensures
        before_from(a, b, i) == before_from(a, b, k),
    decreases k - i,
{
    if i < k {
        lemma_difference(a, b, i + 1, k);
    }
}

/// Two texts are ordered by their first difference.
pub proof fn before_at(a: Seq<char>, b: Seq<char>, k: int)
    requires
        0 <= k < a.len(),
        k < b.len(),
        forall|j: int| 0 <= j < k ==> a[j] == b[j],
        a[k] < b[k],
    ensures
        before(a, b),
{
    lemma_difference(a, b, 0, k);
}

/// The length that two texts have in common at their start.
spec fn common(a: Seq<char>, b: Seq<char>, i: int) -> int
    decreases a.len() - i,
{
    if i < a.len() && i < b.len() && a[i] == b[i] {
        common(a, b, i + 1)
    } else {
        i
    }
}

proof fn lemma_common(a: Seq<char>, b: Seq<char>, i: int)
    requires
        0 <= i <= a.len(),
        i <= b.len(),
    ensures
        i <= common(a, b, i) <= a.len(),
        common(a, b, i) <= b.len(),
        forall|j: int| i <= j < common(a, b, i) ==> a[j] == b[j],
        common(a, b, i) < a.len() && common(a, b, i) < b.len() ==> a[common(a, b, i)]
            != b[common(a, b, i)],
    decreases a.len() - i,
{
    if i < a.len() && i < b.len() && a[i] == b[i] {
        lemma_common(a, b, i + 1);
    }
}

/// No text stands before itself; of two different texts exactly one stands before the other.
pub proof fn before_is_total(a: Seq<char>, b: Seq<char>)
    ensures
        !before(a, a),
        a == b || before(a, b) || before(b, a),
        !(before(a, b) && before(b, a)),
{
    lemma_difference(a, a, 0, a.len() as int);
    lemma_common(a, b, 0);
    let k = common(a, b, 0);
    lemma_difference(a, b, 0, k);
    lemma_difference(b, a, 0, k);
    if k == a.len() && k == b.len() {
        assert(a =~= b);
    }
}

/// The order is transitive.
pub proof fn before_is_transitive(a: Seq<char>, b: Seq<char>, c: Seq<char>)
    requires
        before(a, b),
        before(b, c),
    ensures
        before(a, c),
{
    lemma_common(a, b, 0);
    lemma_common(b, c, 0);
    let i = common(a, b, 0);
    let j = common(b, c, 0);
    lemma_difference(a, b, 0, i);
    lemma_difference(b, c, 0, j);
    let k = if i < j {
        i
    } else {
        j
    };
    lemma_difference(a, c, 0, k);
}

/// Whether the text `a` stands before `b`.
pub fn is_before(a: &str, b: &str) -> (r: bool)
    ensures
        r == before(a@, b@),
{
    let x = chars::chars_of(a);
    let y = chars::chars_of(b);
    let mut i: usize = 0;
    while i < y.len()
        invariant
            i <= y.len(),
            i <= x.len(),
            x@ == a@,
            y@ == b@,
            before(a@, b@) == before_from(a@, b@, i as int),
        decreases y.len() - i,
    {
        if i == x.len() {
            return true;
        }
        if x[i] != y[i] {
            return x[i] < y[i];
        }
        i += 1;
    }
    false
}

} // verus!
