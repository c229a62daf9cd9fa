//! A map from strings that is walked in the order of its keys.

use crate::text::{chars, order};
use vstd::prelude::*;

verus! {

/// Each key stands before those of the later pairs.
pub open spec fn ordered<V>(pairs: Seq<(Seq<char>, V)>) -> bool {
    forall|i: int, j: int|
        0 <= i < j < pairs.len() ==> order::before(#[trigger] pairs[i].0, #[trigger] pairs[j].0)
}

/// The map that a list of pairs holds.
pub open spec fn map_of<V>(pairs: Seq<(Seq<char>, V)>) -> Map<Seq<char>, V>
    decreases pairs.len(),
{
    if pairs.len() == 0 {
        Map::empty()
    } else {
        map_of(pairs.drop_last()).insert(pairs.last().0, pairs.last().1)
    }
}

/// In ordered pairs each key stands once.
proof fn lemma_keys<V>(pairs: Seq<(Seq<char>, V)>, i: int, j: int)
    requires
        ordered(pairs),
        0 <= i < pairs.len(),
        0 <= j < pairs.len(),
        pairs[i].0 == pairs[j].0,
    ensures
        i == j,
{
    order::before_is_total(pairs[i].0, pairs[j].0);
    if i < j {
        assert(order::before(pairs[i].0, pairs[j].0));
    } else if j < i {
        assert(order::before(pairs[j].0, pairs[i].0));
    }
}

/// The keys of the map are those of the pairs.
pub proof fn lemma_domain<V>(pairs: Seq<(Seq<char>, V)>, key: Seq<char>)
    ensures
        map_of(pairs).contains_key(key) <==> exists|i: int|
            0 <= i < pairs.len() && (#[trigger] pairs[i]).0 == key,
    decreases pairs.len(),
{
    if pairs.len() > 0 {
        let d = pairs.drop_last();
        lemma_domain(d, key);
        if exists|i: int| 0 <= i < pairs.len() && (#[trigger] pairs[i]).0 == key {
            let i = choose|i: int| 0 <= i < pairs.len() && (#[trigger] pairs[i]).0 == key;
            if i < d.len() {
                assert(d[i] == pairs[i]);
            }
        }
        if map_of(pairs).contains_key(key) {
            if pairs.last().0 == key {
                assert(pairs[pairs.len() - 1].0 == key);
            } else {
                let i = choose|i: int| 0 <= i < d.len() && (#[trigger] d[i]).0 == key;
                assert(pairs[i] == d[i]);
            }
        }
    }
}

/// Ordered pairs give each key its value.
proof fn lemma_value<V>(pairs: Seq<(Seq<char>, V)>, i: int)
    requires
        ordered(pairs),
        0 <= i < pairs.len(),
    ensures
        map_of(pairs).contains_key(pairs[i].0),
        map_of(pairs)[pairs[i].0] == pairs[i].1,
    decreases pairs.len(),
{
    let d = pairs.drop_last();
    if i < d.len() {
        assert(ordered(d)) by {
            assert forall|a: int, b: int| 0 <= a < b < d.len() implies order::before(
                #[trigger] d[a].0,
                #[trigger] d[b].0,
            ) by {
                assert(d[a] == pairs[a] && d[b] == pairs[b]);
            }
        }
        lemma_value(d, i);
        assert(d[i] == pairs[i]);
        if pairs[i].0 == pairs.last().0 {
            lemma_keys(pairs, i, pairs.len() - 1);
        }
    }
}

/// Two ordered lists of pairs with the same map are the same list.
pub proof fn order_is_determined<V>(a: Seq<(Seq<char>, V)>, b: Seq<(Seq<char>, V)>)
    requires
        ordered(a),
        ordered(b),
        map_of(a) == map_of(b),
    ensures
        a == b,
    decreases a.len(),
{
    if a.len() == 0 {
        if b.len() > 0 {
            lemma_value(b, 0);
            lemma_domain(a, b[0].0);
        }
        assert(a =~= b);
    } else if b.len() == 0 {
        lemma_value(a, 0);
        lemma_domain(b, a[0].0);
    } else {
        let n = a.len() - 1;
        let m = b.len() - 1;
        lemma_value(a, n);
        lemma_value(b, m);
        lemma_domain(b, a[n].0);
        lemma_domain(a, b[m].0);
        let j = choose|j: int| 0 <= j < b.len() && (#[trigger] b[j]).0 == a[n].0;
        let k = choose|k: int| 0 <= k < a.len() && (#[trigger] a[k]).0 == b[m].0;
        order::before_is_total(a[n].0, b[m].0);
        if j < m {
            assert(order::before(b[j].0, b[m].0));
            if k < n {
                assert(order::before(a[k].0, a[n].0));
            }
        }
        assert(a[n].0 == b[m].0);
        assert(a[n] == b[m]);
        let c = a.drop_last();
        let d = b.drop_last();
        assert(ordered(c)) by {
            assert forall|x: int, y: int| 0 <= x < y < c.len() implies order::before(
                #[trigger] c[x].0,
                #[trigger] c[y].0,
            ) by {
                assert(c[x] == a[x] && c[y] == a[y]);
            }
        }
        assert(ordered(d)) by {
            assert forall|x: int, y: int| 0 <= x < y < d.len() implies order::before(
                #[trigger] d[x].0,
                #[trigger] d[y].0,
            ) by {
                assert(d[x] == b[x] && d[y] == b[y]);
            }
        }
        let key = a[n].0;
        lemma_absent(a);
        lemma_absent(b);
        assert(map_of(c) =~= map_of(a).remove(key));
        assert(map_of(d) =~= map_of(b).remove(key));
        order_is_determined(c, d);
        assert(c.push(a[n]) =~= a && d.push(b[m]) =~= b);
    }
}

/// The last key of ordered pairs does not stand among the others.
proof fn lemma_absent<V>(pairs: Seq<(Seq<char>, V)>)
    requires
        ordered(pairs),
        pairs.len() > 0,
    ensures
        !map_of(pairs.drop_last()).contains_key(pairs.last().0),
{
    let d = pairs.drop_last();
    lemma_domain(d, pairs.last().0);
    if map_of(d).contains_key(pairs.last().0) {
        let i = choose|i: int| 0 <= i < d.len() && (#[trigger] d[i]).0 == pairs.last().0;
        assert(pairs[i] == d[i]);
        lemma_keys(pairs, i, pairs.len() - 1);
    }
}

/// Pairs with one put in its place, or put in the place of the one with the same key.
proof fn lemma_insert<V>(p: Seq<(Seq<char>, V)>, i: int, key: Seq<char>, value: V)
    requires
        ordered(p),
        0 <= i <= p.len(),
        forall|j: int| 0 <= j < i ==> order::before(#[trigger] p[j].0, key),
        i < p.len() ==> !order::before(p[i].0, key),
    ensures
        ({
            let q = if i < p.len() && p[i].0 == key {
                p.update(i, (key, value))
            } else {
                p.insert(i, (key, value))
            };
            ordered(q) && map_of(q) == map_of(p).insert(key, value)
        }),
{
    let replaces = i < p.len() && p[i].0 == key;
    let q = if replaces {
        p.update(i, (key, value))
    } else {
        p.insert(i, (key, value))
    };
    assert forall|j: int| i < j < p.len() implies order::before(key, #[trigger] p[j].0) by {
        assert(order::before(p[i].0, p[j].0));
        order::before_is_total(p[i].0, key);
        if p[i].0 != key {
            order::before_is_transitive(key, p[i].0, p[j].0);
        }
    }
    if i < p.len() && !replaces {
        order::before_is_total(p[i].0, key);
    }
    assert forall|a: int, b: int| 0 <= a < b < q.len() implies order::before(
        #[trigger] q[a].0,
        #[trigger] q[b].0,
    ) by {
        let x = if replaces || a <= i {
            a
        } else {
            a - 1
        };
        let y = if replaces || b <= i {
            b
        } else {
            b - 1
        };
        if a != i {
            assert(q[a] == p[x]);
        }
        if b != i {
            assert(q[b] == p[y]);
        }
    }
    let m = map_of(p).insert(key, value);
    assert(q[i] == (key, value));
    assert forall|k: Seq<char>| map_of(q).contains_key(k) <==> m.contains_key(k) by {
        lemma_domain(q, k);
        lemma_domain(p, k);
        if map_of(q).contains_key(k) && k != key {
            let a = choose|a: int| 0 <= a < q.len() && (#[trigger] q[a]).0 == k;
            let x = if replaces || a <= i {
                a
            } else {
                a - 1
            };
            assert(p[x] == q[a]);
        }
        if map_of(p).contains_key(k) && k != key {
            let x = choose|x: int| 0 <= x < p.len() && (#[trigger] p[x]).0 == k;
            let a = if replaces || x < i {
                x
            } else {
                x + 1
            };
            assert(q[a] == p[x]);
        }
    }
    assert forall|k: Seq<char>| map_of(q).contains_key(k) implies map_of(q)[k] == m[k] by {
        lemma_domain(q, k);
        let a = choose|a: int| 0 <= a < q.len() && (#[trigger] q[a]).0 == k;
        lemma_value(q, a);
        if k != key {
            let x = if replaces || a <= i {
                a
            } else {
                a - 1
            };
            assert(p[x] == q[a]);
            lemma_value(p, x);
        } else {
            lemma_keys(q, a, i);
        }
    }
    assert(map_of(q) =~= m);
}

/// A map from strings.
#[derive(Debug)]
pub struct StringMap<V> {
    entries: Vec<(String, V)>,
}

impl<V> StringMap<V> {
    /// The pairs of the map, in the order of their keys.
    pub closed spec fn pairs(&self) -> Seq<(Seq<char>, V)> {
        self.entries@.map_values(|e: (String, V)| (e.0@, e.1))
    }

    /// What the map holds.
    pub open spec fn map(&self) -> Map<Seq<char>, V> {
        map_of(self.pairs())
    }

    #[verifier::type_invariant]
    spec fn inv(self) -> bool {
        ordered(self.pairs())
    }

    /// A map that holds nothing.
    pub fn new() -> (r: Self)
        ensures
            r.pairs() == Seq::<(Seq<char>, V)>::empty(),
            r.map() == Map::<Seq<char>, V>::empty(),
    {
        let r = StringMap { entries: Vec::new() };
        proof {
            assert(r.pairs() =~= Seq::empty());
        }
        r
    }

    /// The number of pairs.
    pub fn len(&self) -> (r: usize)
        ensures
            r == self.pairs().len(),
            ordered(self.pairs()),
    {
        proof {
            use_type_invariant(self);
        }
        self.entries.len()
    }

    /// Whether the map holds nothing.
    pub fn is_empty(&self) -> (r: bool)
        ensures
            r == (self.pairs().len() == 0),
            r == (self.map() == Map::<Seq<char>, V>::empty()),
    {
        proof {
            if self.pairs().len() > 0 {
                assert(self.map().contains_key(self.pairs().last().0));
            }
        }
        self.entries.len() == 0
    }

    /// The key of the pair at a position.
    pub fn key(&self, i: usize) -> (r: &String)
        requires
            i < self.pairs().len(),
        ensures
            r@ == self.pairs()[i as int].0,
    {
        &self.entries[i].0
    }

    /// The value of the pair at a position.
    pub fn value(&self, i: usize) -> (r: &V)
        requires
            i < self.pairs().len(),
        ensures
            *r == self.pairs()[i as int].1,
    {
        &self.entries[i].1
    }

    /// The value of a key.
    pub fn get(&self, key: &str) -> (r: Option<&V>)
        ensures
            match r {
                Some(v) => self.map().contains_key(key@) && self.map()[key@] == *v,
                None => !self.map().contains_key(key@),
            },
    {
        proof {
            use_type_invariant(self);
            lemma_domain(self.pairs(), key@);
        }
        let mut i: usize = 0;
        while i < self.entries.len()
            invariant
                i <= self.entries.len(),
                ordered(self.pairs()),
                forall|j: int| 0 <= j < i ==> (#[trigger] self.pairs()[j]).0 != key@,
            decreases self.entries.len() - i,
        {
            if chars::same(&self.entries[i].0, key) {
                proof {
                    lemma_value(self.pairs(), i as int);
                }
                return Some(&self.entries[i].1);
            }
            i += 1;
        }
        None
    }

    /// Gives a key a value.
    pub fn insert(&mut self, key: String, value: V)
        ensures
            final(self).map() == old(self).map().insert(key@, value),
            ordered(final(self).pairs()),
    {
        proof {
            use_type_invariant(&*self);
        }
        let ghost p = self.pairs();
        let mut entries: Vec<(String, V)> = Vec::new();
        std::mem::swap(&mut entries, &mut self.entries);
        let ghost pairs = entries@.map_values(|e: (String, V)| (e.0@, e.1));
        let mut i: usize = 0;
        while i < entries.len() && order::is_before(&entries[i].0, &key)
            invariant
                i <= entries.len(),
                pairs == entries@.map_values(|e: (String, V)| (e.0@, e.1)),
                forall|j: int| 0 <= j < i ==> order::before(#[trigger] pairs[j].0, key@),
            decreases entries.len() - i,
        {
            assert(pairs[i as int].0 == entries@[i as int].0@);
            i += 1;
        }
        proof {
            if i < entries.len() {
                assert(pairs[i as int].0 == entries@[i as int].0@);
            }
            lemma_insert(p, i as int, key@, value);
        }
        let ghost k = key@;
        let ghost before = entries@;
        if i < entries.len() && chars::same(&entries[i].0, &key) {
            entries.set(i, (key, value));
            proof {
                assert(entries@.map_values(|e: (String, V)| (e.0@, e.1)) =~= p.update(
                    i as int,
                    (k, value),
                ));
            }
        } else {
            entries.insert(i, (key, value));
            proof {
                assert(entries@.map_values(|e: (String, V)| (e.0@, e.1)) =~= p.insert(
                    i as int,
                    (k, value),
                ));
            }
        }
        self.entries = entries;
    }
}

impl StringMap<String> {
    /// A copy of the map.
    pub fn copy(&self) -> (r: Self)
        ensures
            r.pairs() == self.pairs(),
            r.map() == self.map(),
    {
        proof {
            use_type_invariant(self);
        }
        let mut entries: Vec<(String, String)> = Vec::new();
        let mut i: usize = 0;
        while i < self.entries.len()
            invariant
                i <= self.entries.len(),
                entries@ == self.entries@.take(i as int),
            decreases self.entries.len() - i,
        {
            entries.push((self.entries[i].0.clone(), self.entries[i].1.clone()));
            i += 1;
        }
        proof {
            assert(entries@ =~= self.entries@);
        }
        StringMap { entries }
    }

    /// Takes over the pairs of another map; where both have a key, the value of the other.
    pub fn extend(&mut self, other: &StringMap<String>)
        ensures
            final(self).map() == old(self).map().union_prefer_right(other.map()),
    {
        let mut i: usize = 0;
        let ghost start = self.map();
        proof {
            assert(other.pairs().take(0) =~= Seq::empty());
            assert(start.union_prefer_right(Map::empty()) =~= start);
        }
        while i < other.entries.len()
            invariant
                i <= other.entries.len(),
                self.map() == start.union_prefer_right(map_of(other.pairs().take(i as int))),
            decreases other.entries.len() - i,
        {
            self.insert(other.entries[i].0.clone(), other.entries[i].1.clone());
            proof {
                let next = other.pairs().take(i + 1);
                let done = other.pairs().take(i as int);
                assert(next.drop_last() =~= done);
                let k = other.pairs()[i as int].0;
                let v = other.pairs()[i as int].1;
                assert(start.union_prefer_right(map_of(done)).insert(k, v)
                    =~= start.union_prefer_right(map_of(done).insert(k, v)));
            }
            i += 1;
        }
        proof {
            assert(other.pairs().take(i as int) =~= other.pairs());
        }
    }
}

} // verus!
