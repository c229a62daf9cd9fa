//! The hardware addresses of the node.

use crate::string_map::{self, StringMap};
use crate::text::{ascii, chars, order};
use vstd::prelude::*;

verus! {

/// The hexadecimal digits of a text, in lower case.
pub open spec fn hex_digits(s: Seq<char>) -> Seq<char>
    decreases s.len(),
{
    if s.len() == 0 {
        seq![]
    } else if ascii::hex_digit(s.last()) {
        hex_digits(s.drop_last()).push(ascii::lower(s.last()))
    } else {
        hex_digits(s.drop_last())
    }
}

/// Twelve digits as a hardware address: in pairs, with colons between them.
pub open spec fn paired(digits: Seq<char>) -> Seq<char> {
    Seq::new(
        17,
        |i: int|
            if i % 3 == 2 {
                ':'
            } else {
                digits[(i / 3) * 2 + i % 3]
            },
    )
}

/// The hardware address that a text names: one with twelve hexadecimal digits names one.
pub open spec fn normal(s: Seq<char>) -> Option<Seq<char>> {
    if hex_digits(s).len() == 12 {
        Some(paired(hex_digits(s)))
    } else {
        None
    }
}

/// The hardware address that a text names.
pub fn normalize_mac_address(value: &str) -> (r: Option<String>)
    ensures
        chars::opt_text(r) == normal(value@),
{
    let cs = chars::chars_of(value);
    let mut digits: Vec<char> = Vec::new();
    let mut i: usize = 0;
    while i < cs.len()
        invariant
            i <= cs.len(),
            cs@ == value@,
            digits@ == hex_digits(value@.take(i as int)),
        decreases cs.len() - i,
    {
        proof {
            assert(value@.take(i + 1).drop_last() =~= value@.take(i as int));
        }
        if ascii::is_hex_digit(cs[i]) {
            digits.push(ascii::to_lower(cs[i]));
        }
        i += 1;
    }
    proof {
        assert(value@.take(i as int) =~= value@);
    }
    if digits.len() != 12 {
        return None;
    }
    let mut r = String::new();
    let mut k: usize = 0;
    while k < 17
        invariant
            k <= 17,
            digits@.len() == 12,
            r@ == paired(digits@).take(k as int),
        decreases 17 - k,
    {
        if k % 3 == 2 {
            r.push(':');
        } else {
            r.push(digits[(k / 3) * 2 + k % 3]);
        }
        proof {
            assert(paired(digits@).take(k + 1) =~= paired(digits@).take(k as int).push(
                paired(digits@)[k as int],
            ));
        }
        k += 1;
    }
    proof {
        assert(paired(digits@).take(17) =~= paired(digits@));
    }
    Some(r)
}

/// An interface of the node, and what the file of its hardware address holds, where it can be
/// read.
#[derive(Debug)]
pub struct InterfaceAddress {
    pub name: String,
    pub address: Option<String>,
}

/// The hardware address that the node tells of an interface: none of the loopback, and none that
/// is all zero.
pub open spec fn told(interface: InterfaceAddress) -> Option<Seq<char>> {
    if interface.name@ == "lo"@ {
        None
    } else {
        match interface.address {
            Some(raw) => match normal(raw@) {
                Some(mac) => if mac == "00:00:00:00:00:00"@ {
                    None
                } else {
                    Some(mac)
                },
                None => None,
            },
            None => None,
        }
    }
}

/// The hardware addresses that the node tells of some interfaces.
pub open spec fn told_all(interfaces: Seq<InterfaceAddress>) -> Set<Seq<char>>
    decreases interfaces.len(),
{
    if interfaces.len() == 0 {
        Set::empty()
    } else {
        let before = told_all(interfaces.drop_last());
        match told(interfaces.last()) {
            Some(mac) => before.insert(mac),
            None => before,
        }
    }
}

/// Each text stands before the later ones.
pub open spec fn ordered(texts: Seq<Seq<char>>) -> bool {
    forall|i: int, j: int|
        0 <= i < j < texts.len() ==> order::before(#[trigger] texts[i], #[trigger] texts[j])
}

/// The hardware addresses of the node, each once and in order.
pub fn collect_mac_addresses(interfaces: &Vec<InterfaceAddress>) -> (r: Vec<String>)
    ensures
        ordered(chars::texts(r@)),
        chars::texts(r@).to_set() == told_all(interfaces@),
{
    let mut found: StringMap<bool> = StringMap::new();
    let mut i: usize = 0;
    proof {
        assert(found.map().dom() =~= Set::empty());
    }
    while i < interfaces.len()
        invariant
            i <= interfaces.len(),
            found.map().dom() == told_all(interfaces@.take(i as int)),
        decreases interfaces.len() - i,
    {
        proof {
            assert(interfaces@.take(i + 1).drop_last() =~= interfaces@.take(i as int));
        }
        let interface = &interfaces[i];
        if !chars::same(&interface.name, "lo") {
            if let Some(raw) = &interface.address {
                if let Some(mac) = normalize_mac_address(raw) {
                    if !chars::same(&mac, "00:00:00:00:00:00") {
                        found.insert(mac, true);
                    }
                }
            }
        }
        i += 1;
    }
    proof {
        assert(interfaces@.take(i as int) =~= interfaces@);
    }
    let ghost pairs = found.pairs();
    let ghost keys = pairs.map_values(|p: (Seq<char>, bool)| p.0);
    let count: usize = found.len();
    let mut r = chars::no_texts();
    let mut k: usize = 0;
    while k < count
        invariant
            k <= count,
            count == pairs.len(),
            pairs == found.pairs(),
            keys == pairs.map_values(|p: (Seq<char>, bool)| p.0),
            chars::texts(r@) == keys.take(k as int),
        decreases count - k,
    {
        chars::push_text(&mut r, found.key(k));
        proof {
            assert(keys.take(k + 1) =~= keys.take(k as int).push(keys[k as int]));
        }
        k += 1;
    }
    proof {
        assert(keys.take(k as int) =~= keys);
        assert forall|a: int, b: int| 0 <= a < b < keys.len() implies order::before(
            #[trigger] keys[a],
            #[trigger] keys[b],
        ) by {
            assert(order::before(pairs[a].0, pairs[b].0));
        }
        assert forall|m: Seq<char>| keys.to_set().contains(m) <==> found.map().contains_key(m) by {
            string_map::lemma_domain(pairs, m);
            if keys.contains(m) {
                let a = choose|a: int| 0 <= a < keys.len() && keys[a] == m;
                assert(pairs[a].0 == m);
            }
            if found.map().contains_key(m) {
                let a = choose|a: int| 0 <= a < pairs.len() && (#[trigger] pairs[a]).0 == m;
                assert(keys[a] == m);
            }
        }
        assert(keys.to_set() =~= found.map().dom());
    }
    r
}

/// The node tells the same of its hardware addresses in whatever order its interfaces are listed:
/// two lists in order that hold the same addresses are the same list.
pub proof fn listing_order_does_not_matter(first: Seq<Seq<char>>, second: Seq<Seq<char>>)
    requires
        ordered(first),
        ordered(second),
        first.to_set() == second.to_set(),
    ensures
        first == second,
{
    let a = first.map_values(|m: Seq<char>| (m, true));
    let b = second.map_values(|m: Seq<char>| (m, true));
    assert forall|m: Seq<char>| string_map::map_of(a).contains_key(m) <==> string_map::map_of(
        b,
    ).contains_key(m) by {
        lemma_keys(first, m);
        lemma_keys(second, m);
        assert(first.to_set().contains(m) <==> second.to_set().contains(m));
    }
    assert forall|m: Seq<char>| string_map::map_of(a).contains_key(m) implies string_map::map_of(a)[m]
        == string_map::map_of(b)[m] by {
        lemma_true(first, m);
        lemma_true(second, m);
    }
    assert(string_map::map_of(a) =~= string_map::map_of(b));
    string_map::order_is_determined(a, b);
    assert forall|i: int| 0 <= i < first.len() implies first[i] == second[i] by {
        assert(a[i].0 == b[i].0);
    }
    assert(first.len() == a.len() && second.len() == b.len());
    assert(first =~= second);
}

proof fn lemma_keys(texts: Seq<Seq<char>>, m: Seq<char>)
    ensures
        string_map::map_of(texts.map_values(|m: Seq<char>| (m, true))).contains_key(m)
            <==> texts.to_set().contains(m),
{
    let pairs = texts.map_values(|m: Seq<char>| (m, true));
    string_map::lemma_domain(pairs, m);
    if texts.contains(m) {
        let i = choose|i: int| 0 <= i < texts.len() && texts[i] == m;
        assert(pairs[i].0 == m);
    }
    if exists|i: int| 0 <= i < pairs.len() && (#[trigger] pairs[i]).0 == m {
        let i = choose|i: int| 0 <= i < pairs.len() && (#[trigger] pairs[i]).0 == m;
        assert(texts[i] == m);
    }
}

proof fn lemma_true(texts: Seq<Seq<char>>, m: Seq<char>)
    ensures
        string_map::map_of(texts.map_values(|m: Seq<char>| (m, true))).contains_key(m)
            ==> string_map::map_of(texts.map_values(|m: Seq<char>| (m, true)))[m],
    decreases texts.len(),
{
    let pairs = texts.map_values(|m: Seq<char>| (m, true));
    if texts.len() > 0 {
        lemma_true(texts.drop_last(), m);
        assert(pairs.drop_last() =~= texts.drop_last().map_values(|m: Seq<char>| (m, true)));
    }
}

} // verus!
