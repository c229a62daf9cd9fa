//! Removing the secrets that the agent itself may emit.

use crate::text::{ascii, chars, search};
use vstd::prelude::*;

verus! {

/// What stands in the place of a secret.
pub const REDACTED: &'static str = "[REDACTED]";

/// The text from `from` on, where what follows each `marker`, up to the next white space, is
/// replaced.
pub open spec fn redact_from(s: Seq<char>, marker: Seq<char>, from: int) -> Seq<char>
    decreases s.len() - from,
{
    match search::find_from(s, marker, from) {
        Some(i) if from <= i && marker.len() > 0 && from < search::white_from(
            s,
            i + marker.len(),
        ) <= s.len() => s.subrange(from, i) + marker + REDACTED@ + redact_from(
            s,
            marker,
            search::white_from(s, i + marker.len()),
        ),
        _ => s.skip(from),
    }
}

/// The markers after which a secret follows.
pub open spec fn markers() -> Seq<Seq<char>> {
    seq!["NODE_TOKEN="@, "nodeToken="@, "Authorization: Bearer "@]
}

/// The text without the secrets that follow the markers.
pub open spec fn redacted(s: Seq<char>) -> Seq<char> {
    redact_from(
        redact_from(redact_from(s, "NODE_TOKEN="@, 0), "nodeToken="@, 0),
        "Authorization: Bearer "@,
        0,
    )
}

/// Redacts what follows one marker.
pub fn redact_marker(value: &str, marker: &str) -> (r: String)
    requires
        marker@.len() > 0,
    ensures
        r@ == redact_from(value@, marker@, 0),
{
    let cs = chars::chars_of(value);
    let ms = chars::chars_of(marker);
    let mut r = String::new();
    let mut from: usize = 0;
    loop
        invariant_except_break
            redact_from(value@, marker@, 0) == r@ + redact_from(value@, marker@, from as int),
        invariant
            from <= cs.len(),
            cs@ == value@,
            ms@ == marker@,
            ms.len() > 0,
        ensures
            r@ == redact_from(value@, marker@, 0),
        decreases cs.len() - from,
    {
        match search::index_of(&cs, &ms, from) {
            Some(i) => {
                let end = search::next_white(&cs, i + ms.len());
                let kept = chars::text_of(&cs, from, i);
                let ghost before = r@;
                r.append(&kept);
                r.append(marker);
                r.append(REDACTED);
                proof {
                    let piece = value@.subrange(from as int, i as int) + marker@ + REDACTED@;
                    assert(r@ =~= before + piece);
                    assert(redact_from(value@, marker@, from as int) == piece + redact_from(
                        value@,
                        marker@,
                        end as int,
                    ));
                    assert(before + (piece + redact_from(value@, marker@, end as int)) =~= r@
                        + redact_from(value@, marker@, end as int));
                }
                from = end;
            },
            None => {
                let kept = chars::text_of(&cs, from, cs.len());
                proof {
                    assert(value@.subrange(from as int, value@.len() as int) =~= value@.skip(
                        from as int,
                    ));
                }
                r.append(&kept);
                break;
            },
        }
    }
    r
}

/// Redacts the common secrets, and leaves other text as it is.
pub fn redact(value: &str) -> (r: String)
    ensures
        r@ == redacted(value@),
{
    proof {
        reveal_strlit("NODE_TOKEN=");
        reveal_strlit("nodeToken=");
        reveal_strlit("Authorization: Bearer ");
    }
    let first = redact_marker(value, "NODE_TOKEN=");
    let second = redact_marker(&first, "nodeToken=");
    redact_marker(&second, "Authorization: Bearer ")
}

/// No secret follows a marker in the text: behind every marker stands the replacement, and then
/// white space or the end of the text.
pub open spec fn clean(s: Seq<char>, marker: Seq<char>) -> bool {
    forall|i: int| #[trigger]
        search::occurs_at(s, marker, i) ==> replaced_at(s, i + marker.len())
}

/// At `i` stands the replacement, followed by white space or the end of the text.
pub open spec fn replaced_at(s: Seq<char>, i: int) -> bool {
    let end = i + REDACTED@.len();
    search::occurs_at(s, REDACTED@, i) && (end == s.len() || ascii::white(s[end]))
}

/// A marker that cannot overlap the replacement.
spec fn plain(marker: Seq<char>) -> bool {
    &&& marker.len() > 8
    &&& forall|i: int| 0 <= i < marker.len() ==> #[trigger] marker[i] != '[' && marker[i] != ']'
}

/// What was redacted after one marker begins, from `from` on, as the text does.
proof fn lemma_first(s: Seq<char>, marker: Seq<char>, from: int)
    requires
        0 <= from <= s.len(),
        marker.len() > 0,
    ensures
        from == s.len() ==> redact_from(s, marker, from).len() == 0,
        from < s.len() ==> redact_from(s, marker, from).len() > 0 && redact_from(s, marker, from)[0]
            == s[from],
{
    search::lemma_find_from(s, marker, from);
    match search::find_from(s, marker, from) {
        Some(i) => {
            search::lemma_white_from(s, i + marker.len());
            if i == from {
                assert(s.subrange(i, i + marker.len())[0] == marker[0]);
            }
        },
        None => {},
    }
}

/// One step of `redact_from`, spelled out.
proof fn lemma_step(s: Seq<char>, marker: Seq<char>, from: int)
    requires
        0 <= from <= s.len(),
        plain(marker),
    ensures
        match search::find_from(s, marker, from) {
            Some(i) => {
                let end = search::white_from(s, i + marker.len());
                &&& from <= i
                &&& i + marker.len() <= end <= s.len()
                &&& redact_from(s, marker, from) == s.subrange(from, i + marker.len())
                    + REDACTED@ + redact_from(s, marker, end)
                &&& end < s.len() ==> ascii::white(s[end])
            },
            None => redact_from(s, marker, from) == s.skip(from),
        },
{
    search::lemma_find_from(s, marker, from);
    match search::find_from(s, marker, from) {
        Some(i) => {
            search::lemma_white_from(s, i + marker.len());
            assert(s.subrange(from, i) + marker =~= s.subrange(from, i + marker.len())) by {
                assert(s.subrange(i, i + marker.len()) == marker);
                assert forall|k: int| 0 <= k < marker.len() implies marker[k] == s[i + k] by {
                    assert(s.subrange(i, i + marker.len())[k] == s[i + k]);
                }
            }
        },
        None => {},
    }
}

/// In a text made of a part, the replacement and a rest, a plain marker stands in the part or in
/// the rest.
proof fn lemma_where(part: Seq<char>, rest: Seq<char>, marker: Seq<char>, i: int)
    requires
        plain(marker),
        search::occurs_at(part + REDACTED@ + rest, marker, i),
    ensures
        ({
            let p = part.len() as int;
            ||| i + marker.len() <= p && search::occurs_at(part, marker, i)
            ||| i >= p + 10 && search::occurs_at(rest, marker, i - p - 10)
        }),
{
    reveal_strlit("[REDACTED]");
    let t = part + REDACTED@ + rest;
    let p = part.len() as int;
    assert forall|k: int| 0 <= k < marker.len() implies t[i + k] == marker[k] by {
        assert(t.subrange(i, i + marker.len())[k] == t[i + k]);
    }
    assert(t[p] == '[' && t[p + 9] == ']');
    if i + marker.len() <= p {
        assert(part.subrange(i, i + marker.len()) =~= marker);
    } else if i >= p + 10 {
        assert(rest.subrange(i - p - 10, i - p - 10 + marker.len()) =~= marker);
    } else if i <= p {
        assert(marker[p - i] == '[');
    } else {
        assert(marker[p + 9 - i] == ']');
    }
}

/// Behind a part stands the replacement, where the rest is empty or begins with white space.
proof fn lemma_seam(part: Seq<char>, rest: Seq<char>)
    requires
        rest.len() == 0 || ascii::white(rest[0]),
    ensures
        replaced_at(part + REDACTED@ + rest, part.len() as int),
{
    let t = part + REDACTED@ + rest;
    assert(t.subrange(part.len() as int, (part.len() + REDACTED@.len()) as int) =~= REDACTED@);
}

/// What is replaced in the rest is replaced in the whole.
proof fn lemma_rest(part: Seq<char>, rest: Seq<char>, i: int)
    requires
        replaced_at(rest, i),
    ensures
        replaced_at(part + REDACTED@ + rest, part.len() + REDACTED@.len() + i),
{
    let t = part + REDACTED@ + rest;
    let k = part.len() + REDACTED@.len() + i;
    assert(t.subrange(k, k + REDACTED@.len()) =~= rest.subrange(i, i + REDACTED@.len()));
}

/// The part of a text up to the end of the first marker holds that marker once, at its end.
proof fn lemma_once(s: Seq<char>, marker: Seq<char>, from: int, i: int, j: int)
    requires
        0 <= from <= i,
        search::occurs_at(s, marker, i),
        forall|k: int| from <= k < i ==> !search::occurs_at(s, marker, k),
        search::occurs_at(s.subrange(from, i + marker.len()), marker, j),
    ensures
        from + j == i,
{
    let part = s.subrange(from, i + marker.len());
    assert(s.subrange(from + j, from + j + marker.len()) =~= part.subrange(j, j + marker.len()));
    assert(search::occurs_at(s, marker, from + j));
}

/// The rest of a text behind the last marker holds no marker.
proof fn lemma_none(s: Seq<char>, marker: Seq<char>, from: int, j: int)
    requires
        0 <= from <= s.len(),
        forall|k: int| from <= k ==> !search::occurs_at(s, marker, k),
    ensures
        !search::occurs_at(s.skip(from), marker, j),
{
    let t = s.skip(from);
    if search::occurs_at(t, marker, j) {
        assert(s.subrange(from + j, from + j + marker.len()) =~= t.subrange(j, j + marker.len()));
        assert(search::occurs_at(s, marker, from + j));
    }
}

/// After a marker was redacted, no secret follows it.
proof fn lemma_cleans(s: Seq<char>, marker: Seq<char>, from: int)
    requires
        0 <= from <= s.len(),
        plain(marker),
    ensures
        clean(redact_from(s, marker, from), marker),
    decreases s.len() - from,
{
    lemma_step(s, marker, from);
    search::lemma_find_from(s, marker, from);
    let t = redact_from(s, marker, from);
    match search::find_from(s, marker, from) {
        Some(i) => {
            let end = search::white_from(s, i + marker.len());
            let part = s.subrange(from, i + marker.len());
            let rest = redact_from(s, marker, end);
            lemma_cleans(s, marker, end);
            lemma_first(s, marker, end);
            assert forall|j: int| #[trigger] search::occurs_at(t, marker, j) implies replaced_at(
                t,
                j + marker.len(),
            ) by {
                reveal_strlit("[REDACTED]");
                lemma_where(part, rest, marker, j);
                if j + marker.len() <= part.len() {
                    lemma_once(s, marker, from, i, j);
                    lemma_seam(part, rest);
                } else {
                    lemma_rest(part, rest, j - part.len() - 10 + marker.len());
                }
            }
        },
        None => {
            assert forall|j: int| #[trigger] search::occurs_at(t, marker, j) implies replaced_at(
                t,
                j + marker.len(),
            ) by {
                lemma_none(s, marker, from, j);
            }
        },
    }
}

/// Redacting after another marker exposes no secret.
proof fn lemma_stays_clean(s: Seq<char>, marker: Seq<char>, other: Seq<char>, from: int)
    requires
        0 <= from <= s.len(),
        plain(marker),
        plain(other),
        clean(s, marker),
    ensures
        clean(redact_from(s, other, from), marker),
    decreases s.len() - from,
{
    reveal_strlit("[REDACTED]");
    lemma_step(s, other, from);
    search::lemma_find_from(s, other, from);
    let t = redact_from(s, other, from);
    match search::find_from(s, other, from) {
        Some(i) => {
            let end = search::white_from(s, i + other.len());
            let part = s.subrange(from, i + other.len());
            let rest = redact_from(s, other, end);
            lemma_stays_clean(s, marker, other, end);
            lemma_first(s, other, end);
            let p = part.len() as int;
            assert forall|k: int| 0 <= k < other.len() implies s[i + k] == other[k] by {
                assert(s.subrange(i, i + other.len())[k] == s[i + k]);
            }
            assert forall|j: int| #[trigger] search::occurs_at(t, marker, j) implies replaced_at(
                t,
                j + marker.len(),
            ) by {
                lemma_where(part, rest, marker, j);
                if j + marker.len() <= p {
                    assert(s.subrange(from + j, from + j + marker.len()) =~= part.subrange(
                        j,
                        j + marker.len(),
                    ));
                    assert(search::occurs_at(s, marker, from + j));
                    let q = j + marker.len();
                    if q == p {
                        lemma_seam(part, rest);
                    } else {
                        let a = from + q;
                        assert(search::occurs_at(s, REDACTED@, a));
                        assert(s.subrange(a, a + 10)[0] == s[a]);
                        assert(s.subrange(a, a + 10)[9] == s[a + 9]);
                        assert(s[a] == '[' && s[a + 9] == ']');
                        if a >= i {
                            assert(other[a - i] == '[');
                        }
                        if i <= a + 9 < i + other.len() {
                            assert(other[a + 9 - i] == ']');
                        }
                        assert(a + 10 <= i);
                        assert(t.subrange(q, q + 10) =~= s.subrange(a, a + 10));
                        assert(t[q + 10] == s[a + 10]);
                    }
                } else {
                    lemma_rest(part, rest, j - p - 10 + marker.len());
                }
            }
        },
        None => {
            assert forall|j: int| #[trigger] search::occurs_at(t, marker, j) implies replaced_at(
                t,
                j + marker.len(),
            ) by {
                assert(s.subrange(from + j, from + j + marker.len()) =~= t.subrange(
                    j,
                    j + marker.len(),
                ));
                assert(search::occurs_at(s, marker, from + j));
                let a = from + j + marker.len();
                assert(search::occurs_at(s, REDACTED@, a));
                assert(t.subrange(a - from, a - from + 10) =~= s.subrange(a, a + 10));
            }
        },
    }
}

/// In a redacted text no secret follows any marker: behind every occurrence of each marker stands
/// the replacement, and then white space or the end of the text.
pub proof fn every_marker_is_redacted(s: Seq<char>, m: int)
    requires
        0 <= m < markers().len(),
    ensures
        clean(redacted(s), markers()[m]),
{
    reveal_strlit("NODE_TOKEN=");
    reveal_strlit("nodeToken=");
    reveal_strlit("Authorization: Bearer ");
    let a = "NODE_TOKEN="@;
    let b = "nodeToken="@;
    let c = "Authorization: Bearer "@;
    assert(plain(a) && plain(b) && plain(c));
    let first = redact_from(s, a, 0);
    let second = redact_from(first, b, 0);
    lemma_cleans(s, a, 0);
    lemma_cleans(first, b, 0);
    lemma_cleans(second, c, 0);
    lemma_stays_clean(first, a, b, 0);
    lemma_stays_clean(second, a, c, 0);
    lemma_stays_clean(second, b, c, 0);
}

/// A text that holds no marker is left as it is.
pub proof fn other_text_is_kept(s: Seq<char>)
    requires
        forall|m: int| 0 <= m < markers().len() ==> !search::contains(s, #[trigger] markers()[m]),
    ensures
        redacted(s) == s,
{
    assert(markers()[0] == "NODE_TOKEN="@ && markers()[1] == "nodeToken="@ && markers()[2]
        == "Authorization: Bearer "@);
    search::lemma_find_from(s, "NODE_TOKEN="@, 0);
    search::lemma_find_from(s, "nodeToken="@, 0);
    search::lemma_find_from(s, "Authorization: Bearer "@, 0);
    assert(s.skip(0) =~= s);
}

/// In a text in which no secret follows a marker, there is nothing to redact after it.
proof fn lemma_clean_is_kept(s: Seq<char>, marker: Seq<char>, from: int)
    requires
        0 <= from <= s.len(),
        plain(marker),
        clean(s, marker),
    ensures
        redact_from(s, marker, from) == s.skip(from),
    decreases s.len() - from,
{
    reveal_strlit("[REDACTED]");
    lemma_step(s, marker, from);
    search::lemma_find_from(s, marker, from);
    if let Some(i) = search::find_from(s, marker, from) {
        let a = i + marker.len();
        let end = search::white_from(s, a);
        assert(replaced_at(s, a));
        assert forall|k: int| 0 <= k < 10 implies s[a + k] == REDACTED@[k] by {
            assert(s.subrange(a, a + 10)[k] == s[a + k]);
        }
        search::lemma_white_from(s, a);
        if end < a + 10 {
            assert(s[a + (end - a)] == REDACTED@[end - a]);
        }
        if end > a + 10 {
            assert(!ascii::white(s[a + 10]));
        }
        assert(end == a + 10);
        lemma_clean_is_kept(s, marker, end);
        assert(s.subrange(from, a) + REDACTED@ + s.skip(end) =~= s.skip(from));
    }
}

/// Redacting a redacted text changes nothing.
pub proof fn redaction_is_kept(s: Seq<char>)
    ensures
        redacted(redacted(s)) == redacted(s),
{
    reveal_strlit("NODE_TOKEN=");
    reveal_strlit("nodeToken=");
    reveal_strlit("Authorization: Bearer ");
    let t = redacted(s);
    every_marker_is_redacted(s, 0);
    every_marker_is_redacted(s, 1);
    every_marker_is_redacted(s, 2);
    assert(markers()[0] == "NODE_TOKEN="@ && markers()[1] == "nodeToken="@ && markers()[2]
        == "Authorization: Bearer "@);
    lemma_clean_is_kept(t, "NODE_TOKEN="@, 0);
    lemma_clean_is_kept(t, "nodeToken="@, 0);
    lemma_clean_is_kept(t, "Authorization: Bearer "@, 0);
    assert(t.skip(0) =~= t);
}

/// A text with no marker in it from a position on is kept from there on.
proof fn lemma_none_left(s: Seq<char>, marker: Seq<char>, from: int)
    requires
        0 <= from <= s.len(),
        forall|i: int| from <= i ==> !search::occurs_at(s, marker, i),
    ensures
        redact_from(s, marker, from) == s.skip(from),
{
    search::lemma_find_from(s, marker, from);
}

/// Where a text holds one marker, the secret behind it is replaced, and nothing else: what stands
/// before the marker and what stands behind the secret, from the next white space on, is kept.
pub proof fn only_the_secret_is_replaced(
    before: Seq<char>,
    m: int,
    secret: Seq<char>,
    after: Seq<char>,
)
    requires
        0 <= m < markers().len(),
        forall|i: int| 0 <= i < secret.len() ==> !ascii::white(#[trigger] secret[i]),
        after.len() == 0 || ascii::white(after[0]),
        forall|k: int, i: int|
            0 <= k < markers().len() && #[trigger] search::occurs_at(
                before + markers()[m] + secret + after,
                markers()[k],
                i,
            ) ==> k == m && i == before.len(),
    ensures
        redacted(before + markers()[m] + secret + after) == before + markers()[m] + "[REDACTED]"@
            + after,
{
    reveal_strlit("NODE_TOKEN=");
    reveal_strlit("nodeToken=");
    reveal_strlit("Authorization: Bearer ");
    reveal_strlit("[REDACTED]");
    let marker = markers()[m];
    assert(markers()[0] == "NODE_TOKEN="@ && markers()[1] == "nodeToken="@ && markers()[2]
        == "Authorization: Bearer "@);
    assert(plain(markers()[0]) && plain(markers()[1]) && plain(markers()[2]));
    let s = before + marker + secret + after;
    let at = before.len() as int;
    let start = at + marker.len();
    let end = start + secret.len();
    let t = before + marker + REDACTED@ + after;
    assert(s.subrange(at, start) =~= marker);
    assert(search::occurs_at(s, marker, at));
    // The pass for this marker.
    search::lemma_find_from(s, marker, 0);
    assert(search::find_from(s, marker, 0) == Some(at));
    search::lemma_white_from(s, start);
    let white = search::white_from(s, start);
    if white < end {
        assert(s[white] == secret[white - start]);
    }
    if white > end {
        assert(s[end] == after[0]);
    }
    assert(white == end);
    assert forall|i: int| end <= i implies !search::occurs_at(s, marker, i) by {
        if search::occurs_at(s, markers()[m], i) {
            assert(i == before.len());
        }
    }
    lemma_none_left(s, marker, end);
    lemma_step(s, marker, 0);
    assert(s.subrange(0, start) + REDACTED@ + s.skip(end) =~= t);
    assert(redact_from(s, marker, 0) == t);
    // The passes for the others.
    assert forall|k: int| 0 <= k < 3 && k != m implies redact_from(s, #[trigger] markers()[k], 0)
        == s && redact_from(t, markers()[k], 0) == t by {
        let other = markers()[k];
        assert forall|i: int| 0 <= i implies !search::occurs_at(s, other, i) by {
            if search::occurs_at(s, markers()[k], i) {
                assert(k == m);
            }
        }
        lemma_none_left(s, other, 0);
        assert(s.skip(0) =~= s);
        assert forall|i: int| 0 <= i implies !search::occurs_at(t, other, i) by {
            if search::occurs_at(t, other, i) {
                let part = before + marker;
                lemma_where(part, after, other, i);
                if i + other.len() <= part.len() {
                    assert(s.subrange(i, i + other.len()) =~= part.subrange(i, i + other.len()));
                    assert(search::occurs_at(s, markers()[k], i));
                } else {
                    let j = i - part.len() - 10;
                    assert(s.subrange(end + j, end + j + other.len()) =~= after.subrange(
                        j,
                        j + other.len(),
                    ));
                    assert(search::occurs_at(s, markers()[k], end + j));
                }
            }
        }
        lemma_none_left(t, other, 0);
        assert(t.skip(0) =~= t);
    }
}

/// The token of the node, by both of its names, and the token of a request are secrets.
pub proof fn tokens_are_secrets()
    ensures
        markers().contains("NODE_TOKEN="@),
        markers().contains("nodeToken="@),
        markers().contains("Authorization: Bearer "@),
{
    assert(markers()[0] == "NODE_TOKEN="@);
    assert(markers()[1] == "nodeToken="@);
    assert(markers()[2] == "Authorization: Bearer "@);
}

} // verus!
