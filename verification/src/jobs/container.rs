//! Running commands in system containers.

use crate::text::{ascii, chars, trim};
use vstd::prelude::*;

pub mod diagnostics;
pub mod image;
pub mod laws;
pub mod lxc;
pub mod network;
pub mod output;
pub mod run;

verus! {

/// Runs a command in a system container.
pub struct ContainerRunner {
    pub image: String,
    pub cpu: Option<u8>,
    pub memory_mb: Option<u32>,
}

impl ContainerRunner {
    /// A runner with an image and the size of its container.
    pub fn new(image: String, cpu: Option<u8>, memory_mb: Option<u32>) -> (r: Self)
        ensures
            r == (ContainerRunner { image, cpu, memory_mb }),
    {
        ContainerRunner { image, cpu, memory_mb }
    }
}

/// A character of a container's name.
pub open spec fn name_char(c: char) -> char {
    if ascii::alphanumeric(c) || c == '-' {
        ascii::lower(c)
    } else {
        '-'
    }
}

/// What tells the container of an attempt from others.
pub open spec fn suffix(attempt_id: Seq<char>) -> Seq<char> {
    let inner = trim::trim_end_char(
        trim::trim_start_char(attempt_id.map_values(|c: char| name_char(c)), '-'),
        '-',
    );
    if inner.len() == 0 {
        "job"@
    } else {
        inner
    }
}

/// The beginning of a text.
pub open spec fn shortened(s: Seq<char>, max: nat) -> Seq<char> {
    if s.len() <= max {
        s
    } else {
        s.take(max as int)
    }
}

/// The name of the container of an attempt.
pub open spec fn name_of(attempt_id: Seq<char>) -> Seq<char> {
    "statix-"@ + shortened(suffix(attempt_id), 56)
}

/// The beginning of a text.
pub fn truncate_for_name(value: &str, max_chars: usize) -> (r: String)
    ensures
        r@ == shortened(value@, max_chars as nat),
{
    let cs = chars::chars_of(value);
    let end: usize = if cs.len() <= max_chars {
        cs.len()
    } else {
        max_chars
    };
    let r = chars::text_of(&cs, 0, end);
    proof {
        assert(r@ =~= shortened(value@, max_chars as nat));
    }
    r
}

/// The name of the container of an attempt.
pub fn container_name(attempt_id: &str) -> (r: String)
    ensures
        r@ == name_of(attempt_id@),
{
    let cs = chars::chars_of(attempt_id);
    let ghost all = attempt_id@.map_values(|c: char| name_char(c));
    let mut out = String::new();
    let mut i: usize = 0;
    while i < cs.len()
        invariant
            i <= cs.len(),
            cs@ == attempt_id@,
            all == attempt_id@.map_values(|c: char| name_char(c)),
            out@ == all.take(i as int),
        decreases cs.len() - i,
    {
        let c: char = if ascii::is_alphanumeric(cs[i]) || cs[i] == '-' {
            ascii::to_lower(cs[i])
        } else {
            '-'
        };
        out.push(c);
        proof {
            assert(all.take(i + 1) =~= all.take(i as int).push(c));
        }
        i += 1;
    }
    proof {
        assert(all.take(i as int) =~= all);
    }
    let inner = trim::trimmed_end_char(&trim::trimmed_start_char(&out, '-'), '-');
    let suffix = if inner.as_str().is_empty() {
        "job".to_owned()
    } else {
        inner
    };
    chars::cat("statix-", &truncate_for_name(&suffix, 56))
}

/// A character that the name of a container may hold.
pub open spec fn safe(c: char) -> bool {
    ascii::digit(c) || ('a' <= c && c <= 'z') || c == '-'
}

/// All characters of a text may stand in the name of a container.
pub open spec fn all_safe(s: Seq<char>) -> bool {
    forall|i: int| 0 <= i < s.len() ==> safe(#[trigger] s[i])
}

proof fn lemma_trim_keeps(s: Seq<char>)
    requires
        all_safe(s),
    ensures
        all_safe(trim::trim_start_char(s, '-')),
        all_safe(trim::trim_end_char(s, '-')),
    decreases s.len(),
{
    if s.len() > 0 {
        let first = s.drop_first();
        let last = s.drop_last();
        assert(all_safe(first)) by {
            assert forall|i: int| 0 <= i < first.len() implies safe(#[trigger] first[i]) by {
                assert(safe(s[i + 1]));
            }
        }
        assert(all_safe(last)) by {
            assert forall|i: int| 0 <= i < last.len() implies safe(#[trigger] last[i]) by {
                assert(safe(s[i]));
            }
        }
        lemma_trim_keeps(first);
        lemma_trim_keeps(last);
    }
}

/// The name of a container holds lower-case letters, digits and dashes alone, tells that it is
/// the agent's, and is no longer than a label of the domain name system.
pub proof fn name_is_a_label(attempt_id: Seq<char>)
    ensures
        all_safe(name_of(attempt_id)),
        "statix-"@.is_prefix_of(name_of(attempt_id)),
        7 < name_of(attempt_id).len() <= 63,
{
    reveal_strlit("statix-");
    reveal_strlit("job");
    let all = attempt_id.map_values(|c: char| name_char(c));
    assert(all_safe(all)) by {
        assert forall|i: int| 0 <= i < all.len() implies safe(#[trigger] all[i]) by {}
    }
    lemma_trim_keeps(all);
    lemma_trim_keeps(trim::trim_start_char(all, '-'));
    let s = suffix(attempt_id);
    assert(all_safe(s));
    let short = shortened(s, 56);
    assert forall|i: int| 0 <= i < name_of(attempt_id).len() implies safe(
        #[trigger] name_of(attempt_id)[i],
    ) by {
        if i >= 7 {
            assert(name_of(attempt_id)[i] == s[i - 7]);
        }
    }
    assert(name_of(attempt_id).subrange(0, 7) =~= "statix-"@);
}

} // verus!
