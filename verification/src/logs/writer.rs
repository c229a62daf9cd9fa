//! Mirroring the agent's own diagnostics, line by line, into the spool.

use crate::bytes;
use crate::text::{search, trim};
use vstd::prelude::*;

verus! {

/// One line of the agent's diagnostics, and how severe it is.
pub struct AgentLine {
    pub level: String,
    pub line: String,
}

pub struct AgentLineView {
    pub level: Seq<char>,
    pub line: Seq<char>,
}

impl View for AgentLine {
    type V = AgentLineView;

    open spec fn view(&self) -> AgentLineView {
        AgentLineView { level: self.level@, line: self.line@ }
    }
}

pub open spec fn line_views(v: Seq<AgentLine>) -> Seq<AgentLineView> {
    v.map_values(|l: AgentLine| l@)
}

/// The level that a formatted line names.
pub open spec fn line_level(line: Seq<char>) -> Seq<char> {
    if search::contains(line, " ERROR "@) {
        "error"@
    } else if search::contains(line, " WARN "@) {
        "warn"@
    } else if search::contains(line, " DEBUG "@) {
        "debug"@
    } else {
        "info"@
    }
}

/// The level that a formatted line names.
pub fn level_of(line: &str) -> (r: String)
    ensures
        r@ == line_level(line@),
{
    let level = if search::has(line, " ERROR ") {
        "error"
    } else if search::has(line, " WARN ") {
        "warn"
    } else if search::has(line, " DEBUG ") {
        "debug"
    } else {
        "info"
    };
    level.to_owned()
}

/// What is recorded of a text: it is trimmed, and nothing is recorded of a blank one.
pub open spec fn recorded(text: Seq<char>) -> Seq<AgentLineView> {
    let line = trim::trim(text);
    if line.len() == 0 {
        seq![]
    } else {
        seq![AgentLineView { level: line_level(line), line }]
    }
}

/// What is recorded of the lines of a formatted output.
pub open spec fn recorded_lines(lines: Seq<Seq<u8>>) -> Seq<AgentLineView>
    decreases lines.len(),
{
    if lines.len() == 0 {
        seq![]
    } else {
        recorded_lines(lines.drop_last()) + recorded(bytes::utf8_lossy(lines.last()))
    }
}

/// What is recorded of one line of text.
pub fn line_record(text: &str) -> (r: Option<AgentLine>)
    ensures
        recorded(text@) == match r {
            Some(l) => seq![l@],
            None => seq![],
        },
{
    let line = trim::trimmed(text);
    if line.as_str().is_empty() {
        None
    } else {
        Some(AgentLine { level: level_of(&line), line })
    }
}

/// Collects the diagnostics that the agent writes, and hands out each line once it is complete.
pub struct AgentLogWriter {
    pending: Vec<u8>,
}

/// A writer that has received nothing yet.
pub fn agent_log_writer() -> (r: AgentLogWriter)
    ensures
        r.pending_bytes() == Seq::<u8>::empty(),
{
    AgentLogWriter { pending: Vec::new() }
}

impl AgentLogWriter {
    /// What was written since the last line ended.
    pub closed spec fn pending_bytes(&self) -> Seq<u8> {
        self.pending@
    }

    /// What is pending holds no line end.
    #[verifier::type_invariant]
    spec fn inv(self) -> bool {
        &&& bytes::cut(self.pending@, false).complete == Seq::<Seq<u8>>::empty()
        &&& bytes::cut(self.pending@, false).pending == self.pending@
    }

    /// Takes bytes, and gives what is to be recorded of the lines that they complete.
    pub fn write(&mut self, input: &[u8]) -> (r: Vec<AgentLine>)
        ensures
            line_views(r@) == recorded_lines(
                bytes::cut(old(self).pending_bytes() + input@, false).complete,
            ),
            final(self).pending_bytes() == bytes::cut(
                old(self).pending_bytes() + input@,
                false,
            ).pending,
    {
        proof {
            use_type_invariant(&*self);
        }
        let mut pending: Vec<u8> = Vec::new();
        std::mem::swap(&mut pending, &mut self.pending);
        let complete = bytes::cut_into(&mut pending, input, false);
        self.pending = pending;
        let mut r: Vec<AgentLine> = Vec::new();
        let mut i: usize = 0;
        let ghost lines = bytes::byte_views(complete@);
        while i < complete.len()
            invariant
                i <= complete.len(),
                lines == bytes::byte_views(complete@),
                line_views(r@) == recorded_lines(lines.take(i as int)),
            decreases complete.len() - i,
        {
            let text = bytes::lossy_text(complete[i].as_slice());
            let ghost before = r@;
            proof {
                assert(lines.take(i + 1).drop_last() =~= lines.take(i as int));
                assert(lines.take(i + 1).last() == complete@[i as int]@);
            }
            if let Some(line) = line_record(&text) {
                r.push(line);
                proof {
                    assert(line_views(r@) =~= line_views(before).push(line@));
                }
            }
            i += 1;
        }
        proof {
            assert(lines.take(i as int) =~= lines);
        }
        r
    }
}

proof fn lemma_recorded_parts(a: Seq<Seq<u8>>, b: Seq<Seq<u8>>)
    ensures
        recorded_lines(a + b) == recorded_lines(a) + recorded_lines(b),
    decreases b.len(),
{
    if b.len() == 0 {
        assert(a + b =~= a);
        assert(recorded_lines(b) =~= seq![]);
    } else {
        lemma_recorded_parts(a, b.drop_last());
        assert((a + b).drop_last() =~= a + b.drop_last());
        assert((a + b).last() == b.last());
    }
}

/// It does not matter how the output is divided into writes: two writes record what one write of
/// all the bytes would, and leave the same bytes pending.
pub proof fn writes_can_be_divided(pending: Seq<u8>, first: Seq<u8>, second: Seq<u8>)
    ensures
        ({
            let once = bytes::cut(pending + first + second, false);
            let one = bytes::cut(pending + first, false);
            let two = bytes::cut(one.pending + second, false);
            &&& recorded_lines(once.complete) == recorded_lines(one.complete) + recorded_lines(
                two.complete,
            )
            &&& once.pending == two.pending
        }),
{
    bytes::cutting_in_parts(pending + first, second, false);
    let one = bytes::cut(pending + first, false);
    let two = bytes::cut(one.pending + second, false);
    lemma_recorded_parts(one.complete, two.complete);
}

} // verus!
