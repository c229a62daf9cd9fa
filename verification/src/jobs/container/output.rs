//! The output of a command in a container, as it arrives.

use crate::bytes;
use crate::text::chars;
use vstd::prelude::*;

verus! {

/// The texts of the segments of an output, but for the empty ones.
pub open spec fn shown(segments: Seq<Seq<u8>>) -> Seq<Seq<char>>
    decreases segments.len(),
{
    if segments.len() == 0 {
        seq![]
    } else {
        let before = shown(segments.drop_last());
        if segments.last().len() == 0 {
            before
        } else {
            before.push(bytes::utf8_lossy(segments.last()))
        }
    }
}

/// What is told of the complete segments of an output.
pub open spec fn told(output: Seq<u8>) -> Seq<Seq<char>> {
    shown(bytes::cut(output, true).complete)
}

proof fn lemma_shown_parts(a: Seq<Seq<u8>>, b: Seq<Seq<u8>>)
    ensures
        shown(a + b) == shown(a) + shown(b),
    decreases b.len(),
{
    if b.len() == 0 {
        assert(a + b =~= a);
        assert(shown(a) + shown(b) =~= shown(a));
    } else {
        lemma_shown_parts(a, b.drop_last());
        assert((a + b).drop_last() =~= a + b.drop_last());
        assert((a + b).last() == b.last());
        assert(shown(a + b) =~= shown(a) + shown(b));
    }
}

/// An output is told in the same segments, however it is divided on its way: what a further part
/// adds depends on what is pending of the parts before it alone.
pub proof fn output_can_be_divided(first: Seq<u8>, second: Seq<u8>)
    ensures
        told(first + second) == told(first) + told(bytes::cut(first, true).pending + second),
{
    bytes::cutting_in_parts(first, second, true);
    lemma_shown_parts(
        bytes::cut(first, true).complete,
        bytes::cut(bytes::cut(first, true).pending + second, true).complete,
    );
}

/// Collects the output of a command, and tells each segment of it once it is complete.
#[derive(Debug)]
pub struct StreamCollector {
    buffer: Vec<u8>,
    pending: Vec<u8>,
}

impl View for StreamCollector {
    type V = Seq<u8>;

    /// The whole output so far.
    closed spec fn view(&self) -> Seq<u8> {
        self.buffer@
    }
}

impl StreamCollector {
    #[verifier::type_invariant]
    spec fn inv(self) -> bool {
        &&& self.pending@ == bytes::cut(self.buffer@, true).pending
        &&& bytes::cut(self.pending@, true).complete == Seq::<Seq<u8>>::empty()
        &&& bytes::cut(self.pending@, true).pending == self.pending@
    }

    /// A collector that got nothing yet.
    pub fn new() -> (r: Self)
        ensures
            r@ == Seq::<u8>::empty(),
    {
        StreamCollector { buffer: Vec::new(), pending: Vec::new() }
    }

    /// Takes in a part of the output, and gives the texts of the segments that it completes.
    pub fn push(&mut self, chunk: &[u8]) -> (r: Vec<String>)
        ensures
            final(self)@ == old(self)@ + chunk@,
            told(final(self)@) == told(old(self)@) + chars::texts(r@),
    {
        proof {
            use_type_invariant(&*self);
        }
        let ghost before = self.buffer@;
        let mut taken = StreamCollector::new();
        std::mem::swap(&mut taken, self);
        let mut buffer = taken.buffer;
        let mut pending = taken.pending;
        let complete = bytes::cut_into(&mut pending, chunk, true);
        let mut i: usize = 0;
        while i < chunk.len()
            invariant
                i <= chunk.len(),
                buffer@ == before + chunk@.take(i as int),
            decreases chunk.len() - i,
        {
            buffer.push(chunk[i]);
            proof {
                assert(chunk@.take(i + 1) =~= chunk@.take(i as int).push(chunk@[i as int]));
            }
            i += 1;
        }
        proof {
            assert(chunk@.take(i as int) =~= chunk@);
            bytes::cutting_in_parts(before, chunk@, true);
            output_can_be_divided(before, chunk@);
        }
        *self = StreamCollector { buffer, pending };
        texts_of(&complete)
    }

    /// The text of what follows the last segment at the end of the output, where there is any.
    pub fn rest(&self) -> (r: Option<String>)
        ensures
            chars::opt_text(r) == (if bytes::cut(self@, true).pending.len() == 0 {
                None
            } else {
                Some(bytes::utf8_lossy(bytes::cut(self@, true).pending))
            }),
    {
        proof {
            use_type_invariant(self);
        }
        if self.pending.len() == 0 {
            None
        } else {
            Some(bytes::lossy_text(self.pending.as_slice()))
        }
    }

    /// The whole output.
    pub fn into_bytes(self) -> (r: Vec<u8>)
        ensures
            r@ == self@,
    {
        self.buffer
    }
}

/// The texts of segments, but for the empty ones.
fn texts_of(segments: &Vec<Vec<u8>>) -> (r: Vec<String>)
    ensures
        chars::texts(r@) == shown(bytes::byte_views(segments@)),
{
    let ghost all = bytes::byte_views(segments@);
    let mut r = chars::no_texts();
    let mut i: usize = 0;
    while i < segments.len()
        invariant
            i <= segments.len(),
            all == bytes::byte_views(segments@),
            chars::texts(r@) == shown(all.take(i as int)),
        decreases segments.len() - i,
    {
        proof {
            assert(all.take(i + 1).drop_last() =~= all.take(i as int));
            assert(all.take(i + 1).last() == segments@[i as int]@);
        }
        if segments[i].len() > 0 {
            chars::push_text(&mut r, &bytes::lossy_text(segments[i].as_slice()));
        }
        i += 1;
    }
    proof {
        assert(all.take(i as int) =~= all);
    }
    r
}

} // verus!
