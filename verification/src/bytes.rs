//! Bytes that a process or a file gives, and the texts that they hold.

use vstd::prelude::*;
use vstd::utf8::{decode_utf8, valid_utf8};

verus! {

/// The text that `String::from_utf8_lossy` makes of `bytes`.
pub uninterp spec fn utf8_lossy(bytes: Seq<u8>) -> Seq<char>;

/// Calls `String::from_utf8_lossy`, which decodes bytes and puts a replacement character in the
/// place of each invalid sequence. What it makes of bytes is a function of these alone; where
/// they are valid it is the text that they encode.
#[verifier::external_body]
pub(crate) fn lossy_text(bytes: &[u8]) -> (r: String)
    ensures
        r@ == utf8_lossy(bytes@),
        valid_utf8(bytes@) ==> r@ == decode_utf8(bytes@),
{
    String::from_utf8_lossy(bytes).into_owned()
}

/// What the error of `std::str::from_utf8` says of `bytes` that are not valid.
pub uninterp spec fn utf8_error(bytes: Seq<u8>) -> Seq<char>;

/// Calls `std::str::from_utf8`, which gives the text that bytes encode, and fails where they are
/// not valid. What the failure says is a function of the bytes alone.
#[verifier::external_body]
pub(crate) fn exact_text(bytes: &[u8]) -> (r: Result<String, String>)
    ensures
        match r {
            Ok(s) => valid_utf8(bytes@) && s@ == decode_utf8(bytes@),
            Err(e) => !valid_utf8(bytes@) && e@ == utf8_error(bytes@),
        },
{
    match std::str::from_utf8(bytes) {
        Ok(text) => Ok(text.to_owned()),
        Err(error) => Err(error.to_string()),
    }
}

/// Bytes cut at separators: the segments that are complete, and what follows the last separator.
pub struct Cut {
    pub complete: Seq<Seq<u8>>,
    pub pending: Seq<u8>,
}

/// Whether a byte separates: a line feed does, and a carriage return if `cr` holds.
pub open spec fn separator(byte: u8, cr: bool) -> bool {
    byte == 10 || (cr && byte == 13)
}

/// The bytes `bytes` cut at each separator.
pub open spec fn cut(bytes: Seq<u8>, cr: bool) -> Cut
    decreases bytes.len(),
{
    if bytes.len() == 0 {
        Cut { complete: seq![], pending: seq![] }
    } else {
        let before = cut(bytes.drop_last(), cr);
        if separator(bytes.last(), cr) {
            Cut { complete: before.complete.push(before.pending), pending: seq![] }
        } else {
            Cut { complete: before.complete, pending: before.pending.push(bytes.last()) }
        }
    }
}

/// Bytes that arrive in two parts are cut as bytes that arrive at once: the second part, put
/// behind what the first part left pending, completes the remaining segments.
pub proof fn cutting_in_parts(first: Seq<u8>, second: Seq<u8>, cr: bool)
    ensures
        cut(first + second, cr).complete == cut(first, cr).complete + cut(
            cut(first, cr).pending + second,
            cr,
        ).complete,
        cut(first + second, cr).pending == cut(
            cut(first, cr).pending + second,
            cr,
        ).pending,
    decreases second.len(),
{
    let left = cut(first, cr).pending;
    if second.len() == 0 {
        assert(first + second =~= first);
        assert(left + second =~= left);
        lemma_pending_is_uncut(first, cr);
        lemma_uncut(left, cr);
    } else {
        cutting_in_parts(first, second.drop_last(), cr);
        assert((first + second).drop_last() =~= first + second.drop_last());
        assert((left + second).drop_last() =~= left + second.drop_last());
        assert((first + second).last() == second.last());
        assert((left + second).last() == second.last());
    }
}

/// What is pending holds no separator.
proof fn lemma_pending_is_uncut(bytes: Seq<u8>, cr: bool)
    ensures
        forall|i: int|
            0 <= i < cut(bytes, cr).pending.len() ==> !separator(
                #[trigger] cut(bytes, cr).pending[i],
                cr,
            ),
    decreases bytes.len(),
{
    if bytes.len() > 0 {
        lemma_pending_is_uncut(bytes.drop_last(), cr);
        let before = cut(bytes.drop_last(), cr).pending;
        let now = cut(bytes, cr).pending;
        assert forall|i: int| 0 <= i < now.len() implies !separator(#[trigger] now[i], cr) by {
            if i < before.len() {
                assert(now[i] == before[i]);
            }
        }
    }
}

/// Bytes without a separator are pending altogether.
proof fn lemma_uncut(bytes: Seq<u8>, cr: bool)
    requires
        forall|i: int| 0 <= i < bytes.len() ==> !separator(#[trigger] bytes[i], cr),
    ensures
        cut(bytes, cr).complete == Seq::<Seq<u8>>::empty(),
        cut(bytes, cr).pending == bytes,
    decreases bytes.len(),
{
    if bytes.len() > 0 {
        assert forall|i: int| 0 <= i < bytes.drop_last().len() implies !separator(
            #[trigger] bytes.drop_last()[i],
            cr,
        ) by {
            assert(bytes.drop_last()[i] == bytes[i]);
        }
        lemma_uncut(bytes.drop_last(), cr);
        assert(bytes.drop_last().push(bytes.last()) =~= bytes);
    }
}

/// The byte strings of a list.
pub open spec fn byte_views(v: Seq<Vec<u8>>) -> Seq<Seq<u8>> {
    v.map_values(|b: Vec<u8>| b@)
}

/// Cuts `bytes`, put behind what is pending, and keeps what follows the last separator.
pub fn cut_into(pending: &mut Vec<u8>, bytes: &[u8], cr: bool) -> (complete: Vec<Vec<u8>>)
    requires
        cut(old(pending)@, cr).complete == Seq::<Seq<u8>>::empty(),
        cut(old(pending)@, cr).pending == old(pending)@,
    ensures
        byte_views(complete@) == cut(old(pending)@ + bytes@, cr).complete,
        final(pending)@ == cut(old(pending)@ + bytes@, cr).pending,
        cut(final(pending)@, cr).complete == Seq::<Seq<u8>>::empty(),
        cut(final(pending)@, cr).pending == final(pending)@,
{
    let mut complete: Vec<Vec<u8>> = Vec::new();
    let ghost start = pending@;
    let mut i: usize = 0;
    proof {
        assert(start + bytes@.take(0) =~= start);
    }
    while i < bytes.len()
        invariant
            i <= bytes.len(),
            byte_views(complete@) == cut(start + bytes@.take(i as int), cr).complete,
            pending@ == cut(start + bytes@.take(i as int), cr).pending,
        decreases bytes.len() - i,
    {
        let byte = bytes[i];
        proof {
            let now = start + bytes@.take(i + 1);
            assert(now.drop_last() =~= start + bytes@.take(i as int));
            assert(now.last() == byte);
        }
        if byte == 10 || (cr && byte == 13) {
            let ghost before = complete@;
            let mut segment: Vec<u8> = Vec::new();
            segment.append(pending);
            complete.push(segment);
            proof {
                assert(byte_views(complete@) =~= byte_views(before).push(segment@));
            }
        } else {
            pending.push(byte);
        }
        i += 1;
    }
    proof {
        assert(bytes@.take(i as int) =~= bytes@);
        lemma_pending_is_uncut(start + bytes@, cr);
        lemma_uncut(pending@, cr);
    }
    complete
}

} // verus!
