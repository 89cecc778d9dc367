//! Frames and frame lists.
//!
//! A frame is a `bytes::Bytes` buffer: immutable, and cloned by bumping a
//! reference count rather than by copying. Verus cannot look inside one, so
//! this module gives a frame's contents a name, [`frame_bytes`], and states
//! what the few `Bytes` operations the crate relies on do to those contents.
//! Everything else in the crate is proved against these statements.
use bytes::Bytes;
use std::sync::Arc;
use vstd::prelude::*;

verus! {

/// `bytes::Bytes`, taken as it comes: a value that can be passed on, with
/// nothing known of what is inside.
#[verifier::external_type_specification]
#[verifier::external_body]
pub struct ExBytes(bytes::Bytes);

/// The bytes that a frame holds, in order: the slice that a `Bytes` stands
/// for. Nothing is proved of it; the statements below say how the `Bytes`
/// operations that the crate calls relate to it.
pub uninterp spec fn frame_bytes(frame: Bytes) -> Seq<u8>;

/// `Bytes::len` reads the handle's length field: the number of bytes it holds.
pub assume_specification[ bytes::Bytes::len ](frame: &Bytes) -> (n: usize)
    ensures
        n == frame_bytes(*frame).len(),
;

/// `Bytes::clone` makes a second handle onto the same pointer and length, so
/// the clone holds the same bytes as the frame it was made from. (It aborts
/// the process rather than return once more than `isize::MAX` handles onto
/// one buffer are alive, which is more than memory holds.)
pub assume_specification[ <bytes::Bytes as Clone>::clone ](frame: &Bytes) -> (copy: Bytes)
    ensures
        frame_bytes(copy) == frame_bytes(*frame),
;

/// `Bytes::from_owner` takes ownership of `data` and exposes the slice that
/// `data.as_ref()` yields, which for a `Vec<u8>` is its elements.
#[verifier::external_body]
pub(crate) fn frame_from_vec(data: Vec<u8>) -> (frame: Bytes)
    ensures
        frame_bytes(frame) == data@,
{
    Bytes::from_owner(data)
}

/// `Arc::from` on a `Vec` moves the elements, in order, into a shared slice.
#[verifier::external_body]
pub(crate) fn share_frames(frames: Vec<Bytes>) -> (shared: Arc<[Bytes]>)
    ensures
        shared@ == frames@,
{
    Arc::from(frames)
}

/// `Arc::clone` hands out another pointer to the same slice.
#[verifier::external_body]
pub(crate) fn another_handle(shared: &Arc<[Bytes]>) -> (handle: Arc<[Bytes]>)
    ensures
        handle@ == shared@,
{
    Arc::clone(shared)
}

/// The contents of each frame of a list, in list order.
pub open spec fn contents(frames: Seq<Bytes>) -> Seq<Seq<u8>> {
    frames.map_values(|frame: Bytes| frame_bytes(frame))
}

/// The summed byte length of all frames of a list.
pub open spec fn total_len(frames: Seq<Seq<u8>>) -> nat
    decreases frames.len(),
{
    if frames.len() == 0 {
        0
    } else {
        total_len(frames.drop_last()) + frames.last().len()
    }
}

/// Appending a frame adds its length to the total.
pub proof fn lemma_total_len_push(frames: Seq<Seq<u8>>, frame: Seq<u8>)
    ensures
        total_len(frames.push(frame)) == total_len(frames) + frame.len(),
{
    assert(frames.push(frame).drop_last() == frames);
}

} // verus!
