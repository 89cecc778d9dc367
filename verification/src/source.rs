//! The frame set that bodies are made from.
//!
//! A [`CyclingBodySource`] is built once, checked once, and never changes.
//! It is cheap to clone: a clone shares the frame list with the source it
//! was made from.
use crate::frames::another_handle;
use crate::frames::contents;
use crate::frames::frame_bytes;
use crate::frames::frame_from_vec;
use crate::frames::lemma_total_len_push;
use crate::frames::share_frames;
use crate::frames::total_len;
use bytes::Bytes;
use std::sync::Arc;
use std::time::Duration;
use vstd::prelude::*;

verus! {

/// The one way in which building a [`CyclingBodySource`] fails: the frame
/// list was empty.
#[derive(Debug, Clone, Copy)]
pub struct InvalidItemLength;

impl InvalidItemLength {
    /// The message that goes with the error.
    pub fn to_string(&self) -> (text: String)
        ensures
            text@ == "At least one frame required"@,
    {
        "At least one frame required".to_owned()
    }
}

/// A bound on the number of passes through the frames: a positive count.
#[derive(Debug, Clone, Copy)]
pub struct LoopLimit {
    pub(crate) passes: usize,
}

impl View for LoopLimit {
    type V = nat;

    open(crate) spec fn view(&self) -> nat {
        self.passes as nat
    }
}

impl LoopLimit {
    #[verifier::type_invariant]
    spec fn positive(self) -> bool {
        self.passes > 0
    }

    /// A limit of `passes` passes. Zero is no count of passes to stop after,
    /// and gives `None`.
    pub fn new(passes: usize) -> (limit: Option<LoopLimit>)
        ensures
            passes == 0 <==> limit is None,
            limit matches Some(made) ==> made@ == passes,
    {
        if passes > 0 {
            Some(LoopLimit { passes })
        } else {
            None
        }
    }

    /// The number of passes that the limit allows.
    pub fn get(self) -> (passes: usize)
        ensures
            passes == self@,
            passes > 0,
    {
        proof {
            use_type_invariant(&self);
        }
        self.passes
    }
}

/// An optional limit as the number it stands for.
pub open spec fn limit_view(limit: Option<LoopLimit>) -> Option<nat> {
    match limit {
        Some(limit) => Some(limit@),
        None => None,
    }
}

/// What a [`CyclingBodySource`] holds.
pub struct SourceView {
    /// The contents of the frames, in order.
    pub frames: Seq<Seq<u8>>,
    /// The time between two emissions.
    pub wait: Duration,
    /// The number of passes after which a body ends, if it ever does.
    pub limit: Option<nat>,
}

impl SourceView {
    /// The summed length of the frames, in bytes.
    pub open spec fn aggregate_size(self) -> nat {
        total_len(self.frames)
    }
}

/// A checked, unchanging frame set: the frames in order, the time to wait
/// between two of them, an optional limit on the number of passes, and the
/// frames' summed length.
#[derive(Debug)]
pub struct CyclingBodySource {
    pub(crate) bodies: Arc<[Bytes]>,
    pub(crate) wait: Duration,
    pub(crate) loop_limit: Option<LoopLimit>,
    pub(crate) bodies_size_sum: u128,
}

impl View for CyclingBodySource {
    type V = SourceView;

    open(crate) spec fn view(&self) -> SourceView {
        SourceView {
            frames: contents(self.bodies@),
            wait: self.wait,
            limit: limit_view(self.loop_limit),
        }
    }
}

/// The contents of each buffer of a list, in list order.
pub open spec fn buffers(bodies: Seq<Vec<u8>>) -> Seq<Seq<u8>> {
    bodies.map_values(|body: Vec<u8>| body@)
}

/// The summed length of `frames`. Held in 128 bits, in which no list that
/// fits in memory can overflow it.
fn summed_len(frames: &[Bytes]) -> (sum: u128)
    ensures
        sum == total_len(contents(frames@)),
{
    let mut sum: u128 = 0;
    let mut i: usize = 0;
    while i < frames.len()
        invariant
            i <= frames@.len(),
            sum == total_len(contents(frames@.take(i as int))),
            sum <= i * usize::MAX,
        decreases frames@.len() - i,
    {
        let len: usize = frames[i].len();
        proof {
            let seen = contents(frames@.take(i as int));
            assert(contents(frames@.take(i + 1)) == seen.push(frame_bytes(frames@[i as int])));
            lemma_total_len_push(seen, frame_bytes(frames@[i as int]));
            assert((i + 1) * usize::MAX <= u128::MAX) by (nonlinear_arith)
                requires
                    i + 1 <= u64::MAX,
                    usize::MAX <= u64::MAX,
            ;
            assert((i + 1) * usize::MAX == i * usize::MAX + usize::MAX) by (nonlinear_arith);
        }
        sum = sum + len as u128;
        i = i + 1;
    }
    proof {
        assert(frames@.take(i as int) == frames@);
    }
    sum
}

impl CyclingBodySource {
    #[verifier::type_invariant]
    pub(crate) open(crate) spec fn inv(self) -> bool {
        &&& self.bodies@.len() > 0
        &&& self.bodies_size_sum == total_len(contents(self.bodies@))
    }

    /// Checks a frame list and makes a source of it.
    ///
    /// An empty list is refused; nothing else is checked. The source holds
    /// the very frames that were handed in, in the same order, and their
    /// summed length.
    pub fn new(bodies: Arc<[Bytes]>, wait: Duration, loop_limit: Option<LoopLimit>) -> (made:
        Result<Self, InvalidItemLength>)
        ensures
            bodies@.len() == 0 <==> made is Err,
            made matches Ok(source) ==> source@ == (SourceView {
                frames: contents(bodies@),
                wait,
                limit: limit_view(loop_limit),
            }),
            made matches Ok(source) ==> source@.aggregate_size() == total_len(contents(bodies@)),
    {
        if bodies.len() > 0 {
            let bodies_size_sum = summed_len(&bodies);
            Ok(Self { bodies_size_sum, bodies, wait, loop_limit })
        } else {
            Err(InvalidItemLength)
        }
    }

    /// Makes a source of byte buffers, one frame from each, in order.
    ///
    /// Each buffer becomes a frame without being copied. An empty list is
    /// refused.
    pub fn from_vecs(bodies: Vec<Vec<u8>>, wait: Duration, loop_limit: Option<LoopLimit>) -> (made:
        Result<Self, InvalidItemLength>)
        ensures
            bodies@.len() == 0 <==> made is Err,
            made matches Ok(source) ==> source@ == (SourceView {
                frames: buffers(bodies@),
                wait,
                limit: limit_view(loop_limit),
            }),
            made matches Ok(source) ==> source@.aggregate_size() == total_len(buffers(bodies@)),
    {
        let ghost given = bodies@;
        let mut frames: Vec<Bytes> = Vec::new();
        for body in it: bodies
            invariant
                it.seq() == given,
                frames@.len() == it.index(),
                contents(frames@) == buffers(given.take(it.index() as int)),
        {
            let ghost before = frames@;
            frames.push(frame_from_vec(body));
            proof {
                let at = before.len() as int;
                assert(contents(frames@) == contents(before).push(given[at]@));
                assert(buffers(given.take(at + 1)) == buffers(given.take(at)).push(given[at]@));
            }
        }
        proof {
            assert(given.take(given.len() as int) == given);
        }
        Self::new(share_frames(frames), wait, loop_limit)
    }

    /// The number of frames; never zero.
    pub fn len(&self) -> (count: usize)
        ensures
            count == self@.frames.len(),
            count > 0,
    {
        proof {
            use_type_invariant(self);
        }
        self.bodies.len()
    }

    /// The summed length of the frames, in bytes.
    pub fn aggregate_size(&self) -> (size: u128)
        ensures
            size == self@.aggregate_size(),
    {
        proof {
            use_type_invariant(self);
        }
        self.bodies_size_sum
    }

    /// The time between two emissions.
    pub fn wait(&self) -> (wait: Duration)
        ensures
            wait == self@.wait,
    {
        self.wait
    }

    /// The limit on the number of passes, if there is one.
    pub fn loop_limit(&self) -> (limit: Option<LoopLimit>)
        ensures
            limit_view(limit) == self@.limit,
    {
        self.loop_limit
    }
}

impl Clone for CyclingBodySource {
    /// A second source over the same frames. The frame list is shared, not
    /// copied.
    fn clone(&self) -> (copy: Self)
        ensures
            copy@ == self@,
    {
        proof {
            use_type_invariant(self);
        }
        CyclingBodySource {
            bodies: another_handle(&self.bodies),
            wait: self.wait,
            loop_limit: self.loop_limit,
            bodies_size_sum: self.bodies_size_sum,
        }
    }
}

} // verus!
