//! The body: one consumer's walk through the frames of a source.
//!
//! A [`CyclingBody`] is driven from outside. Whoever owns the timer tells
//! the body on each poll whether the timer has fired, and the body answers
//! with what to hand on: nothing yet, the next frame, or the end. It emits
//! one frame per tick and never more, however late the tick comes.
use crate::cycle::Cycle;
use crate::frames::contents;
use crate::frames::frame_bytes;
use crate::frames::total_len;
use crate::source::limit_view;
use crate::source::CyclingBodySource;
use crate::source::LoopLimit;
use bytes::Bytes;
use std::sync::Arc;
use vstd::prelude::*;
use vstd::std_specs::convert::FromSpecImpl;

verus! {

/// What the timer said when the body was polled.
#[derive(Debug, Clone, Copy)]
pub enum Tick {
    /// The timer has not fired yet.
    Pending,
    /// The timer has fired.
    Fired,
}

/// What a poll of the body hands on.
#[derive(Debug)]
pub enum Emission {
    /// Nothing yet: the timer has not fired.
    Pending,
    /// The next frame.
    Frame(Bytes),
    /// The end: the body is exhausted, and stays so.
    End,
}

/// One consumer's position in the frames of a source: which frame comes
/// next, and how many passes are complete.
///
/// Its view is a [`Cycle`], and every body's view is valid in the sense of
/// [`Cycle::wf`]: each method says so of the body it is called on.
#[derive(Debug)]
pub struct CyclingBody {
    bodies: Arc<[Bytes]>,
    bodies_size_sum: u128,
    current: usize,
    loop_limit: Option<LoopLimit>,
    loop_count: usize,
}

impl View for CyclingBody {
    type V = Cycle;

    closed spec fn view(&self) -> Cycle {
        Cycle {
            frames: contents(self.bodies@),
            limit: limit_view(self.loop_limit),
            cursor: self.current as nat,
            passes: self.loop_count as nat,
        }
    }
}

impl FromSpecImpl<CyclingBodySource> for CyclingBody {
    open spec fn obeys_from_spec() -> bool {
        true
    }

    closed spec fn from_spec(src: CyclingBodySource) -> Self {
        CyclingBody {
            bodies: src.bodies,
            bodies_size_sum: src.bodies_size_sum,
            current: 0,
            loop_limit: src.loop_limit,
            loop_count: 0,
        }
    }
}

impl From<CyclingBodySource> for CyclingBody {
    /// A fresh body over the frames of `src`: it stands before the first
    /// frame and has completed no pass.
    fn from(src: CyclingBodySource) -> (body: Self)
        ensures
            body@ == Cycle::start(src@.frames, src@.limit),
            body@.wf(),
    {
        proof {
            use_type_invariant(&src);
        }
        CyclingBody {
            bodies: src.bodies,
            bodies_size_sum: src.bodies_size_sum,
            current: 0,
            loop_limit: src.loop_limit,
            loop_count: 0,
        }
    }
}

impl CyclingBody {
    #[verifier::type_invariant]
    spec fn inv(self) -> bool {
        &&& self.bodies@.len() > 0
        &&& self.current < self.bodies@.len()
        &&& self.bodies_size_sum == total_len(contents(self.bodies@))
        &&& self.loop_limit matches Some(limit) ==> self.loop_count <= limit.passes
    }

    /// Whether the body has completed as many passes as its limit allows.
    /// A body without a limit never has.
    pub fn is_exhausted(&self) -> (done: bool)
        ensures
            self@.wf(),
            done == self@.exhausted(),
    {
        proof {
            use_type_invariant(self);
        }
        match self.loop_limit {
            Some(limit) => self.loop_count >= limit.get(),
            None => false,
        }
    }

    /// One poll. Where the timer has not fired, nothing happens. Where it
    /// has, an exhausted body reports the end and stays as it is; any other
    /// hands out the frame under its cursor and moves on by one frame.
    pub fn poll_next(&mut self, tick: Tick) -> (out: Emission)
        ensures
            old(self)@.wf(),
            match tick {
                Tick::Pending => out is Pending && final(self)@ == old(self)@,
                Tick::Fired => final(self)@ == old(self)@.tick() && match old(self)@.emits() {
                    Some(bytes) => out matches Emission::Frame(frame) && frame_bytes(frame)
                        == bytes,
                    None => out is End,
                },
            },
    {
        proof {
            use_type_invariant(&*self);
        }
        match tick {
            Tick::Pending => Emission::Pending,
            Tick::Fired => {
                if self.is_exhausted() {
                    Emission::End
                } else {
                    let frame = self.bodies[self.current].clone();
                    if self.current == self.bodies.len() - 1 {
                        if self.loop_count < usize::MAX {
                            self.loop_count += 1;
                        }
                        self.current = 0;
                    } else {
                        self.current += 1;
                    }
                    Emission::Frame(frame)
                }
            },
        }
    }

    /// The number of bytes that the body emits from start to end, where that
    /// is known and fits in 64 bits: the frames' summed length times the
    /// limit. A body without a limit has no total.
    pub fn size_hint(&self) -> (total: Option<u64>)
        ensures
            self@.wf(),
            total == match self@.total_size() {
                Some(size) => if size <= u64::MAX {
                    Some(size as u64)
                } else {
                    None
                },
                None => None,
            },
    {
        proof {
            use_type_invariant(self);
        }
        match self.loop_limit {
            Some(limit) => {
                let passes = limit.get();
                if self.bodies_size_sum > u64::MAX as u128 {
                    assert(self.bodies_size_sum * passes > u64::MAX) by (nonlinear_arith)
                        requires
                            self.bodies_size_sum > u64::MAX,
                            passes >= 1,
                    ;
                    None
                } else {
                    (self.bodies_size_sum as u64).checked_mul(passes as u64)
                }
            },
            None => None,
        }
    }

    /// Whether the stream is known to be at its end. The body never says so
    /// ahead of time: the end shows when a poll returns [`Emission::End`].
    pub fn is_end_stream(&self) -> (end: bool)
        ensures
            !end,
    {
        false
    }

    /// The index of the frame that the next tick emits.
    pub fn cursor(&self) -> (index: usize)
        ensures
            self@.wf(),
            index == self@.cursor,
    {
        proof {
            use_type_invariant(self);
        }
        self.current
    }

    /// The number of passes that are complete.
    pub fn loop_count(&self) -> (passes: usize)
        ensures
            self@.wf(),
            passes == self@.passes,
    {
        proof {
            use_type_invariant(self);
        }
        self.loop_count
    }
}

} // verus!
