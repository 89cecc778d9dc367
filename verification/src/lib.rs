//! A fixed, ordered set of byte frames, replayed one frame per timer tick as
//! a body that cycles through them, forever or for a set number of passes.
//!
//! A [`CyclingBodySource`] holds the frames; it is built once and shared.
//! Each consumer gets a [`CyclingBody`] of its own, made from a clone of the
//! source, and polls it as its timer fires. The timer itself is not part of
//! this crate: the body is told of each tick and decides what to emit.
pub mod body;
pub mod cycle;
pub mod frames;
pub mod source;

pub use crate::body::CyclingBody;
pub use crate::body::Emission;
pub use crate::body::Tick;
pub use crate::source::CyclingBodySource;
pub use crate::source::InvalidItemLength;
pub use crate::source::LoopLimit;
