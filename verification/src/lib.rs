//! Playback of an ordered list of rotations, one segment at a time.
//!
//! The crate holds the timing and sequencing rules of an animation that walks
//! through a list of rotation steps at sixty ticks per segment. The rotation
//! values themselves are opaque to it: callers hand in their own rotation type
//! together with its composition and interpolation operators.
//!
//! - [`playback`] is the state machine: rest, or a segment and the ticks
//!   elapsed in it, and what a tick does to either.
//! - [`rotation`] says which rotation belongs to a state and a list.
//! - [`sequence`] is the list of steps under edit, which is never empty.
//! - [`sequencer`] is the executable cursor that ties them together.

pub mod playback;
pub mod rotation;
pub mod sequence;
pub mod sequencer;
