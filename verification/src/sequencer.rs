//! The sequencer: a playback cursor over a list of rotation steps.

use vstd::prelude::*;
use crate::playback::Playback;
use crate::playback::TICKS_PER_SEGMENT;
use crate::rotation::can_compose;
use crate::rotation::can_show;
use crate::rotation::composes_one_more;
use crate::rotation::composes_to;
use crate::rotation::shows;

verus! {

/// Playback cursor over a list of rotations that the caller owns.
///
/// The list is passed to each operation by reference (or by its length); the
/// sequencer keeps only the cursor.
#[derive(Clone, Copy, Debug)]
pub struct Sequencer {
    state: Playback,
}

impl View for Sequencer {
    type V = Playback;

    closed spec fn view(&self) -> Playback {
        self.state
    }
}

impl Default for Sequencer {
    /// A sequencer at rest.
    fn default() -> (sequencer: Sequencer)
        ensures
            sequencer@ == Playback::Idle,
    {
        Sequencer::new()
    }
}

impl Sequencer {
    #[verifier::type_invariant]
    spec fn ticks_in_range(self) -> bool {
        self.state.well_formed()
    }

    /// A sequencer at rest.
    pub fn new() -> (sequencer: Sequencer)
        ensures
            sequencer@ == Playback::Idle,
    {
        Sequencer { state: Playback::Idle }
    }

    /// Begins playback at the first segment of a list of `len` steps.
    ///
    /// On an empty list there is nothing to play and the sequencer comes to
    /// rest at once.
    pub fn start(&mut self, len: usize)
        ensures
            final(self)@ == Playback::started(len as nat),
            final(self)@.well_formed(),
            final(self)@.fits(len as nat),
    {
        if len == 0 {
            self.state = Playback::Idle;
        } else {
            self.state = Playback::Playing { index: 0, elapsed: 0 };
        }
    }

    /// Ends playback, whatever segment it was in.
    pub fn stop(&mut self)
        ensures
            final(self)@ == Playback::Idle,
    {
        self.state = Playback::Idle;
    }

    /// Advances playback by one tick, a sixtieth of a segment, over a list of
    /// `len` steps.
    pub fn tick(&mut self, len: usize)
        ensures
            final(self)@ == old(self)@.after_tick(len as nat),
            final(self)@.well_formed(),
            old(self)@.fits(len as nat) ==> final(self)@.fits(len as nat),
    {
        proof {
            use_type_invariant(&*self);
        }
        match self.state {
            Playback::Idle => {},
            Playback::Playing { index, elapsed } => {
                if elapsed + 1 < TICKS_PER_SEGMENT {
                    self.state = Playback::Playing { index, elapsed: elapsed + 1 };
                } else if len < 2 || index >= len - 2 {
                    self.state = Playback::Idle;
                } else {
                    self.state = Playback::Playing {
                        index: index + 1,
                        elapsed: elapsed + 1 - TICKS_PER_SEGMENT,
                    };
                }
            },
        }
    }

    /// Advances playback by `ticks` ticks at once over a list of `len` steps,
    /// to where `ticks` single ticks would have taken it.
    pub fn advance(&mut self, len: usize, ticks: u32)
        ensures
            final(self)@ == old(self)@.after_ticks(len as nat, ticks as nat),
            final(self)@.well_formed(),
            old(self)@.fits(len as nat) ==> final(self)@.fits(len as nat),
    {
        proof {
            use_type_invariant(&*self);
            self@.ticks_at_once(len as nat, ticks as nat);
        }
        match self.state {
            Playback::Idle => {},
            Playback::Playing { index, elapsed } => {
                let total: u64 = elapsed as u64 + ticks as u64;
                let crossed: u64 = total / (TICKS_PER_SEGMENT as u64);
                if crossed == 0 {
                    self.state = Playback::Playing { index, elapsed: total as u32 };
                } else if len < 2 || index >= len - 1 || crossed >= (len - 1 - index) as u64 {
                    self.state = Playback::Idle;
                } else {
                    self.state = Playback::Playing {
                        index: index + crossed as usize,
                        elapsed: (total % (TICKS_PER_SEGMENT as u64)) as u32,
                    };
                }
            },
        }
    }

    /// The current playback state.
    pub fn state(&self) -> (state: Playback)
        ensures
            state == self@,
            state.well_formed(),
    {
        proof {
            use_type_invariant(self);
        }
        self.state
    }

    /// Whether a segment is being played.
    pub fn is_active(&self) -> (active: bool)
        ensures
            active == (self@ is Playing),
    {
        match self.state {
            Playback::Idle => false,
            Playback::Playing { .. } => true,
        }
    }

    /// Whether the cursor is usable with a list of `len` steps: at rest
    /// always, and while playing as long as it names one of the steps.
    pub fn fits(&self, len: usize) -> (ok: bool)
        ensures
            ok == self@.fits(len as nat),
    {
        match self.state {
            Playback::Idle => true,
            Playback::Playing { index, .. } => index < len,
        }
    }

    /// The rotation to show now for `sequence`.
    ///
    /// `compose(a, b)` chains two rotations, `b` applied first, and
    /// `slerp(a, b, t)` interpolates from `a` to `b` at `t` ticks out of
    /// `TICKS_PER_SEGMENT`. At rest the steps are composed onto `identity` in
    /// list order. While a segment plays, only the steps before the cursor
    /// are composed, and the result is interpolated towards its composition
    /// with the step under the cursor.
    pub fn current_rotation<R: Copy, C: Fn(R, R) -> R, S: Fn(R, R, u32) -> R>(
        &self,
        sequence: &[R],
        identity: R,
        compose: C,
        slerp: S,
    ) -> (rotation: R)
        requires
            self@.fits(sequence@.len()),
            can_show(self@, sequence@, identity, compose, slerp),
        ensures
            shows(self@, sequence@, identity, compose, slerp, rotation),
    {
        let settled: usize = match self.state {
            Playback::Idle => sequence.len(),
            Playback::Playing { index, .. } => index,
        };
        let mut base: R = identity;
        let mut i: usize = 0;
        while i < settled
            invariant
                i <= settled <= sequence@.len(),
                composes_to(compose, identity, sequence@.take(i as int), base),
                can_compose(compose, identity, sequence@, settled as int),
            decreases settled - i,
        {
            let next: R = compose(base, sequence[i]);
            proof {
                composes_one_more(compose, identity, sequence@, i as int, base, next);
            }
            base = next;
            i += 1;
        }
        match self.state {
            Playback::Idle => {
                assert(sequence@.take(settled as int) =~= sequence@);
                base
            },
            Playback::Playing { index, elapsed } => {
                let target: R = compose(base, sequence[index]);
                slerp(base, target, elapsed)
            },
        }
    }
}

} // verus!
