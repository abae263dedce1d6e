//! The playback state and its transition rules, as a mathematical model.

use vstd::prelude::*;

verus! {

/// Number of ticks that one segment of the animation lasts.
///
/// Progress through a segment is counted in ticks, so the elapsed fraction of
/// a segment is `elapsed / TICKS_PER_SEGMENT`.
pub const TICKS_PER_SEGMENT: u32 = 60;

/// Where an animation stands.
#[derive(Clone, Copy, Debug, PartialEq, Eq, Structural)]
pub enum Playback {
    /// Nothing is being animated; the whole list is shown at rest.
    Idle,
    /// Segment `index` is being interpolated and `elapsed` ticks of it have
    /// passed.
    Playing { index: usize, elapsed: u32 },
}

impl Playback {
    /// The elapsed tick count stays below one full segment.
    pub open spec fn well_formed(self) -> bool {
        self matches Playback::Playing { elapsed, .. } ==> elapsed < TICKS_PER_SEGMENT
    }

    /// While playing, the cursor names an element of a list of `len` steps.
    pub open spec fn fits(self, len: nat) -> bool {
        self matches Playback::Playing { index, .. } ==> index < len
    }

    /// The state right after playback is started on a list of `len` steps.
    pub open spec fn started(len: nat) -> Playback {
        if len == 0 {
            Playback::Idle
        } else {
            Playback::Playing { index: 0, elapsed: 0 }
        }
    }

    /// The state one tick later, for a list of `len` steps.
    ///
    /// Rest stays rest. A playing segment gains one tick; when that completes
    /// the segment, the cursor moves on with the tick count wrapped, and
    /// playback ends once the cursor has reached the last step of the list.
    pub open spec fn after_tick(self, len: nat) -> Playback {
        match self {
            Playback::Idle => Playback::Idle,
            Playback::Playing { index, elapsed } => {
                if elapsed + 1 < TICKS_PER_SEGMENT {
                    Playback::Playing { index, elapsed: (elapsed + 1) as u32 }
                } else if index + 1 >= len - 1 {
                    Playback::Idle
                } else {
                    Playback::Playing {
                        index: (index + 1) as usize,
                        elapsed: (elapsed + 1 - TICKS_PER_SEGMENT) as u32,
                    }
                }
            },
        }
    }

    /// The state `ticks` ticks later, for a list of `len` steps.
    pub open spec fn after_ticks(self, len: nat, ticks: nat) -> Playback
        decreases ticks,
    {
        if ticks == 0 {
            self
        } else {
            self.after_ticks(len, (ticks - 1) as nat).after_tick(len)
        }
    }

    /// Number of segments that playback runs through on a list of `len`
    /// steps: none on an empty list, otherwise one for each step but the
    /// last, and at least one.
    pub open spec fn segments(len: nat) -> nat {
        if len == 0 {
            0
        } else if len <= 2 {
            1
        } else {
            (len - 1) as nat
        }
    }

    /// A tick keeps a valid state valid: the tick count stays below one
    /// segment and, while playing, the cursor keeps naming a step of the list.
    pub proof fn tick_keeps_valid(self, len: nat)
        requires
            self.well_formed(),
            self.fits(len),
        ensures
            self.after_tick(len).well_formed(),
            self.after_tick(len).fits(len),
    {
    }

    /// Rest is final under ticking: no number of ticks leaves it.
    pub proof fn idle_stays_idle(len: nat, ticks: nat)
        ensures
            Playback::Idle.after_ticks(len, ticks) == Playback::Idle,
        decreases ticks,
    {
        if ticks > 0 {
            Self::idle_stays_idle(len, (ticks - 1) as nat);
        }
    }

    /// Ticking `first` times and then `second` times is ticking
    /// `first + second` times.
    pub proof fn ticks_add(self, len: nat, first: nat, second: nat)
        ensures
            self.after_ticks(len, first).after_ticks(len, second) == self.after_ticks(
                len,
                first + second,
            ),
        decreases second,
    {
        if second > 0 {
            self.ticks_add(len, first, (second - 1) as nat);
        }
    }

    /// Where playback stands `ticks` ticks after a valid state, without
    /// stepping: the ticks are added to those already elapsed, each full
    /// segment in the sum moves the cursor one step on, and playback has
    /// ended if that takes the cursor to the last step of the list or beyond.
    pub proof fn ticks_at_once(self, len: nat, ticks: nat)
        requires
            self.well_formed(),
            len <= usize::MAX,
        ensures
            self.after_ticks(len, ticks).well_formed(),
            self is Idle ==> self.after_ticks(len, ticks) == Playback::Idle,
            self matches Playback::Playing { index, elapsed } ==> self.after_ticks(len, ticks) == ({
                let total = elapsed + ticks;
                let crossed = total / TICKS_PER_SEGMENT as int;
                if crossed == 0 {
                    Playback::Playing { index, elapsed: total as u32 }
                } else if index + crossed >= len - 1 {
                    Playback::Idle
                } else {
                    Playback::Playing {
                        index: (index + crossed) as usize,
                        elapsed: (total % TICKS_PER_SEGMENT as int) as u32,
                    }
                }
            }),
        decreases ticks,
    {
        if ticks > 0 {
            self.ticks_at_once(len, (ticks - 1) as nat);
        }
    }

    /// Where playback stands `ticks` ticks after it was started on a list of
    /// `len` steps: in segment `ticks / TICKS_PER_SEGMENT`, at tick
    /// `ticks % TICKS_PER_SEGMENT` of it, for as long as segments are left,
    /// and at rest from then on.
    pub proof fn ticks_from_start(len: nat, ticks: nat)
        requires
            len <= usize::MAX,
        ensures
            Playback::started(len).after_ticks(len, ticks) == (if ticks < TICKS_PER_SEGMENT
                * Playback::segments(len) {
                Playback::Playing {
                    index: (ticks / TICKS_PER_SEGMENT as nat) as usize,
                    elapsed: (ticks % TICKS_PER_SEGMENT as nat) as u32,
                }
            } else {
                Playback::Idle
            }),
    {
        Playback::started(len).ticks_at_once(len, ticks);
    }

    /// Playback always comes to an end: from a valid state, one segment's
    /// worth of ticks for each step of the list is enough to reach rest.
    pub proof fn playback_ends(self, len: nat, ticks: nat)
        requires
            self.well_formed(),
            self.fits(len),
            len <= usize::MAX,
            ticks >= TICKS_PER_SEGMENT * len,
        ensures
            self.after_ticks(len, ticks) == Playback::Idle,
    {
        self.ticks_at_once(len, ticks);
    }
}

} // verus!
