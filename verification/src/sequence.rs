//! The list of rotation steps that is edited and played back.

use vstd::prelude::*;

verus! {

/// An ordered list of rotation steps that is never empty: its last element is
/// the step currently being edited.
#[derive(Debug)]
pub struct RotationSequence<R> {
    steps: Vec<R>,
}

impl<R> View for RotationSequence<R> {
    type V = Seq<R>;

    closed spec fn view(&self) -> Seq<R> {
        self.steps@
    }
}

impl<R> RotationSequence<R> {
    #[verifier::type_invariant]
    spec fn never_empty(self) -> bool {
        self.steps@.len() >= 1
    }
}

impl<R: Copy> RotationSequence<R> {
    /// A list holding the single step `first`.
    pub fn new(first: R) -> (sequence: Self)
        ensures
            sequence@ == seq![first],
    {
        let mut steps: Vec<R> = Vec::new();
        steps.push(first);
        RotationSequence { steps }
    }

    /// Appends `step`, which becomes the step being edited.
    pub fn push(&mut self, step: R)
        ensures
            final(self)@ == old(self)@.push(step),
    {
        // The list is never left empty, not even while it grows: the steps
        // are swapped out against a stand-in, extended, and swapped back.
        let mut steps: Vec<R> = Vec::new();
        steps.push(step);
        std::mem::swap(&mut self.steps, &mut steps);
        steps.push(step);
        std::mem::swap(&mut self.steps, &mut steps);
    }

    /// Drops every step and starts over with the single step `first`.
    pub fn reset(&mut self, first: R)
        ensures
            final(self)@ == seq![first],
    {
        let mut steps: Vec<R> = Vec::new();
        steps.push(first);
        self.steps = steps;
    }

    /// Replaces the step being edited, the last one, by `step`.
    pub fn set_last(&mut self, step: R)
        ensures
            final(self)@ == old(self)@.drop_last().push(step),
    {
        proof {
            use_type_invariant(&*self);
        }
        let last: usize = self.steps.len() - 1;
        self.steps[last] = step;
        assert(self.steps@ =~= old(self).steps@.drop_last().push(step));
    }

    /// The step being edited.
    pub fn last(&self) -> (step: R)
        ensures
            step == self@.last(),
    {
        proof {
            use_type_invariant(self);
        }
        self.steps[self.steps.len() - 1]
    }

    /// Number of steps, at least one.
    pub fn len(&self) -> (len: usize)
        ensures
            len == self@.len(),
            len >= 1,
    {
        proof {
            use_type_invariant(self);
        }
        self.steps.len()
    }

    /// The steps in order, for playback.
    pub fn as_slice(&self) -> (steps: &[R])
        ensures
            steps@ == self@,
            steps@.len() >= 1,
    {
        proof {
            use_type_invariant(self);
        }
        self.steps.as_slice()
    }
}

} // verus!
