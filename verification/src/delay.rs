//! A pause that moves nothing.

use vstd::prelude::*;
use bevy::ecs::entity::Entity;
use crate::progress::Progress;
use crate::boxed::IntoBoxDynTweenable;
use crate::sequence::Sequence;
use crate::timeline::{lemma_sequence_of_two, Timeline};
use crate::timer::{Timer, TimerView};
use crate::tweenable::{Lens, TweenCompleted, TweenState, Tweenable};

verus! {

/// A time delay that animates nothing. It serves to shift other timelines
/// inside a composition.
pub struct Delay {
    timer: Timer,
}

impl Delay {
    /// A delay of the given duration, at its start.
    pub fn new(duration: u64) -> (delay: Delay)
        ensures
            delay.timer_view() == TimerView::fresh(duration as nat, false),
    {
        Delay { timer: Timer::new(duration, false) }
    }

    /// Chains another tweenable after this delay: a sequence of the two, at
    /// its start.
    pub fn then<T: Send + Sync, L: Lens<T>, U: IntoBoxDynTweenable<T, L>>(self, tween: U) -> (sequence:
        Sequence<T, L>)
        requires
            self.timer_view().duration + tween.model().duration() <= u64::MAX,
        ensures
            sequence.model() == Timeline::sequence_of(
                seq![Timeline::Delay { timer: self.timer_view() }, tween.model()],
            ),
            sequence.model().duration() == self.timer_view().duration + tween.model().duration(),
    {
        proof {
            lemma_sequence_of_two(Timeline::Delay { timer: self.timer_view() }, tween.model());
        }
        Sequence::from_single(self).followed_by(tween)
    }

    /// The state of the timer that the delay counts with.
    pub closed spec fn timer_view(&self) -> TimerView {
        self.timer@
    }
}

impl<T> Tweenable<T> for Delay {
    open spec fn model(&self) -> Timeline<T> {
        Timeline::Delay { timer: self.timer_view() }
    }

    fn duration(&self) -> (d: u64) {
        self.timer.duration()
    }

    fn is_looping(&self) -> (looping: bool) {
        false
    }

    fn set_progress(&mut self, progress: Progress) {
        let position = progress.scale(self.timer.duration());
        self.timer.seek(position);
    }

    fn progress(&self) -> (p: Progress) {
        self.timer.percent()
    }

    fn tick(
        &mut self,
        delta: u64,
        target: &mut T,
        entity: Entity,
        events: &mut Vec<TweenCompleted>,
    ) -> (state: TweenState) {
        self.timer.tick(delta);
        if self.timer.finished() {
            TweenState::Completed
        } else {
            TweenState::Active
        }
    }

    fn times_completed(&self) -> (n: u32) {
        if self.timer.finished() {
            1
        } else {
            0
        }
    }

    fn rewind(&mut self) {
        self.timer.reset();
    }
}

} // verus!
