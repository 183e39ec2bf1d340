//! A single animation of one target.

use vstd::prelude::*;
use bevy::ecs::entity::Entity;
use crate::progress::{Progress, Ratio};
use crate::boxed::IntoBoxDynTweenable;
use crate::sequence::Sequence;
use crate::timeline::{lemma_sequence_of_two, Timeline};
use crate::timer::Timer;
use crate::tweenable::{
    Lens, TweenCompleted, TweenState, Tweenable, TweeningDirection, TweeningType,
};

verus! {

/// What a completion callback gets to see of the animation that completed.
#[derive(Clone, Copy, Debug)]
pub struct TweenSnapshot {
    /// How the animation behaves at its end.
    pub tweening_type: TweeningType,
    /// The direction in which it now plays.
    pub direction: TweeningDirection,
    /// The passes it has completed so far, this one included.
    pub times_completed: u32,
    /// Its position inside the current pass.
    pub progress: Progress,
    /// The time of one pass.
    pub duration: u64,
}

/// A callback invoked when an animation completed a pass.
pub trait TweenCallback: Send + Sync {
    /// Called with the owner of the animation and a view of its state.
    fn call(&self, entity: Entity, tween: &TweenSnapshot);
}

/// The interpolation of `lens` as a function on targets.
pub open spec fn lens_of<T, L: Lens<T>>(lens: L) -> spec_fn(T, Ratio) -> T {
    |target: T, ratio: Ratio| lens.lerp_spec(target, ratio)
}

/// A single animation: it moves one target of type `T` through a lens of
/// type `L`, once or over and over.
pub struct Tween<T, L> {
    timer: Timer,
    tweening_type: TweeningType,
    direction: TweeningDirection,
    times_completed: u32,
    lens: L,
    target: core::marker::PhantomData<T>,
    on_completed: Option<Box<dyn TweenCallback>>,
    raise_event: bool,
}

impl<T: Send + Sync, L: Lens<T>> Tween<T, L> {
    /// A new animation of the given kind and duration, at its start and
    /// playing forward. It raises no events and has no callback.
    pub fn new(tweening_type: TweeningType, duration: u64, lens: L) -> (tween: Self)
        ensures
            tween.model() == Timeline::tween_of(tweening_type, duration as nat, lens_of(lens)),
            !tween.has_completed(),
    {
        let repeating = match tweening_type {
            TweeningType::Once => false,
            _ => true,
        };
        Tween {
            timer: Timer::new(duration, repeating),
            tweening_type,
            direction: TweeningDirection::Forward,
            times_completed: 0,
            lens,
            target: core::marker::PhantomData,
            on_completed: None,
            raise_event: false,
        }
    }

    /// Chains another tweenable after this animation: a sequence of the
    /// two, at its start.
    pub fn then<U: IntoBoxDynTweenable<T, L>>(self, tween: U) -> (sequence: Sequence<T, L>)
        requires
            self.model().duration() + tween.model().duration() <= u64::MAX,
        ensures
            sequence.model() == Timeline::sequence_of(seq![self.model(), tween.model()]),
            sequence.model().duration() == self.model().duration() + tween.model().duration(),
    {
        proof {
            lemma_sequence_of_two(self.model(), tween.model());
        }
        Sequence::from_single(self).followed_by(tween)
    }

    /// Enables or disables the event that the animation raises when it
    /// completes.
    pub fn with_completed_event(self, enabled: bool) -> (tween: Self)
        ensures
            tween.model() == self.model().with_raise_event(enabled),
            tween.has_completed() == self.has_completed(),
    {
        let mut tween = self;
        tween.raise_event = enabled;
        tween
    }

    /// The direction in which the animation now plays.
    pub fn direction(&self) -> (d: TweeningDirection)
        ensures
            d == self.model().direction(),
    {
        self.direction
    }

    /// Whether a completion callback is set.
    pub closed spec fn has_completed(&self) -> bool {
        self.on_completed is Some
    }

    /// Sets the callback invoked when the animation completes a pass. It
    /// takes the place of an earlier one.
    pub fn set_completed<C: TweenCallback + 'static>(&mut self, callback: C)
        ensures
            final(self).model() == old(self).model(),
            final(self).has_completed(),
    {
        self.on_completed = Some(Box::new(callback));
    }

    /// Removes the callback invoked when the animation completes a pass.
    pub fn clear_completed(&mut self)
        ensures
            final(self).model() == old(self).model(),
            !final(self).has_completed(),
    {
        self.on_completed = None;
    }

    /// Enables or disables the event that the animation raises when it
    /// completes.
    pub fn set_completed_event(&mut self, enabled: bool)
        ensures
            final(self).model() == old(self).model().with_raise_event(enabled),
            final(self).has_completed() == old(self).has_completed(),
    {
        self.raise_event = enabled;
    }

    /// What a callback gets to see of this animation.
    fn snapshot(&self) -> (snapshot: TweenSnapshot)
        ensures
            snapshot.tweening_type == self.model()->kind,
            snapshot.direction == self.model().direction(),
            snapshot.times_completed == self.model().times_completed(),
            snapshot.progress@ == self.model().progress(),
            snapshot.duration == self.model().duration(),
    {
        TweenSnapshot {
            tweening_type: self.tweening_type,
            direction: self.direction,
            times_completed: self.times_completed,
            progress: self.progress(),
            duration: self.timer.duration(),
        }
    }
}

impl<T: Send + Sync, L: Lens<T>> Tweenable<T> for Tween<T, L> {
    closed spec fn model(&self) -> Timeline<T> {
        Timeline::Tween {
            timer: self.timer@,
            kind: self.tweening_type,
            direction: self.direction,
            times_completed: self.times_completed as nat,
            raise_event: self.raise_event,
            lens: lens_of(self.lens),
        }
    }

    fn duration(&self) -> (d: u64) {
        self.timer.duration()
    }

    fn is_looping(&self) -> (looping: bool) {
        match self.tweening_type {
            TweeningType::Once => false,
            _ => true,
        }
    }

    fn set_progress(&mut self, progress: Progress) {
        let position = progress.scale(self.timer.duration());
        self.timer.seek(position);
    }

    fn progress(&self) -> (p: Progress) {
        match self.direction {
            TweeningDirection::Forward => self.timer.percent(),
            TweeningDirection::Backward => self.timer.percent_left(),
        }
    }

    fn tick(
        &mut self,
        delta: u64,
        target: &mut T,
        entity: Entity,
        events: &mut Vec<TweenCompleted>,
    ) -> (state: TweenState) {
        if !self.is_looping() && self.timer.finished() {
            return TweenState::Completed;
        }
        let mut state = TweenState::Active;

        self.timer.tick(delta);

        // Turn around at once, so that the position below is the one in the new direction.
        if self.timer.just_finished() && self.tweening_type == TweeningType::PingPong {
            self.direction = self.direction.flip();
        }

        // The target is written on every step, the completing one included.
        let progress = self.progress();
        self.lens.lerp(target, progress);

        if self.timer.just_finished() {
            if self.tweening_type == TweeningType::Once {
                state = TweenState::Completed;
            }
            let crossed = self.timer.times_finished_this_tick();
            self.times_completed = if crossed > u32::MAX - self.times_completed {
                u32::MAX
            } else {
                self.times_completed + crossed
            };
            if self.raise_event {
                events.push(TweenCompleted { entity });
            }
            let snapshot = self.snapshot();
            if let Some(callback) = &self.on_completed {
                callback.call(entity, &snapshot);
            }
        }
        state
    }

    fn times_completed(&self) -> (n: u32) {
        self.times_completed
    }

    fn rewind(&mut self) {
        self.timer.reset();
        self.direction = TweeningDirection::Forward;
        self.times_completed = 0;
    }
}

} // verus!

