//! Children played one after the other.

use vstd::prelude::*;
use bevy::ecs::entity::Entity;
use crate::boxed::{box_all, models, models_of, BoxedTweenable, IntoBoxDynTweenable};
use crate::progress::{Progress, Ratio};
use crate::timeline::{
    active_child, capped, clamp_time, lemma_sum_durations_grows, sum_durations, Timeline,
};
use crate::tweenable::{Lens, TweenCompleted, TweenState, Tweenable};

verus! {

/// A sequence of tweenables played back in order, one after the other.
pub struct Sequence<T, L> {
    tweens: Vec<BoxedTweenable<T, L>>,
    index: usize,
    duration: u64,
    time: u64,
    times_completed: u32,
}

impl<T: Send + Sync, L: Lens<T>> Sequence<T, L> {
    /// A sequence of the given children, at its start.
    ///
    /// A sequence holds at least one child, and its duration, the sum of
    /// theirs, must fit the time type.
    pub fn new<U: IntoBoxDynTweenable<T, L>>(items: Vec<U>) -> (sequence: Self)
        requires
            items@.len() > 0,
            sum_durations(models_of(items@), items@.len()) <= u64::MAX,
        ensures
            sequence.model() == Timeline::sequence_of(models_of(items@)),
    {
        let ghost children = models_of(items@);
        let tweens = box_all(items);
        let mut duration: u64 = 0;
        let mut i: usize = 0;
        while i < tweens.len()
            invariant
                i <= tweens@.len(),
                children == models(tweens@),
                duration == sum_durations(children, i as nat),
                sum_durations(children, tweens@.len()) <= u64::MAX,
            decreases tweens.len() - i,
        {
            proof {
                lemma_sum_durations_grows(children, (i + 1) as nat, tweens@.len());
            }
            duration = duration + tweens[i].duration();
            i += 1;
        }
        Sequence { tweens, index: 0, duration, time: 0, times_completed: 0 }
    }

    /// A sequence that holds a single child.
    pub fn from_single<U: IntoBoxDynTweenable<T, L>>(tween: U) -> (sequence: Self)
        ensures
            sequence.model() == Timeline::sequence_of(seq![tween.model()]),
            sequence.model().duration() == tween.model().duration(),
    {
        let duration = tween.duration();
        let mut tweens: Vec<BoxedTweenable<T, L>> = Vec::new();
        tweens.push(U::into_box_dyn(tween));
        proof {
            let children = seq![tween.model()];
            assert(models(tweens@) =~= children);
            assert(sum_durations(children, 0) == 0);
            assert(sum_durations(children, 1) == tween.model().duration());
        }
        Sequence { tweens, index: 0, duration, time: 0, times_completed: 0 }
    }

    /// Appends a child to the sequence.
    ///
    /// The duration of the sequence grows by that of the child, and must
    /// still fit the time type.
    pub fn then<U: IntoBoxDynTweenable<T, L>>(self, tween: U) -> (sequence: Self)
        requires
            self.model().duration() + tween.model().duration() <= u64::MAX,
        ensures
            sequence.model() == self.model().followed_by(tween.model()),
    {
        self.followed_by(tween)
    }

    /// Appends a child to the sequence: [`Sequence::then`] under another
    /// name.
    pub fn followed_by<U: IntoBoxDynTweenable<T, L>>(self, tween: U) -> (sequence: Self)
        requires
            self.model().duration() + tween.model().duration() <= u64::MAX,
        ensures
            sequence.model() == self.model().followed_by(tween.model()),
    {
        let mut sequence = self;
        sequence.duration = sequence.duration + tween.duration();
        sequence.tweens.push(U::into_box_dyn(tween));
        proof {
            assert(models(sequence.tweens@) =~= models(self.tweens@).push(tween.model()));
        }
        sequence
    }

    /// Index of the child that is active, or of the last one if the sequence
    /// is exhausted.
    pub fn index(&self) -> (i: usize)
        requires
            self.model().children().len() > 0,
        ensures
            i == self.model().current_index(),
    {
        proof {
            assert(models(self.tweens@).len() == self.tweens@.len());
        }
        let last = self.tweens.len() - 1;
        if self.index < last {
            self.index
        } else {
            last
        }
    }

    /// The child that is active, or the last one if the sequence is
    /// exhausted.
    pub fn current(&self) -> (child: &BoxedTweenable<T, L>)
        requires
            self.model().children().len() > 0,
        ensures
            child.model() == self.model().children()[self.model().current_index() as int],
    {
        let i = self.index();
        proof {
            assert(models(self.tweens@).len() == self.tweens@.len());
            assert(models(self.tweens@)[i as int] == self.tweens@[i as int].model());
        }
        &self.tweens[i]
    }
}

impl<T: Send + Sync, L: Lens<T>> Tweenable<T> for Sequence<T, L> {
    closed spec fn model(&self) -> Timeline<T>
        decreases *self,
    {
        Timeline::Sequence {
            children: models(self.tweens@),
            index: self.index as nat,
            duration: self.duration as nat,
            time: self.time as nat,
            times_completed: self.times_completed as nat,
        }
    }

    fn duration(&self) -> (d: u64) {
        self.duration
    }

    fn is_looping(&self) -> (looping: bool) {
        false
    }

    fn set_progress(&mut self, progress: Progress)
        decreases *old(self),
    {
        let whole = progress.whole();
        self.times_completed = if whole > u32::MAX as u64 {
            u32::MAX
        } else {
            whole as u32
        };
        let scaled = progress.scale(self.duration);
        let total: u64 = if scaled > self.duration as u128 {
            self.duration
        } else {
            scaled as u64
        };
        self.time = total;

        // Find the child in which the time falls.
        let ghost children = models(old(self).tweens@);
        let ghost goal = old(self).model().seek(progress@);
        let n = self.tweens.len();
        let mut accum: u64 = 0;
        let mut i: usize = 0;
        while i < n
            invariant
                n == old(self).tweens@.len(),
                self.tweens@.len() == n,
                i <= n,
                children == models(old(self).tweens@),
                accum <= total,
                accum == sum_durations(children, i as nat),
                active_child(children, total as nat, 0, 0) == active_child(
                    children,
                    total as nat,
                    i as nat,
                    accum as nat,
                ),
                forall|j: int|
                    0 <= j < i ==> (#[trigger] self.tweens@[j]).model() == children[j].seek(
                        Ratio::one(),
                    ),
                forall|j: int| i <= j < n ==> self.tweens@[j] == old(self).tweens@[j],
                self.duration == old(self).duration,
                self.time == total,
                self.times_completed == capped(progress@.whole()),
                total == clamp_time(progress@.scale(self.duration as nat), self.duration as nat),
                goal == old(self).model().seek(progress@),
            decreases n - i,
        {
            let child_duration = self.tweens[i].duration();
            if total - accum < child_duration {
                self.index = i;
                let local = Progress::new(total - accum, child_duration);
                self.tweens[i].set_progress(local);
                proof {
                    assert(active_child(children, total as nat, 0, 0) == i);
                    assert(goal matches Timeline::Sequence { children: kids, .. } && kids
                        =~= models(self.tweens@));
                }
                return ;
            }
            let end = Progress::one();
            self.tweens[i].set_progress(end);
            accum = accum + child_duration;
            i += 1;
        }

        // The time falls in no child: the sequence is exhausted.
        self.index = n;
        proof {
            assert(active_child(children, total as nat, 0, 0) == n);
            assert(goal matches Timeline::Sequence { children: kids, .. } && kids =~= models(
                self.tweens@,
            ));
        }
    }

    fn progress(&self) -> (p: Progress) {
        if self.duration == 0 {
            Progress::one()
        } else if self.time >= self.duration {
            Progress::new(self.duration, self.duration)
        } else {
            Progress::new(self.time, self.duration)
        }
    }

    fn tick(
        &mut self,
        delta: u64,
        target: &mut T,
        entity: Entity,
        events: &mut Vec<TweenCompleted>,
    ) -> (state: TweenState)
        decreases *old(self),
    {
        if self.index < self.tweens.len() {
            let mut state = TweenState::Active;
            let sum: u128 = self.time as u128 + delta as u128;
            self.time = if sum > self.duration as u128 {
                self.duration
            } else {
                sum as u64
            };
            let index = self.index;
            let ghost children = models(old(self).tweens@);
            let ghost child_step = children[index as int].step(
                delta as nat,
                *old(target),
                entity,
                old(events)@,
            );
            let ghost goal = old(self).model().step(
                delta as nat,
                *old(target),
                entity,
                old(events)@,
            );
            assert(children[index as int] == old(self).tweens@[index as int].model());
            let child_state = self.tweens[index].tick(delta, target, entity, events);
            assert(self.tweens@[index as int].model() == child_step.next);
            assert(child_state == child_step.state);
            if child_state == TweenState::Completed {
                self.tweens[index].rewind();
                self.index = index + 1;
                if self.index >= self.tweens.len() {
                    state = TweenState::Completed;
                    self.times_completed = 1;
                }
            }
            proof {
                assert(self.tweens@.len() == old(self).tweens@.len());
                assert(forall|j: int|
                    0 <= j < self.tweens@.len() && j != index ==> self.tweens@[j] == old(
                        self,
                    ).tweens@[j]);
                assert(models(self.tweens@) =~= children.update(
                    index as int,
                    self.tweens@[index as int].model(),
                ));
                assert(self.model() == goal.next);
                assert(state == goal.state);
                assert(*target == goal.target);
                assert(events@ == goal.events);
            }
            state
        } else {
            proof {
                assert(models(self.tweens@).len() == self.tweens@.len());
            }
            TweenState::Completed
        }
    }

    fn times_completed(&self) -> (n: u32) {
        self.times_completed
    }

    fn rewind(&mut self)
        decreases *old(self),
    {
        self.time = 0;
        self.index = 0;
        self.times_completed = 0;
        let mut i: usize = 0;
        while i < self.tweens.len()
            invariant
                self.tweens@.len() == old(self).tweens@.len(),
                i <= self.tweens@.len(),
                forall|j: int|
                    0 <= j < i ==> (#[trigger] self.tweens@[j]).model() == old(
                        self,
                    ).tweens@[j].model().rewind(),
                forall|j: int|
                    i <= j < self.tweens@.len() ==> self.tweens@[j] == old(self).tweens@[j],
                self.duration == old(self).duration,
                self.time == 0,
                self.index == 0,
                self.times_completed == 0,
            decreases self.tweens.len() - i,
        {
            self.tweens[i].rewind();
            i += 1;
        }
        proof {
            let children = models(old(self).tweens@);
            let rewound = Seq::new(
                children.len(),
                |i: int|
                    if 0 <= i < children.len() {
                        children[i].rewind()
                    } else {
                        children[0]
                    },
            );
            assert(forall|j: int|
                0 <= j < children.len() ==> children[j] == old(self).tweens@[j].model());
            assert(forall|j: int|
                0 <= j < children.len() ==> models(self.tweens@)[j] == self.tweens@[j].model());
            assert(rewound =~= models(self.tweens@));
            assert(old(self).model().rewind() matches Timeline::Sequence { children: kids, .. }
                && kids == rewound);
        }
    }
}

} // verus!
