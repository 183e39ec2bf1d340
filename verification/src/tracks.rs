//! Children played side by side.

use vstd::prelude::*;
use bevy::ecs::entity::Entity;
use crate::boxed::{box_all, models, models_of, BoxedTweenable, IntoBoxDynTweenable};
use crate::progress::Progress;
use crate::timeline::{
    lemma_step_tracks_shape, max_duration, step_tracks, Timeline,
};
use crate::tweenable::{Lens, TweenCompleted, TweenState, Tweenable};

verus! {

/// A collection of tweenables that play in parallel, each on the same
/// target and with the same time steps.
pub struct Tracks<T, L> {
    tracks: Vec<BoxedTweenable<T, L>>,
    duration: u64,
    time: u64,
    times_completed: u32,
}

impl<T: Send + Sync, L: Lens<T>> Tracks<T, L> {
    /// A parallel composition of the given children, at its start. It holds
    /// at least one child; its duration is the longest of theirs.
    pub fn new<U: IntoBoxDynTweenable<T, L>>(items: Vec<U>) -> (tracks: Self)
        requires
            items@.len() > 0,
        ensures
            tracks.model() == Timeline::tracks_of(models_of(items@)),
    {
        let ghost children = models_of(items@);
        let tracks = box_all(items);
        let mut duration: u64 = 0;
        let mut i: usize = 0;
        while i < tracks.len()
            invariant
                i <= tracks@.len(),
                children == models(tracks@),
                duration == max_duration(children, i as nat),
            decreases tracks.len() - i,
        {
            let d = tracks[i].duration();
            if d > duration {
                duration = d;
            }
            i += 1;
        }
        Tracks { tracks, duration, time: 0, times_completed: 0 }
    }
}

impl<T: Send + Sync, L: Lens<T>> Tweenable<T> for Tracks<T, L> {
    closed spec fn model(&self) -> Timeline<T>
        decreases *self,
    {
        Timeline::Tracks {
            children: models(self.tracks@),
            duration: self.duration as nat,
            time: self.time as nat,
            times_completed: self.times_completed as nat,
        }
    }

    fn duration(&self) -> (d: u64) {
        self.duration
    }

    fn is_looping(&self) -> (looping: bool) {
        false
    }

    fn set_progress(&mut self, progress: Progress)
        decreases *old(self),
    {
        let whole = progress.whole();
        self.times_completed = if whole > u32::MAX as u64 {
            u32::MAX
        } else {
            whole as u32
        };
        let scaled = progress.scale(self.duration);
        self.time = if scaled > self.duration as u128 {
            self.duration
        } else {
            scaled as u64
        };
    }

    fn progress(&self) -> (p: Progress) {
        if self.duration == 0 {
            Progress::one()
        } else if self.time >= self.duration {
            Progress::new(self.duration, self.duration)
        } else {
            Progress::new(self.time, self.duration)
        }
    }

    fn tick(
        &mut self,
        delta: u64,
        target: &mut T,
        entity: Entity,
        events: &mut Vec<TweenCompleted>,
    ) -> (state: TweenState)
        decreases *old(self),
    {
        let sum: u128 = self.time as u128 + delta as u128;
        self.time = if sum > self.duration as u128 {
            self.duration
        } else {
            sum as u64
        };
        let ghost children = models(old(self).tracks@);
        let mut any_active = false;
        let mut i: usize = 0;
        while i < self.tracks.len()
            invariant
                self.tracks@.len() == old(self).tracks@.len(),
                i <= self.tracks@.len(),
                children == models(old(self).tracks@),
                forall|j: int|
                    i <= j < self.tracks@.len() ==> self.tracks@[j] == old(self).tracks@[j],
                models(self.tracks@) =~= step_tracks(
                    children,
                    i as nat,
                    delta as nat,
                    *old(target),
                    entity,
                    old(events)@,
                ).children,
                any_active == step_tracks(
                    children,
                    i as nat,
                    delta as nat,
                    *old(target),
                    entity,
                    old(events)@,
                ).any_active,
                *target == step_tracks(
                    children,
                    i as nat,
                    delta as nat,
                    *old(target),
                    entity,
                    old(events)@,
                ).target,
                events@ == step_tracks(
                    children,
                    i as nat,
                    delta as nat,
                    *old(target),
                    entity,
                    old(events)@,
                ).events,
                self.duration == old(self).duration,
                self.times_completed == old(self).times_completed,
                self.time == crate::timeline::clamp_time(
                    (old(self).time + delta) as nat,
                    self.duration as nat,
                ),
            decreases self.tracks.len() - i,
        {
            let ghost before = step_tracks(
                children,
                i as nat,
                delta as nat,
                *old(target),
                entity,
                old(events)@,
            );
            let ghost kids = models(self.tracks@);
            proof {
                lemma_step_tracks_shape(
                    children,
                    i as nat,
                    delta as nat,
                    *old(target),
                    entity,
                    old(events)@,
                );
                assert(children[i as int] == old(self).tracks@[i as int].model());
            }
            let state = self.tracks[i].tick(delta, target, entity, events);
            any_active = any_active || state == TweenState::Active;
            proof {
                assert(models(self.tracks@) =~= kids.update(
                    i as int,
                    self.tracks@[i as int].model(),
                ));
            }
            i += 1;
        }
        if any_active {
            TweenState::Active
        } else {
            TweenState::Completed
        }
    }

    fn times_completed(&self) -> (n: u32) {
        self.times_completed
    }

    fn rewind(&mut self)
        decreases *old(self),
    {
        self.time = 0;
        self.times_completed = 0;
        let mut i: usize = 0;
        while i < self.tracks.len()
            invariant
                self.tracks@.len() == old(self).tracks@.len(),
                i <= self.tracks@.len(),
                forall|j: int|
                    0 <= j < i ==> (#[trigger] self.tracks@[j]).model() == old(
                        self,
                    ).tracks@[j].model().rewind(),
                forall|j: int|
                    i <= j < self.tracks@.len() ==> self.tracks@[j] == old(self).tracks@[j],
                self.duration == old(self).duration,
                self.time == 0,
                self.times_completed == 0,
            decreases self.tracks.len() - i,
        {
            self.tracks[i].rewind();
            i += 1;
        }
        proof {
            let children = models(old(self).tracks@);
            let rewound = Seq::new(
                children.len(),
                |i: int|
                    if 0 <= i < children.len() {
                        children[i].rewind()
                    } else {
                        children[0]
                    },
            );
            assert(forall|j: int|
                0 <= j < children.len() ==> children[j] == old(self).tracks@[j].model());
            assert(forall|j: int|
                0 <= j < children.len() ==> models(self.tracks@)[j] == self.tracks@[j].model());
            assert(rewound =~= models(self.tracks@));
            assert(old(self).model().rewind() matches Timeline::Tracks { children: kids, .. }
                && kids == rewound);
        }
    }
}

} // verus!
