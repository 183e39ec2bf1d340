//! Tweenables of any kind behind one type, as compositions hold them.

use vstd::prelude::*;
use bevy::ecs::entity::Entity;
use crate::delay::Delay;
use crate::progress::Progress;
use crate::sequence::Sequence;
use crate::timeline::Timeline;
use crate::tracks::Tracks;
use crate::tween::Tween;
use crate::tweenable::{Lens, TweenCompleted, TweenState, Tweenable};

verus! {

/// An owned tweenable of any kind: what a composition holds as a child.
pub enum BoxedTweenable<T, L> {
    /// A single animation.
    Tween(Tween<T, L>),
    /// A pause.
    Delay(Delay),
    /// Children played one after the other.
    Sequence(Sequence<T, L>),
    /// Children played side by side.
    Tracks(Tracks<T, L>),
}

/// The timelines that the children in `items` denote, in order.
pub open spec fn models<T: Send + Sync, L: Lens<T>>(items: Seq<BoxedTweenable<T, L>>) -> Seq<
    Timeline<T>,
>
    decreases items,
{
    Seq::new(
        items.len(),
        |i: int|
            if 0 <= i < items.len() {
                items[i].model()
            } else {
                arbitrary()
            },
    )
}

/// The timelines that the tweenables in `items` denote, in order.
pub open spec fn models_of<T, U: Tweenable<T>>(items: Seq<U>) -> Seq<Timeline<T>> {
    Seq::new(items.len(), |i: int| items[i].model())
}

/// Boxes every tweenable in `items`, keeping their order.
pub fn box_all<T: Send + Sync, L: Lens<T>, U: IntoBoxDynTweenable<T, L>>(items: Vec<U>) -> (boxed:
    Vec<BoxedTweenable<T, L>>)
    ensures
        models(boxed@) == models_of(items@),
{
    // Take the items from the back, then put them in order again.
    let mut rest = items;
    let mut reversed: Vec<BoxedTweenable<T, L>> = Vec::new();
    while rest.len() > 0
        invariant
            rest@.len() + reversed@.len() == items@.len(),
            rest@ == items@.subrange(0, rest@.len() as int),
            forall|j: int|
                0 <= j < reversed@.len() ==> (#[trigger] reversed@[j]).model() == items@[items@.len()
                    - 1 - j].model(),
        decreases rest.len(),
    {
        match rest.pop() {
            Some(item) => {
                reversed.push(U::into_box_dyn(item));
            },
            None => {},
        }
    }
    let mut boxed: Vec<BoxedTweenable<T, L>> = Vec::new();
    while reversed.len() > 0
        invariant
            reversed@.len() + boxed@.len() == items@.len(),
            forall|j: int|
                0 <= j < reversed@.len() ==> (#[trigger] reversed@[j]).model() == items@[items@.len()
                    - 1 - j].model(),
            forall|j: int|
                0 <= j < boxed@.len() ==> (#[trigger] boxed@[j]).model() == items@[j].model(),
        decreases reversed.len(),
    {
        match reversed.pop() {
            Some(item) => {
                boxed.push(item);
            },
            None => {},
        }
    }
    proof {
        assert(models(boxed@) =~= models_of(items@));
    }
    boxed
}

impl<T: Send + Sync, L: Lens<T>> Tweenable<T> for BoxedTweenable<T, L> {
    open spec fn model(&self) -> Timeline<T>
        decreases *self,
    {
        match *self {
            BoxedTweenable::Tween(t) => t.model(),
            BoxedTweenable::Delay(d) => d.model(),
            BoxedTweenable::Sequence(s) => s.model(),
            BoxedTweenable::Tracks(t) => t.model(),
        }
    }

    fn duration(&self) -> (d: u64) {
        match self {
            BoxedTweenable::Tween(t) => t.duration(),
            BoxedTweenable::Delay(d) => Tweenable::<T>::duration(d),
            BoxedTweenable::Sequence(s) => s.duration(),
            BoxedTweenable::Tracks(t) => t.duration(),
        }
    }

    fn is_looping(&self) -> (looping: bool) {
        match self {
            BoxedTweenable::Tween(t) => t.is_looping(),
            BoxedTweenable::Delay(d) => Tweenable::<T>::is_looping(d),
            BoxedTweenable::Sequence(s) => s.is_looping(),
            BoxedTweenable::Tracks(t) => t.is_looping(),
        }
    }

    fn set_progress(&mut self, progress: Progress)
        decreases *old(self),
    {
        match self {
            BoxedTweenable::Tween(t) => t.set_progress(progress),
            BoxedTweenable::Delay(d) => Tweenable::<T>::set_progress(d, progress),
            BoxedTweenable::Sequence(s) => s.set_progress(progress),
            BoxedTweenable::Tracks(t) => t.set_progress(progress),
        }
    }

    fn progress(&self) -> (p: Progress) {
        match self {
            BoxedTweenable::Tween(t) => t.progress(),
            BoxedTweenable::Delay(d) => Tweenable::<T>::progress(d),
            BoxedTweenable::Sequence(s) => s.progress(),
            BoxedTweenable::Tracks(t) => t.progress(),
        }
    }

    fn tick(
        &mut self,
        delta: u64,
        target: &mut T,
        entity: Entity,
        events: &mut Vec<TweenCompleted>,
    ) -> (state: TweenState)
        decreases *old(self),
    {
        match self {
            BoxedTweenable::Tween(t) => t.tick(delta, target, entity, events),
            BoxedTweenable::Delay(d) => d.tick(delta, target, entity, events),
            BoxedTweenable::Sequence(s) => s.tick(delta, target, entity, events),
            BoxedTweenable::Tracks(t) => t.tick(delta, target, entity, events),
        }
    }

    fn times_completed(&self) -> (n: u32) {
        match self {
            BoxedTweenable::Tween(t) => t.times_completed(),
            BoxedTweenable::Delay(d) => Tweenable::<T>::times_completed(d),
            BoxedTweenable::Sequence(s) => s.times_completed(),
            BoxedTweenable::Tracks(t) => t.times_completed(),
        }
    }

    fn rewind(&mut self)
        decreases *old(self),
    {
        match self {
            BoxedTweenable::Tween(t) => t.rewind(),
            BoxedTweenable::Delay(d) => Tweenable::<T>::rewind(d),
            BoxedTweenable::Sequence(s) => s.rewind(),
            BoxedTweenable::Tracks(t) => t.rewind(),
        }
    }
}

/// Conversion of a tweenable into an owned tweenable of any kind.
pub trait IntoBoxDynTweenable<T: Send + Sync, L: Lens<T>>: Tweenable<T> + Sized {
    /// Boxes `this`. The result denotes the same timeline.
    fn into_box_dyn(this: Self) -> (boxed: BoxedTweenable<T, L>)
        ensures
            boxed.model() == this.model(),
    ;
}

impl<T: Send + Sync, L: Lens<T>> IntoBoxDynTweenable<T, L> for BoxedTweenable<T, L> {
    fn into_box_dyn(this: Self) -> (boxed: BoxedTweenable<T, L>) {
        this
    }
}

impl<T: Send + Sync, L: Lens<T>> IntoBoxDynTweenable<T, L> for Tween<T, L> {
    fn into_box_dyn(this: Self) -> (boxed: BoxedTweenable<T, L>) {
        BoxedTweenable::Tween(this)
    }
}

impl<T: Send + Sync, L: Lens<T>> IntoBoxDynTweenable<T, L> for Delay {
    fn into_box_dyn(this: Self) -> (boxed: BoxedTweenable<T, L>) {
        BoxedTweenable::Delay(this)
    }
}

impl<T: Send + Sync, L: Lens<T>> IntoBoxDynTweenable<T, L> for Sequence<T, L> {
    fn into_box_dyn(this: Self) -> (boxed: BoxedTweenable<T, L>) {
        BoxedTweenable::Sequence(this)
    }
}

impl<T: Send + Sync, L: Lens<T>> IntoBoxDynTweenable<T, L> for Tracks<T, L> {
    fn into_box_dyn(this: Self) -> (boxed: BoxedTweenable<T, L>) {
        BoxedTweenable::Tracks(this)
    }
}

} // verus!
