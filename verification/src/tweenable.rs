//! The vocabulary shared by every kind of timeline, and the contract that
//! each of them meets.

use vstd::prelude::*;
use bevy::ecs::entity::Entity;
use crate::progress::{Progress, Ratio};
use crate::timeline::Timeline;

verus! {

/// Bevy's `Entity`: the identity of the object that owns an animation. It is
/// declared so that it can be carried through; the engine never looks inside
/// and claims nothing of it, it only hands the value on to events and
/// callbacks.
#[verifier::external_type_specification]
#[verifier::external_body]
pub struct ExEntity(bevy::ecs::entity::Entity);

/// Playback state reported by one step of a timeline.
#[derive(Debug, Clone, Copy, PartialEq, Eq, Structural)]
pub enum TweenState {
    /// The timeline has not reached its end.
    Active,
    /// The timeline has reached its end and idles there. Only timelines
    /// that do not loop ever report this.
    Completed,
}

/// How an animation behaves when it reaches its end.
#[derive(Debug, Clone, Copy, PartialEq, Eq, Structural)]
pub enum TweeningType {
    /// Play once and stop at the end.
    Once,
    /// Start over from the beginning, forever.
    Loop,
    /// Turn around at either end, forever.
    PingPong,
}

/// Direction in which an animation is currently played.
#[derive(Debug, Clone, Copy, PartialEq, Eq, Structural)]
pub enum TweeningDirection {
    /// From the start towards the end.
    Forward,
    /// From the end back towards the start.
    Backward,
}

impl TweeningDirection {
    /// The opposite direction.
    pub open spec fn flipped(self) -> TweeningDirection {
        match self {
            TweeningDirection::Forward => TweeningDirection::Backward,
            TweeningDirection::Backward => TweeningDirection::Forward,
        }
    }

    /// Swaps the two directions.
    pub fn flip(self) -> (r: TweeningDirection)
        ensures
            r == self.flipped(),
    {
        match self {
            TweeningDirection::Forward => TweeningDirection::Backward,
            TweeningDirection::Backward => TweeningDirection::Forward,
        }
    }
}

/// Event raised when an animation completed.
#[derive(Clone, Copy)]
pub struct TweenCompleted {
    /// The owner of the animation that completed.
    pub entity: Entity,
}

/// The capability that writes an interpolated value into a target.
///
/// The engine hands over the exact position inside the current pass; shaping
/// it with an easing curve and blending the target's fields is up to the
/// implementation. `lerp_spec` names the value that `lerp` leaves in the
/// target, so that the engine's own contracts can speak of it: an
/// implementation promises that `lerp` depends on nothing but the lens, the
/// target and the position, and changes nothing but the target. This is
/// taken on trust of every implementation that is not itself verified;
/// there `lerp_spec` is never run, and any body will do for it.
pub trait Lens<T>: Send + Sync {
    /// The target after interpolation at `ratio`.
    spec fn lerp_spec(&self, target: T, ratio: Ratio) -> T;

    /// Writes the state at `progress` into `target`.
    fn lerp(&self, target: &mut T, progress: Progress)
        requires
            progress@.valid(),
        ensures
            *final(target) == self.lerp_spec(*old(target), progress@),
    ;
}

/// Anything that can be advanced by a time step and move a target: a single
/// animation or a composition of them.
///
/// Every implementation denotes a [`Timeline`], and each operation is the
/// corresponding function on that timeline.
pub trait Tweenable<T>: Send + Sync {
    /// The timeline that this value denotes.
    spec fn model(&self) -> Timeline<T>;

    /// Total time of one pass. For a ping-pong animation this is one way
    /// only.
    fn duration(&self) -> (d: u64)
        ensures
            d == self.model().duration(),
    ;

    /// Whether the timeline plays forever.
    fn is_looping(&self) -> (looping: bool)
        ensures
            looping == self.model().is_looping(),
    ;

    /// Jumps to the position given by `progress`, without touching any
    /// target. A following step of zero writes the new position out.
    fn set_progress(&mut self, progress: Progress)
        requires
            progress@.valid(),
        ensures
            final(self).model() == old(self).model().seek(progress@),
    ;

    /// Position inside the current pass.
    fn progress(&self) -> (p: Progress)
        ensures
            p@.valid(),
            p@ == self.model().progress(),
    ;

    /// Advances by `delta`, writes the reached position into `target`, and
    /// appends to `events` one record for each animation that completed and
    /// raises events. A step of zero is valid: it writes the current
    /// position out.
    fn tick(
        &mut self,
        delta: u64,
        target: &mut T,
        entity: Entity,
        events: &mut Vec<TweenCompleted>,
    ) -> (state: TweenState)
        ensures
            ({
                let step = old(self).model().step(
                    delta as nat,
                    *old(target),
                    entity,
                    old(events)@,
                );
                &&& final(self).model() == step.next
                &&& state == step.state
                &&& *final(target) == step.target
                &&& final(events)@ == step.events
            }),
    ;

    /// Number of passes completed since the start or the last rewind.
    fn times_completed(&self) -> (n: u32)
        ensures
            n == self.model().times_completed(),
    ;

    /// Puts the timeline back to its starting state.
    fn rewind(&mut self)
        ensures
            final(self).model() == old(self).model().rewind(),
    ;
}

} // verus!
