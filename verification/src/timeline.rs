//! The mathematical meaning of a timeline.
//!
//! A [`Timeline`] is the tree that a tweenable denotes. Every operation of
//! the engine is defined here as a function on that tree; the executable
//! types are proved to compute exactly these functions.

use vstd::prelude::*;
use bevy::ecs::entity::Entity;
use crate::progress::Ratio;
use crate::timer::TimerView;
use crate::tweenable::{TweenCompleted, TweenState, TweeningDirection, TweeningType};

verus! {

/// Largest count that a completion counter holds.
pub open spec fn max_count() -> nat {
    u32::MAX as nat
}

/// `n`, capped at the largest count.
pub open spec fn capped(n: nat) -> nat {
    if n > max_count() {
        max_count()
    } else {
        n
    }
}

/// The tree that a tweenable denotes.
#[verifier::reject_recursive_types(T)]
pub ghost enum Timeline<T> {
    /// A single animation.
    Tween {
        /// The timer that counts the current pass; it repeats unless the
        /// animation plays once.
        timer: TimerView,
        /// How the animation behaves at its end.
        kind: TweeningType,
        /// The direction in which it now plays.
        direction: TweeningDirection,
        /// The passes it has completed.
        times_completed: nat,
        /// Whether it appends an event when it completes a pass.
        raise_event: bool,
        /// What its lens makes of a target at a position.
        lens: spec_fn(T, Ratio) -> T,
    },
    /// A pause that moves nothing.
    Delay {
        /// The timer that counts the pause; it does not repeat.
        timer: TimerView,
    },
    /// Children played one after the other.
    Sequence {
        /// The children, in the order in which they play.
        children: Seq<Timeline<T>>,
        /// The child that is active; the number of children once the
        /// sequence is exhausted.
        index: nat,
        /// The time that all children take together.
        duration: nat,
        /// The time played so far, at most the duration.
        time: nat,
        /// The passes completed.
        times_completed: nat,
    },
    /// Children played side by side.
    Tracks {
        /// The children, in the order in which they are stepped.
        children: Seq<Timeline<T>>,
        /// The time that the longest child takes.
        duration: nat,
        /// The time played so far, at most the duration.
        time: nat,
        /// The passes completed.
        times_completed: nat,
    },
}

/// What one step of a timeline yields.
#[verifier::reject_recursive_types(T)]
pub ghost struct Step<T> {
    /// The timeline after the step.
    pub next: Timeline<T>,
    /// The state that the step reports.
    pub state: TweenState,
    /// The target after the step.
    pub target: T,
    /// The event queue after the step.
    pub events: Seq<TweenCompleted>,
}

/// What a step of the first children of a parallel composition yields.
#[verifier::reject_recursive_types(T)]
pub ghost struct TracksStep<T> {
    /// The children after the step.
    pub children: Seq<Timeline<T>>,
    /// Whether one of the children stepped so far is still active.
    pub any_active: bool,
    /// The target after the step.
    pub target: T,
    /// The event queue after the step.
    pub events: Seq<TweenCompleted>,
}

/// Sum of the first `n` durations.
pub open spec fn sum_durations<T>(children: Seq<Timeline<T>>, n: nat) -> nat
    decreases n,
{
    if n == 0 || n > children.len() {
        0
    } else {
        sum_durations(children, (n - 1) as nat) + children[n - 1].duration()
    }
}

/// Largest of the first `n` durations.
pub open spec fn max_duration<T>(children: Seq<Timeline<T>>, n: nat) -> nat
    decreases n,
{
    if n == 0 || n > children.len() {
        0
    } else {
        let rest = max_duration(children, (n - 1) as nat);
        let last = children[n - 1].duration();
        if last > rest {
            last
        } else {
            rest
        }
    }
}

/// Index of the first child, from `i` on, in which the time `total` falls,
/// where `accum` is the time that the children before `i` take. The number
/// of children if there is none.
pub open spec fn active_child<T>(children: Seq<Timeline<T>>, total: nat, i: nat, accum: nat) -> nat
    decreases children.len() - i,
{
    if i >= children.len() {
        children.len()
    } else if total < accum + children[i as int].duration() {
        i
    } else {
        active_child(children, total, i + 1, accum + children[i as int].duration())
    }
}

impl<T> Timeline<T> {
    /// Total time of one pass.
    pub open spec fn duration(self) -> nat {
        match self {
            Timeline::Tween { timer, .. } => timer.duration,
            Timeline::Delay { timer } => timer.duration,
            Timeline::Sequence { duration, .. } => duration,
            Timeline::Tracks { duration, .. } => duration,
        }
    }

    /// Whether the timeline plays forever.
    pub open spec fn is_looping(self) -> bool {
        match self {
            Timeline::Tween { kind, .. } => kind != TweeningType::Once,
            _ => false,
        }
    }

    /// Position inside the current pass. A timeline without extent counts as
    /// fully played.
    pub open spec fn progress(self) -> Ratio {
        match self {
            Timeline::Tween { timer, direction, .. } => match direction {
                TweeningDirection::Forward => timer.percent(),
                TweeningDirection::Backward => timer.percent_left(),
            },
            Timeline::Delay { timer } => timer.percent(),
            Timeline::Sequence { duration, time, .. } => whole_progress(time, duration),
            Timeline::Tracks { duration, time, .. } => whole_progress(time, duration),
        }
    }

    /// Number of passes completed.
    pub open spec fn times_completed(self) -> nat {
        match self {
            Timeline::Tween { times_completed, .. } => times_completed,
            Timeline::Delay { timer } => if timer.finished {
                1
            } else {
                0
            },
            Timeline::Sequence { times_completed, .. } => times_completed,
            Timeline::Tracks { times_completed, .. } => times_completed,
        }
    }

    /// The timeline back at its start: no time elapsed, first child active,
    /// playing forward, nothing completed, and every child rewound.
    pub open spec fn rewind(self) -> Timeline<T>
        decreases self,
    {
        match self {
            Timeline::Tween { timer, kind, raise_event, lens, .. } => Timeline::Tween {
                timer: timer.reset(),
                kind,
                direction: TweeningDirection::Forward,
                times_completed: 0,
                raise_event,
                lens,
            },
            Timeline::Delay { timer } => Timeline::Delay { timer: timer.reset() },
            Timeline::Sequence { children, duration, .. } => Timeline::Sequence {
                children: Seq::new(
                    children.len(),
                    |i: int|
                        if 0 <= i < children.len() {
                            children[i].rewind()
                        } else {
                            children[0]
                        },
                ),
                index: 0,
                duration,
                time: 0,
                times_completed: 0,
            },
            Timeline::Tracks { children, duration, .. } => Timeline::Tracks {
                children: Seq::new(
                    children.len(),
                    |i: int|
                        if 0 <= i < children.len() {
                            children[i].rewind()
                        } else {
                            children[0]
                        },
                ),
                duration,
                time: 0,
                times_completed: 0,
            },
        }
    }

    /// A single animation with its event flag set to `enabled`.
    pub open spec fn with_raise_event(self, enabled: bool) -> Timeline<T> {
        match self {
            Timeline::Tween { timer, kind, direction, times_completed, lens, .. } => {
                Timeline::Tween {
                    timer,
                    kind,
                    direction,
                    times_completed,
                    raise_event: enabled,
                    lens,
                }
            },
            _ => self,
        }
    }

    /// The direction in which a single animation plays; forward for
    /// everything else.
    pub open spec fn direction(self) -> TweeningDirection {
        match self {
            Timeline::Tween { direction, .. } => direction,
            _ => TweeningDirection::Forward,
        }
    }

    /// A sequence with `next` appended as its last child.
    pub open spec fn followed_by(self, next: Timeline<T>) -> Timeline<T> {
        match self {
            Timeline::Sequence { children, index, duration, time, times_completed } => {
                Timeline::Sequence {
                    children: children.push(next),
                    index,
                    duration: duration + next.duration(),
                    time,
                    times_completed,
                }
            },
            _ => self,
        }
    }

    /// A sequence of the given children, at its start.
    pub open spec fn sequence_of(children: Seq<Timeline<T>>) -> Timeline<T> {
        Timeline::Sequence {
            children,
            index: 0,
            duration: sum_durations(children, children.len()),
            time: 0,
            times_completed: 0,
        }
    }

    /// A parallel composition of the given children, at its start.
    pub open spec fn tracks_of(children: Seq<Timeline<T>>) -> Timeline<T> {
        Timeline::Tracks {
            children,
            duration: max_duration(children, children.len()),
            time: 0,
            times_completed: 0,
        }
    }

    /// The children of a composition; none for a single animation or a delay.
    pub open spec fn children(self) -> Seq<Timeline<T>> {
        match self {
            Timeline::Sequence { children, .. } => children,
            Timeline::Tracks { children, .. } => children,
            _ => Seq::empty(),
        }
    }

    /// The child of a sequence that is active, or the last one if the
    /// sequence is exhausted.
    pub open spec fn current_index(self) -> nat {
        match self {
            Timeline::Sequence { children, index, .. } => if index < children.len() {
                index
            } else {
                (children.len() - 1) as nat
            },
            _ => 0,
        }
    }

    /// The timeline after a jump to the position `p`.
    ///
    /// A single animation or a delay puts its timer where a timer started
    /// anew would be after `p` of the duration. A composition never loops: it
    /// notes the integer part of `p` as its completion count and moves to
    /// `p` of its duration, or to its end if `p` is above one. A sequence
    /// also makes the child in which that time falls active and moves it to
    /// its own share; the children before it are moved to their end and the
    /// children after it are left as they are. If the time falls in no
    /// child, the sequence is exhausted. The children of a parallel
    /// composition are left as they are.
    pub open spec fn seek(self, p: Ratio) -> Timeline<T>
        decreases self,
    {
        match self {
            Timeline::Tween { timer, kind, direction, times_completed, raise_event, lens } => {
                Timeline::Tween {
                    timer: timer.seek(p.scale(timer.duration)),
                    kind,
                    direction,
                    times_completed,
                    raise_event,
                    lens,
                }
            },
            Timeline::Delay { timer } => Timeline::Delay {
                timer: timer.seek(p.scale(timer.duration)),
            },
            Timeline::Sequence { children, duration, .. } => {
                let total = clamp_time(p.scale(duration), duration);
                let k = active_child(children, total, 0, 0);
                Timeline::Sequence {
                    children: Seq::new(
                        children.len(),
                        |i: int|
                            if 0 <= i < children.len() && i < k {
                                children[i].seek(Ratio::one())
                            } else if 0 <= i < children.len() && i == k {
                                children[i].seek(
                                    Ratio {
                                        num: (total - sum_durations(children, k)) as nat,
                                        den: children[i].duration(),
                                    },
                                )
                            } else {
                                children[i]
                            },
                    ),
                    index: k,
                    duration,
                    time: total,
                    times_completed: capped(p.whole()),
                }
            },
            Timeline::Tracks { children, duration, .. } => Timeline::Tracks {
                children,
                duration,
                time: clamp_time(p.scale(duration), duration),
                times_completed: capped(p.whole()),
            },
        }
    }

    /// What a step of `delta` yields, given the target and the event queue
    /// before it.
    ///
    /// A single animation that plays once and has finished does nothing and
    /// reports completion. Otherwise it advances its timer, turns around if
    /// it is a ping-pong that just reached an end, and writes the position
    /// it reached into the target. If its timer just finished, it adds the
    /// number of ends crossed to its completion count, appends an event if
    /// it raises events, and reports completion if it plays once.
    ///
    /// A delay advances its timer and reports completion once finished.
    ///
    /// A sequence that is exhausted does nothing and reports completion.
    /// Otherwise it advances its time, up to its duration, and steps the
    /// active child by the same `delta`. When that child completes, it is
    /// rewound and the next child becomes active; after the last child the
    /// sequence reports completion and counts one pass.
    ///
    /// A parallel composition advances its time, up to its duration, steps
    /// every child in order by the same `delta`, and reports completion when
    /// no child is still active.
    pub open spec fn step(
        self,
        delta: nat,
        target: T,
        entity: Entity,
        events: Seq<TweenCompleted>,
    ) -> Step<T>
        decreases self, 0nat,
    {
        match self {
            Timeline::Tween { timer, kind, direction, times_completed, raise_event, lens } => {
                if kind == TweeningType::Once && timer.finished {
                    Step { next: self, state: TweenState::Completed, target, events }
                } else {
                    let timer2 = timer.tick(delta);
                    let direction2 = if timer2.just_finished() && kind == TweeningType::PingPong {
                        direction.flipped()
                    } else {
                        direction
                    };
                    let moved = Timeline::Tween {
                        timer: timer2,
                        kind,
                        direction: direction2,
                        times_completed,
                        raise_event,
                        lens,
                    };
                    let target2 = lens(target, moved.progress());
                    if timer2.just_finished() {
                        Step {
                            next: Timeline::Tween {
                                timer: timer2,
                                kind,
                                direction: direction2,
                                times_completed: capped(times_completed + timer2.times_finished),
                                raise_event,
                                lens,
                            },
                            state: if kind == TweeningType::Once {
                                TweenState::Completed
                            } else {
                                TweenState::Active
                            },
                            target: target2,
                            events: if raise_event {
                                events.push(TweenCompleted { entity })
                            } else {
                                events
                            },
                        }
                    } else {
                        Step { next: moved, state: TweenState::Active, target: target2, events }
                    }
                }
            },
            Timeline::Delay { timer } => {
                let timer2 = timer.tick(delta);
                Step {
                    next: Timeline::Delay { timer: timer2 },
                    state: if timer2.finished {
                        TweenState::Completed
                    } else {
                        TweenState::Active
                    },
                    target,
                    events,
                }
            },
            Timeline::Sequence { children, index, duration, time, times_completed } => {
                if index >= children.len() {
                    Step { next: self, state: TweenState::Completed, target, events }
                } else {
                    let time2 = clamp_time(time + delta, duration);
                    let s = children[index as int].step(delta, target, entity, events);
                    if s.state == TweenState::Completed {
                        let done = index + 1 >= children.len();
                        Step {
                            next: Timeline::Sequence {
                                children: children.update(index as int, s.next.rewind()),
                                index: index + 1,
                                duration,
                                time: time2,
                                times_completed: if done {
                                    1
                                } else {
                                    times_completed
                                },
                            },
                            state: if done {
                                TweenState::Completed
                            } else {
                                TweenState::Active
                            },
                            target: s.target,
                            events: s.events,
                        }
                    } else {
                        Step {
                            next: Timeline::Sequence {
                                children: children.update(index as int, s.next),
                                index,
                                duration,
                                time: time2,
                                times_completed,
                            },
                            state: TweenState::Active,
                            target: s.target,
                            events: s.events,
                        }
                    }
                }
            },
            Timeline::Tracks { children, duration, time, times_completed } => {
                let r = step_tracks(children, children.len(), delta, target, entity, events);
                Step {
                    next: Timeline::Tracks {
                        children: r.children,
                        duration,
                        time: clamp_time(time + delta, duration),
                        times_completed,
                    },
                    state: if r.any_active {
                        TweenState::Active
                    } else {
                        TweenState::Completed
                    },
                    target: r.target,
                    events: r.events,
                }
            },
        }
    }

    /// What `n` steps of `delta` each yield, one after the other. Without
    /// any step the timeline counts as active.
    pub open spec fn steps(
        self,
        n: nat,
        delta: nat,
        target: T,
        entity: Entity,
        events: Seq<TweenCompleted>,
    ) -> Step<T>
        decreases n,
    {
        if n == 0 {
            Step { next: self, state: TweenState::Active, target, events }
        } else {
            let before = self.steps((n - 1) as nat, delta, target, entity, events);
            before.next.step(delta, before.target, entity, before.events)
        }
    }

    /// A single animation of the given kind and duration, at its start.
    pub open spec fn tween_of(
        kind: TweeningType,
        duration: nat,
        lens: spec_fn(T, Ratio) -> T,
    ) -> Timeline<T> {
        Timeline::Tween {
            timer: TimerView::fresh(duration, kind != TweeningType::Once),
            kind,
            direction: TweeningDirection::Forward,
            times_completed: 0,
            raise_event: false,
            lens,
        }
    }

    /// The states that a timeline built by this crate can be in.
    pub open spec fn wf(self) -> bool
        decreases self,
    {
        match self {
            Timeline::Tween { timer, kind, direction, times_completed, .. } => {
                &&& timer.wf()
                &&& timer.repeating == (kind != TweeningType::Once)
                &&& kind != TweeningType::PingPong ==> direction == TweeningDirection::Forward
                &&& times_completed <= max_count()
            },
            Timeline::Delay { timer } => timer.wf() && !timer.repeating,
            Timeline::Sequence { children, index, duration, time, times_completed } => {
                &&& children.len() > 0
                &&& forall|i: int| 0 <= i < children.len() ==> (#[trigger] children[i]).wf()
                &&& duration == sum_durations(children, children.len())
                &&& duration <= u64::MAX
                &&& time <= duration
                &&& index <= children.len()
                &&& times_completed <= max_count()
            },
            Timeline::Tracks { children, duration, time, times_completed } => {
                &&& children.len() > 0
                &&& forall|i: int| 0 <= i < children.len() ==> (#[trigger] children[i]).wf()
                &&& duration == max_duration(children, children.len())
                &&& time <= duration
                &&& times_completed <= max_count()
            },
        }
    }
}

/// `time`, but no later than `duration`.
pub open spec fn clamp_time(time: nat, duration: nat) -> nat {
    if time > duration {
        duration
    } else {
        time
    }
}

/// What a step of `delta` of the first `n` children of a parallel
/// composition yields: each is stepped in order, on the target and the event
/// queue that the one before it left.
pub open spec fn step_tracks<T>(
    children: Seq<Timeline<T>>,
    n: nat,
    delta: nat,
    target: T,
    entity: Entity,
    events: Seq<TweenCompleted>,
) -> TracksStep<T>
    decreases children, n,
{
    if n == 0 || n > children.len() {
        TracksStep { children, any_active: false, target, events }
    } else {
        let before = step_tracks(children, (n - 1) as nat, delta, target, entity, events);
        let s = children[n - 1].step(delta, before.target, entity, before.events);
        TracksStep {
            children: before.children.update(n - 1, s.next),
            any_active: before.any_active || s.state == TweenState::Active,
            target: s.target,
            events: s.events,
        }
    }
}

/// The sum of the first durations grows with their number.
pub proof fn lemma_sum_durations_grows<T>(children: Seq<Timeline<T>>, i: nat, n: nat)
    requires
        i <= n <= children.len(),
    ensures
        sum_durations(children, i) <= sum_durations(children, n),
    decreases n,
{
    if i < n {
        lemma_sum_durations_grows(children, i, (n - 1) as nat);
    }
}

/// A step of the first children of a parallel composition keeps their
/// number, and leaves the children after them as they are.
pub proof fn lemma_step_tracks_shape<T>(
    children: Seq<Timeline<T>>,
    n: nat,
    delta: nat,
    target: T,
    entity: Entity,
    events: Seq<TweenCompleted>,
)
    requires
        n <= children.len(),
    ensures
        step_tracks(children, n, delta, target, entity, events).children.len() == children.len(),
        forall|j: int|
            n <= j < children.len() ==> step_tracks(
                children,
                n,
                delta,
                target,
                entity,
                events,
            ).children[j] == children[j],
    decreases n,
{
    if n > 0 {
        lemma_step_tracks_shape(children, (n - 1) as nat, delta, target, entity, events);
    }
}

/// A sequence of one child followed by a second is the sequence of the two.
pub proof fn lemma_sequence_of_two<T>(first: Timeline<T>, second: Timeline<T>)
    ensures
        Timeline::sequence_of(seq![first]).followed_by(second) == Timeline::sequence_of(
            seq![first, second],
        ),
        Timeline::sequence_of(seq![first]).duration() == first.duration(),
{
    reveal_with_fuel(sum_durations, 3);
    assert(seq![first].push(second) =~= seq![first, second]);
}

/// Position `time` of `duration` in a composition.
pub open spec fn whole_progress(time: nat, duration: nat) -> Ratio {
    if duration == 0 {
        Ratio::one()
    } else if time >= duration {
        Ratio { num: duration, den: duration }
    } else {
        Ratio { num: time, den: duration }
    }
}

} // verus!
