//! What holds of every timeline, proved from the definitions.

use vstd::prelude::*;
use vstd::arithmetic::div_mod::{lemma_fundamental_div_mod, lemma_fundamental_div_mod_converse};
use bevy::ecs::entity::Entity;
use crate::progress::Ratio;
use crate::timeline::{
    active_child, capped, lemma_step_tracks_shape, max_duration, step_tracks, sum_durations, Step,
    Timeline,
};
use crate::timer::lemma_timer_wf;
use crate::tweenable::{TweenCompleted, TweenState, TweeningDirection, TweeningType};

verus! {

/// Replacing a child by one of the same duration keeps the sum of the
/// durations.
pub proof fn lemma_sum_durations_same<T>(a: Seq<Timeline<T>>, b: Seq<Timeline<T>>, n: nat)
    requires
        a.len() == b.len(),
        forall|i: int| 0 <= i < a.len() ==> a[i].duration() == b[i].duration(),
    ensures
        sum_durations(a, n) == sum_durations(b, n),
    decreases n,
{
    if n > 0 && n <= a.len() {
        lemma_sum_durations_same(a, b, (n - 1) as nat);
    }
}

/// Replacing a child by one of the same duration keeps the largest of the
/// durations.
pub proof fn lemma_max_duration_same<T>(a: Seq<Timeline<T>>, b: Seq<Timeline<T>>, n: nat)
    requires
        a.len() == b.len(),
        forall|i: int| 0 <= i < a.len() ==> a[i].duration() == b[i].duration(),
    ensures
        max_duration(a, n) == max_duration(b, n),
    decreases n,
{
    if n > 0 && n <= a.len() {
        lemma_max_duration_same(a, b, (n - 1) as nat);
    }
}

/// The child in which a time falls lies within the children, at or after
/// the one where the search starts.
pub proof fn lemma_active_child_bounds<T>(
    children: Seq<Timeline<T>>,
    total: nat,
    i: nat,
    accum: nat,
)
    requires
        i <= children.len(),
    ensures
        i <= active_child(children, total, i, accum) <= children.len(),
    decreases children.len() - i,
{
    if i < children.len() && total >= accum + children[i as int].duration() {
        lemma_active_child_bounds(
            children,
            total,
            i + 1,
            accum + children[i as int].duration(),
        );
    }
}

/// The child that a search from child `i` finds is the first one in which
/// the time falls: every child before it ends at or before the time, and
/// the child itself, if there is one, begins at or before it and ends after
/// it.
pub proof fn lemma_active_child_is_first<T>(
    children: Seq<Timeline<T>>,
    total: nat,
    i: nat,
    accum: nat,
)
    requires
        i <= children.len(),
        accum == sum_durations(children, i),
        accum <= total,
    ensures
        ({
            let k = active_child(children, total, i, accum);
            &&& i <= k <= children.len()
            &&& sum_durations(children, k) <= total
            &&& k < children.len() ==> total < sum_durations(children, k + 1)
            &&& forall|j: nat| i <= j < k ==> #[trigger] sum_durations(children, j + 1) <= total
        }),
    decreases children.len() - i,
{
    if i < children.len() && total >= accum + children[i as int].duration() {
        let next = accum + children[i as int].duration();
        lemma_active_child_is_first(children, total, i + 1, next);
        let k = active_child(children, total, i, accum);
        assert forall|j: nat| i <= j < k implies #[trigger] sum_durations(children, j + 1)
            <= total by {
            if j == i {
                assert(sum_durations(children, i + 1) == next);
            }
        }
    }
}

/// The duration of a parallel composition is that of its longest child:
/// no child lasts longer, and one child lasts exactly as long.
pub proof fn lemma_max_duration_is_the_largest<T>(children: Seq<Timeline<T>>, n: nat)
    requires
        0 < n <= children.len(),
    ensures
        forall|i: int| 0 <= i < n ==> (#[trigger] children[i]).duration() <= max_duration(children, n),
        exists|i: int| 0 <= i < n && (#[trigger] children[i]).duration() == max_duration(children, n),
    decreases n,
{
    if n > 1 {
        lemma_max_duration_is_the_largest(children, (n - 1) as nat);
        let rest = max_duration(children, (n - 1) as nat);
        let last = children[n - 1].duration();
        if last > rest {
            assert(children[n - 1].duration() == max_duration(children, n));
        } else {
            let i = choose|i: int|
                0 <= i < n - 1 && (#[trigger] children[i]).duration() == rest;
            assert(children[i].duration() == max_duration(children, n));
        }
    } else {
        assert(max_duration(children, 0) == 0);
        assert(children[0].duration() == max_duration(children, n));
    }
}

/// No operation changes the duration of a timeline.
pub proof fn lemma_duration_kept<T>(
    m: Timeline<T>,
    delta: nat,
    p: Ratio,
    target: T,
    entity: Entity,
    events: Seq<TweenCompleted>,
)
    ensures
        m.step(delta, target, entity, events).next.duration() == m.duration(),
        m.seek(p).duration() == m.duration(),
        m.rewind().duration() == m.duration(),
{
}

/// Rewinding keeps a timeline well-formed.
pub proof fn lemma_rewind_wf<T>(m: Timeline<T>)
    requires
        m.wf(),
    ensures
        m.rewind().wf(),
    decreases m,
{
    match m {
        Timeline::Tween { timer, .. } => {
            lemma_timer_wf(timer, 0);
        },
        Timeline::Delay { timer } => {
            lemma_timer_wf(timer, 0);
        },
        Timeline::Sequence { children, .. } => {
            let kids = m.rewind().children();
            assert forall|i: int| 0 <= i < kids.len() implies (#[trigger] kids[i]).wf()
                && kids[i].duration() == children[i].duration() by {
                lemma_rewind_wf(children[i]);
            }
            lemma_sum_durations_same(children, kids, children.len());
        },
        Timeline::Tracks { children, .. } => {
            let kids = m.rewind().children();
            assert forall|i: int| 0 <= i < kids.len() implies (#[trigger] kids[i]).wf()
                && kids[i].duration() == children[i].duration() by {
                lemma_rewind_wf(children[i]);
            }
            lemma_max_duration_same(children, kids, children.len());
        },
    }
}

/// A jump to any position keeps a timeline well-formed.
pub proof fn lemma_seek_wf<T>(m: Timeline<T>, p: Ratio)
    requires
        m.wf(),
    ensures
        m.seek(p).wf(),
    decreases m,
{
    match m {
        Timeline::Tween { timer, .. } => {
            lemma_timer_wf(timer, p.scale(timer.duration));
        },
        Timeline::Delay { timer } => {
            lemma_timer_wf(timer, p.scale(timer.duration));
        },
        Timeline::Sequence { children, duration, .. } => {
            let kids = m.seek(p).children();
            assert forall|i: int| 0 <= i < kids.len() implies (#[trigger] kids[i]).wf()
                && kids[i].duration() == children[i].duration() by {
                lemma_seek_wf(children[i], Ratio::one());
                lemma_seek_wf(
                    children[i],
                    Ratio {
                        num: (crate::timeline::clamp_time(p.scale(duration), duration)
                            - sum_durations(
                            children,
                            active_child(
                                children,
                                crate::timeline::clamp_time(p.scale(duration), duration),
                                0,
                                0,
                            ),
                        )) as nat,
                        den: children[i].duration(),
                    },
                );
            }
            lemma_sum_durations_same(children, kids, children.len());
            lemma_active_child_bounds(
                children,
                crate::timeline::clamp_time(p.scale(duration), duration),
                0,
                0,
            );
        },
        Timeline::Tracks { .. } => {},
    }
}

/// A step of the first children of a parallel composition keeps every child
/// well-formed and of the same duration.
pub proof fn lemma_step_tracks_wf<T>(
    children: Seq<Timeline<T>>,
    n: nat,
    delta: nat,
    target: T,
    entity: Entity,
    events: Seq<TweenCompleted>,
)
    requires
        n <= children.len(),
        forall|i: int| 0 <= i < children.len() ==> (#[trigger] children[i]).wf(),
    ensures
        step_tracks(children, n, delta, target, entity, events).children.len() == children.len(),
        forall|i: int|
            0 <= i < children.len() ==> (#[trigger] step_tracks(
                children,
                n,
                delta,
                target,
                entity,
                events,
            ).children[i]).wf(),
        forall|i: int|
            0 <= i < children.len() ==> (#[trigger] step_tracks(
                children,
                n,
                delta,
                target,
                entity,
                events,
            ).children[i]).duration() == children[i].duration(),
    decreases children, n,
{
    if n > 0 {
        lemma_step_tracks_wf(children, (n - 1) as nat, delta, target, entity, events);
        let before = step_tracks(children, (n - 1) as nat, delta, target, entity, events);
        lemma_step_wf(children[n - 1], delta, before.target, entity, before.events);
    }
}

/// A step keeps a timeline well-formed.
pub proof fn lemma_step_wf<T>(
    m: Timeline<T>,
    delta: nat,
    target: T,
    entity: Entity,
    events: Seq<TweenCompleted>,
)
    requires
        m.wf(),
    ensures
        m.step(delta, target, entity, events).next.wf(),
    decreases m, 0nat,
{
    match m {
        Timeline::Tween { timer, .. } => {
            lemma_timer_wf(timer, delta);
        },
        Timeline::Delay { timer } => {
            lemma_timer_wf(timer, delta);
        },
        Timeline::Sequence { children, index, .. } => {
            if index < children.len() {
                let s = children[index as int].step(delta, target, entity, events);
                lemma_step_wf(children[index as int], delta, target, entity, events);
                lemma_rewind_wf(s.next);
                let kids = m.step(delta, target, entity, events).next.children();
                assert forall|i: int| 0 <= i < kids.len() implies (#[trigger] kids[i]).wf()
                    && kids[i].duration() == children[i].duration() by {}
                lemma_sum_durations_same(children, kids, children.len());
            }
        },
        Timeline::Tracks { children, .. } => {
            lemma_step_tracks_wf(children, children.len(), delta, target, entity, events);
            let kids = m.step(delta, target, entity, events).next.children();
            lemma_max_duration_same(children, kids, children.len());
        },
    }
}

/// Adding a step to a time carries over into its count of whole periods
/// and its remainder.
pub proof fn lemma_period_carry(a: nat, delta: nat, d: nat)
    requires
        d > 0,
    ensures
        (a % d + delta) / d + a / d == (a + delta) / d,
        (a % d + delta) % d == (a + delta) % d,
{
    let e = a % d;
    let q = a / d;
    let q2 = (e + delta) / d;
    let r2 = (e + delta) % d;
    lemma_fundamental_div_mod(a as int, d as int);
    lemma_fundamental_div_mod((e + delta) as int, d as int);
    assert(a + delta == (q + q2) * d + r2) by (nonlinear_arith)
        requires
            a == d * q + e,
            e + delta == d * q2 + r2,
    ;
    lemma_fundamental_div_mod_converse((a + delta) as int, d as int, (q + q2) as int, r2 as int);
}

/// A time below the period holds no whole period and is its own remainder;
/// a time of at least the period holds one or more.
pub proof fn lemma_small_time(total: nat, d: nat)
    requires
        d > 0,
    ensures
        total < d ==> total / d == 0 && total % d == total,
        total >= d ==> total / d > 0,
        total % d < d,
{
    lemma_fundamental_div_mod(total as int, d as int);
    assert(total < d ==> total / d == 0) by (nonlinear_arith)
        requires
            d > 0,
    ;
    assert(total >= d ==> total / d > 0) by (nonlinear_arith)
        requires
            d > 0,
    ;
    assert(total % d < d) by (nonlinear_arith)
        requires
            d > 0,
    ;
}

/// An animation that plays once and has not finished completes with the
/// step that reaches its duration: the step reports completion, the
/// position is exactly one, that position is written into the target, one
/// pass is counted, and one event is appended if the animation raises
/// events.
pub proof fn lemma_once_completes<T>(
    m: Timeline<T>,
    delta: nat,
    target: T,
    entity: Entity,
    events: Seq<TweenCompleted>,
)
    requires
        m.wf(),
        m is Tween,
        m->kind == TweeningType::Once,
        !m->Tween_timer.finished,
        m->Tween_timer.elapsed + delta >= m.duration(),
    ensures
        ({
            let s = m.step(delta, target, entity, events);
            &&& s.state == TweenState::Completed
            &&& s.next.progress().is_one()
            &&& s.target == (m->lens)(target, s.next.progress())
            &&& s.next.times_completed() == capped(m.times_completed() + 1)
            &&& s.events == if m->raise_event {
                events.push(TweenCompleted { entity })
            } else {
                events
            }
        }),
{
}

/// An animation that plays once and has finished stays as it is: every
/// further step reports completion and changes neither the animation nor
/// the target nor the event queue.
pub proof fn lemma_once_stays_completed<T>(
    m: Timeline<T>,
    delta: nat,
    target: T,
    entity: Entity,
    events: Seq<TweenCompleted>,
)
    requires
        m is Tween,
        m->kind == TweeningType::Once,
        m->Tween_timer.finished,
    ensures
        m.step(delta, target, entity, events) == (Step {
            next: m,
            state: TweenState::Completed,
            target,
            events,
        }),
{
}

/// A fresh animation that plays once, stepped by exactly its duration,
/// completes at position one, and every step after that reports completion
/// again without any effect.
pub proof fn lemma_once_by_duration<T>(
    duration: nat,
    lens: spec_fn(T, Ratio) -> T,
    later: nat,
    target: T,
    entity: Entity,
    events: Seq<TweenCompleted>,
)
    requires
        duration <= u64::MAX,
    ensures
        ({
            let m = Timeline::tween_of(TweeningType::Once, duration, lens);
            let s = m.step(duration, target, entity, events);
            let again = s.next.step(later, s.target, entity, s.events);
            &&& s.state == TweenState::Completed
            &&& s.next.progress().is_one()
            &&& s.next.times_completed() == 1
            &&& again == (Step { next: s.next, state: TweenState::Completed, ..s })
        }),
{
}

/// A looping animation never reports completion.
pub proof fn lemma_looping_stays_active<T>(
    m: Timeline<T>,
    delta: nat,
    target: T,
    entity: Entity,
    events: Seq<TweenCompleted>,
)
    requires
        m.is_looping(),
    ensures
        m.step(delta, target, entity, events).state == TweenState::Active,
{
}

/// A fresh looping animation of duration `duration`, stepped `n` times by
/// `delta`, is `(n * delta) mod duration` into its current pass, has
/// completed `(n * delta) / duration` passes (as far as the counter goes),
/// and has reported no completion.
pub proof fn lemma_loop_after_steps<T>(
    duration: nat,
    lens: spec_fn(T, Ratio) -> T,
    n: nat,
    delta: nat,
    target: T,
    entity: Entity,
    events: Seq<TweenCompleted>,
)
    requires
        0 < duration <= u64::MAX,
    ensures
        ({
            let m = Timeline::tween_of(TweeningType::Loop, duration, lens);
            let s = m.steps(n, delta, target, entity, events);
            &&& s.state == TweenState::Active
            &&& s.next is Tween
            &&& s.next->Tween_timer.elapsed == (n * delta) % duration
            &&& s.next.progress() == (Ratio { num: (n * delta) % duration, den: duration })
            &&& s.next.times_completed() == capped((n * delta) / duration)
            &&& s.next.direction() == TweeningDirection::Forward
            &&& s.next.wf()
            &&& s.next->kind == TweeningType::Loop
            &&& s.next.duration() == duration
        }),
    decreases n,
{
    let m = Timeline::tween_of(TweeningType::Loop, duration, lens);
    if n == 0 {
        assert(0 * delta == 0) by (nonlinear_arith);
        assert(0nat % duration == 0 && 0nat / duration == 0) by (nonlinear_arith)
            requires
                duration > 0,
        ;
    } else {
        lemma_loop_after_steps(duration, lens, (n - 1) as nat, delta, target, entity, events);
        let before = m.steps((n - 1) as nat, delta, target, entity, events);
        let a = ((n - 1) as nat) * delta;
        assert(a + delta == n * delta) by (nonlinear_arith)
            requires
                a == ((n - 1) as nat) * delta,
                n > 0,
        ;
        lemma_period_carry(a, delta, duration);
        lemma_timer_wf(before.next->Tween_timer, delta);
        lemma_small_time(a % duration + delta, duration);
    }
}

/// One step of a well-formed ping-pong animation that crosses an end turns
/// the direction around; one that crosses none keeps it.
/// The count of passes grows by the number of ends crossed.
pub proof fn lemma_ping_pong_step<T>(
    m: Timeline<T>,
    delta: nat,
    target: T,
    entity: Entity,
    events: Seq<TweenCompleted>,
)
    requires
        m.wf(),
        m is Tween,
        m->kind == TweeningType::PingPong,
        m.duration() > 0,
    ensures
        ({
            let s = m.step(delta, target, entity, events);
            let crossed = (m->Tween_timer.elapsed + delta) / m.duration();
            &&& s.state == TweenState::Active
            &&& s.next.direction() == if crossed > 0 {
                m.direction().flipped()
            } else {
                m.direction()
            }
            &&& s.next.times_completed() == capped(m.times_completed() + capped(crossed))
        }),
{
    lemma_small_time(m->Tween_timer.elapsed + delta, m.duration());
}

/// A fresh ping-pong animation of duration `duration`, stepped `n` times by
/// a `delta` of at most the duration, has completed `(n * delta) /
/// duration` passes (as far as the counter goes) and plays forward exactly
/// when that number is even: it turns around at each multiple of the
/// duration and counts one pass each way.
pub proof fn lemma_ping_pong_after_steps<T>(
    duration: nat,
    lens: spec_fn(T, Ratio) -> T,
    n: nat,
    delta: nat,
    target: T,
    entity: Entity,
    events: Seq<TweenCompleted>,
)
    requires
        0 < duration <= u64::MAX,
        delta <= duration,
    ensures
        ({
            let m = Timeline::tween_of(TweeningType::PingPong, duration, lens);
            let s = m.steps(n, delta, target, entity, events);
            let passes = (n * delta) / duration;
            &&& s.state == TweenState::Active
            &&& s.next is Tween
            &&& s.next->Tween_timer.elapsed == (n * delta) % duration
            &&& s.next.times_completed() == capped(passes)
            &&& s.next.direction() == if passes % 2 == 0 {
                TweeningDirection::Forward
            } else {
                TweeningDirection::Backward
            }
            &&& s.next.wf()
            &&& s.next->kind == TweeningType::PingPong
            &&& s.next.duration() == duration
        }),
    decreases n,
{
    let m = Timeline::tween_of(TweeningType::PingPong, duration, lens);
    if n == 0 {
        assert(0 * delta == 0) by (nonlinear_arith);
        assert(0nat % duration == 0 && 0nat / duration == 0) by (nonlinear_arith)
            requires
                duration > 0,
        ;
    } else {
        lemma_ping_pong_after_steps(duration, lens, (n - 1) as nat, delta, target, entity, events);
        let before = m.steps((n - 1) as nat, delta, target, entity, events);
        let a = ((n - 1) as nat) * delta;
        assert(a + delta == n * delta) by (nonlinear_arith)
            requires
                a == ((n - 1) as nat) * delta,
                n > 0,
        ;
        lemma_period_carry(a, delta, duration);
        lemma_timer_wf(before.next->Tween_timer, delta);
        lemma_ping_pong_step(before.next, delta, before.target, entity, before.events);
        let e = a % duration;
        lemma_small_time(e + delta, duration);
        assert(e < duration) by (nonlinear_arith)
            requires
                duration > 0,
                e == a % duration,
        ;
        assert((e + delta) / duration <= 1) by (nonlinear_arith)
            requires
                duration > 0,
                e < duration,
                delta <= duration,
        ;
    }
}

/// A step never lowers the count of passes of a single animation.
pub proof fn lemma_count_never_falls<T>(
    m: Timeline<T>,
    delta: nat,
    target: T,
    entity: Entity,
    events: Seq<TweenCompleted>,
)
    requires
        m.wf(),
        m is Tween,
    ensures
        m.step(delta, target, entity, events).next.times_completed() >= m.times_completed(),
{
}

/// A step of zero moves nothing in time: an animation that is not at its
/// end stays at its position, writes that position into the target and
/// reports itself active, with no pass counted and no event raised.
pub proof fn lemma_zero_step_keeps_position<T>(
    m: Timeline<T>,
    target: T,
    entity: Entity,
    events: Seq<TweenCompleted>,
)
    requires
        m.wf(),
        m is Tween,
        m->Tween_timer.elapsed < m.duration(),
    ensures
        ({
            let s = m.step(0, target, entity, events);
            &&& s.state == TweenState::Active
            &&& s.next is Tween
            &&& s.next->Tween_timer.elapsed == m->Tween_timer.elapsed
            &&& s.next.progress() == m.progress()
            &&& s.next.direction() == m.direction()
            &&& s.next.times_completed() == m.times_completed()
            &&& s.target == (m->lens)(target, m.progress())
            &&& s.events == events
        }),
{
}

/// In a step of the children of a parallel composition, each child is
/// stepped on what the children before it left, and if no child is active
/// after the step, each of them has reported completion.
pub proof fn lemma_step_tracks_child<T>(
    children: Seq<Timeline<T>>,
    n: nat,
    i: nat,
    delta: nat,
    target: T,
    entity: Entity,
    events: Seq<TweenCompleted>,
)
    requires
        i < n <= children.len(),
    ensures
        ({
            let all = step_tracks(children, n, delta, target, entity, events);
            let before = step_tracks(children, i, delta, target, entity, events);
            let s = children[i as int].step(delta, before.target, entity, before.events);
            &&& all.children[i as int] == s.next
            &&& !all.any_active ==> s.state == TweenState::Completed
        }),
    decreases n,
{
    lemma_step_tracks_shape(children, i, delta, target, entity, events);
    if i + 1 < n {
        lemma_step_tracks_child(children, (n - 1) as nat, i, delta, target, entity, events);
        lemma_step_tracks_shape(children, (n - 1) as nat, delta, target, entity, events);
    }
}

/// Once every child of a parallel composition has reported completion, a
/// further step of its first children leaves none of them active and
/// changes neither the target nor the event queue.
pub proof fn lemma_tracks_completion_is_stable<T>(
    children: Seq<Timeline<T>>,
    n: nat,
    first: nat,
    target: T,
    entity: Entity,
    events: Seq<TweenCompleted>,
    second: nat,
    later_target: T,
    later_events: Seq<TweenCompleted>,
)
    requires
        n <= children.len(),
        forall|i: int| 0 <= i < children.len() ==> (#[trigger] children[i]).wf(),
        !step_tracks(children, children.len(), first, target, entity, events).any_active,
    ensures
        ({
            let done = step_tracks(children, children.len(), first, target, entity, events);
            let again = step_tracks(
                done.children,
                n,
                second,
                later_target,
                entity,
                later_events,
            );
            &&& !again.any_active
            &&& again.target == later_target
            &&& again.events == later_events
        }),
    decreases children, n,
{
    let done = step_tracks(children, children.len(), first, target, entity, events);
    lemma_step_tracks_shape(children, children.len(), first, target, entity, events);
    if n > 0 {
        lemma_tracks_completion_is_stable(
            children,
            (n - 1) as nat,
            first,
            target,
            entity,
            events,
            second,
            later_target,
            later_events,
        );
        lemma_step_tracks_child(
            children,
            children.len(),
            (n - 1) as nat,
            first,
            target,
            entity,
            events,
        );
        let before = step_tracks(children, (n - 1) as nat, first, target, entity, events);
        let again = step_tracks(
            done.children,
            (n - 1) as nat,
            second,
            later_target,
            entity,
            later_events,
        );
        lemma_completion_is_stable(
            children[n - 1],
            first,
            before.target,
            entity,
            before.events,
            second,
            again.target,
            again.events,
        );
    }
}

/// Completion is final: once a step of a well-formed timeline has reported
/// completion, every further step, on whatever target and event queue,
/// reports completion again and changes neither of them.
pub proof fn lemma_completion_is_stable<T>(
    m: Timeline<T>,
    first: nat,
    target: T,
    entity: Entity,
    events: Seq<TweenCompleted>,
    second: nat,
    later_target: T,
    later_events: Seq<TweenCompleted>,
)
    requires
        m.wf(),
        m.step(first, target, entity, events).state == TweenState::Completed,
    ensures
        ({
            let done = m.step(first, target, entity, events);
            let again = done.next.step(second, later_target, entity, later_events);
            &&& again.state == TweenState::Completed
            &&& again.target == later_target
            &&& again.events == later_events
        }),
    decreases m, 0nat,
{
    match m {
        Timeline::Tween { timer, .. } => {
            lemma_timer_wf(timer, first);
        },
        Timeline::Delay { timer } => {
            lemma_timer_wf(timer, first);
        },
        Timeline::Sequence { .. } => {},
        Timeline::Tracks { children, .. } => {
            lemma_step_tracks_shape(children, children.len(), first, target, entity, events);
            lemma_tracks_completion_is_stable(
                children,
                children.len(),
                first,
                target,
                entity,
                events,
                second,
                later_target,
                later_events,
            );
        },
    }
}

/// After a rewind an animation of positive duration is at position zero,
/// and a step of zero writes that position into the target, reports the
/// animation as active and changes nothing else.
pub proof fn lemma_rewind_then_zero_step<T>(
    m: Timeline<T>,
    target: T,
    entity: Entity,
    events: Seq<TweenCompleted>,
)
    requires
        m is Tween,
        m.duration() > 0,
    ensures
        ({
            let r = m.rewind();
            let s = r.step(0, target, entity, events);
            &&& r.progress().is_zero()
            &&& r.times_completed() == 0
            &&& r.direction() == TweeningDirection::Forward
            &&& s.target == (m->lens)(target, r.progress())
            &&& s.state == TweenState::Active
            &&& s.next == r
            &&& s.events == events
        }),
{
}

/// A sequence built from its children lasts as long as all of them
/// together, and a parallel composition as long as the longest of them;
/// both are well-formed if their children are.
pub proof fn lemma_composition_durations<T>(children: Seq<Timeline<T>>)
    requires
        children.len() > 0,
        forall|i: int| 0 <= i < children.len() ==> (#[trigger] children[i]).wf(),
    ensures
        Timeline::sequence_of(children).duration() == sum_durations(children, children.len()),
        Timeline::tracks_of(children).duration() == max_duration(children, children.len()),
        sum_durations(children, children.len()) <= u64::MAX ==> Timeline::sequence_of(
            children,
        ).wf(),
        Timeline::tracks_of(children).wf(),
{
}

/// In every well-formed timeline, a sequence lasts as long as its children
/// together and a parallel composition as long as its longest child; every
/// operation keeps it so.
pub proof fn lemma_durations_add_up<T>(
    m: Timeline<T>,
    delta: nat,
    p: Ratio,
    target: T,
    entity: Entity,
    events: Seq<TweenCompleted>,
)
    requires
        m.wf(),
    ensures
        m is Sequence ==> m.duration() == sum_durations(m.children(), m.children().len()),
        m is Tracks ==> m.duration() == max_duration(m.children(), m.children().len()),
        m.step(delta, target, entity, events).next.wf(),
        m.seek(p).wf(),
        m.rewind().wf(),
{
    lemma_step_wf(m, delta, target, entity, events);
    lemma_seek_wf(m, p);
    lemma_rewind_wf(m);
}

} // verus!
