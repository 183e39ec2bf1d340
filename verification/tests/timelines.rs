use bevy::prelude::Entity;
use std::sync::atomic::{AtomicU32, Ordering};
use std::sync::Arc;
use tweening::progress::Ratio;
use tweening::{
    BoxedTweenable, Delay, IntoBoxDynTweenable, Lens, Progress, Sequence, Tracks, Tween,
    TweenCallback, TweenCompleted, TweenSnapshot, TweenState, Tweenable, TweeningDirection,
    TweeningType,
};

const SECOND: u64 = 1_000_000_000;
const MS: u64 = 1_000_000;

/// A target that notes every position written into it, with the lens that
/// wrote it.
#[derive(Default, Debug, PartialEq)]
struct Trace {
    written: Vec<(char, u64, u64)>,
}

/// A lens that writes its tag and the position into a [`Trace`].
struct Tag(char);

impl Lens<Trace> for Tag {
    fn lerp_spec(&self, _target: Trace, _ratio: Ratio) -> Trace {
        unreachable!()
    }

    fn lerp(&self, target: &mut Trace, progress: Progress) {
        target.written.push((self.0, progress.num, progress.den));
    }
}

/// A callback that counts its calls.
struct Counter(Arc<AtomicU32>);

impl TweenCallback for Counter {
    fn call(&self, _entity: Entity, _tween: &TweenSnapshot) {
        self.0.fetch_add(1, Ordering::SeqCst);
    }
}

fn owner() -> Entity {
    Entity::from_raw(7)
}

fn tween(kind: TweeningType, duration: u64, tag: char) -> Tween<Trace, Tag> {
    Tween::new(kind, duration, Tag(tag))
}

#[test]
fn new_tween_is_at_its_start() {
    let t = tween(TweeningType::PingPong, 3 * SECOND, 'a');
    assert_eq!(t.duration(), 3 * SECOND);
    assert!(t.is_looping());
    assert_eq!(t.progress(), Progress::new(0, 3 * SECOND));
    assert_eq!(t.times_completed(), 0);
    assert_eq!(t.direction(), TweeningDirection::Forward);
    assert!(!tween(TweeningType::Once, SECOND, 'a').is_looping());
    assert!(tween(TweeningType::Loop, SECOND, 'a').is_looping());
}

#[test]
fn once_completes_at_exactly_its_duration() {
    let calls = Arc::new(AtomicU32::new(0));
    let mut t = tween(TweeningType::Once, SECOND, 'a').with_completed_event(true);
    t.set_completed(Counter(Arc::clone(&calls)));
    let mut target = Trace::default();
    let mut events: Vec<TweenCompleted> = Vec::new();

    assert_eq!(t.tick(SECOND, &mut target, owner(), &mut events), TweenState::Completed);
    assert_eq!(t.progress(), Progress::new(SECOND, SECOND));
    assert_eq!(t.times_completed(), 1);
    assert_eq!(target.written, vec![('a', SECOND, SECOND)]);
    assert_eq!(events.len(), 1);
    assert_eq!(events[0].entity, owner());
    assert_eq!(calls.load(Ordering::SeqCst), 1);

    // Beyond the end nothing happens any more.
    for delta in [0, 1, SECOND, u64::MAX] {
        assert_eq!(t.tick(delta, &mut target, owner(), &mut events), TweenState::Completed);
    }
    assert_eq!(t.progress(), Progress::new(SECOND, SECOND));
    assert_eq!(t.times_completed(), 1);
    assert_eq!(target.written.len(), 1);
    assert_eq!(events.len(), 1);
    assert_eq!(calls.load(Ordering::SeqCst), 1);
}

#[test]
fn once_stops_at_its_duration_when_stepped_beyond() {
    let mut t = tween(TweeningType::Once, SECOND, 'a');
    let mut target = Trace::default();
    let mut events = Vec::new();
    assert_eq!(t.tick(400 * MS, &mut target, owner(), &mut events), TweenState::Active);
    assert_eq!(t.progress(), Progress::new(400 * MS, SECOND));
    assert_eq!(t.tick(5 * SECOND, &mut target, owner(), &mut events), TweenState::Completed);
    assert_eq!(t.progress(), Progress::new(SECOND, SECOND));
    assert_eq!(target.written, vec![('a', 400 * MS, SECOND), ('a', SECOND, SECOND)]);
    // No event unless asked for.
    assert!(events.is_empty());
}

#[test]
fn loop_wraps_and_counts_passes() {
    let mut t = tween(TweeningType::Loop, SECOND, 'a');
    let mut target = Trace::default();
    let mut events = Vec::new();
    let delta = 300 * MS;
    for n in 1..=20u64 {
        assert_eq!(t.tick(delta, &mut target, owner(), &mut events), TweenState::Active);
        assert_eq!(t.progress(), Progress::new((n * delta) % SECOND, SECOND));
        assert_eq!(t.times_completed() as u64, (n * delta) / SECOND);
        assert_eq!(t.direction(), TweeningDirection::Forward);
        assert_eq!(target.written[n as usize - 1], ('a', (n * delta) % SECOND, SECOND));
    }
    assert_eq!(t.times_completed(), 6);
}

#[test]
fn loop_counts_every_pass_of_a_large_step() {
    let calls = Arc::new(AtomicU32::new(0));
    let mut t = tween(TweeningType::Loop, SECOND, 'a').with_completed_event(true);
    t.set_completed(Counter(Arc::clone(&calls)));
    let mut target = Trace::default();
    let mut events = Vec::new();
    assert_eq!(t.tick(3_500 * MS, &mut target, owner(), &mut events), TweenState::Active);
    assert_eq!(t.times_completed(), 3);
    assert_eq!(t.progress(), Progress::new(500 * MS, SECOND));
    // One event and one call for the step, whatever the number of passes.
    assert_eq!(events.len(), 1);
    assert_eq!(calls.load(Ordering::SeqCst), 1);
}

#[test]
fn completion_count_stops_at_the_largest_count() {
    let mut t = tween(TweeningType::Loop, 1, 'a');
    let mut target = Trace::default();
    let mut events = Vec::new();
    t.tick(u64::MAX, &mut target, owner(), &mut events);
    assert_eq!(t.times_completed(), u32::MAX);
    t.tick(10, &mut target, owner(), &mut events);
    assert_eq!(t.times_completed(), u32::MAX);
}

#[test]
fn ping_pong_turns_around_at_each_end() {
    let mut t = tween(TweeningType::PingPong, SECOND, 'a');
    let mut target = Trace::default();
    let mut events = Vec::new();
    let delta = 250 * MS;
    for n in 1..=17u64 {
        assert_eq!(t.tick(delta, &mut target, owner(), &mut events), TweenState::Active);
        let passes = (n * delta) / SECOND;
        let into = (n * delta) % SECOND;
        assert_eq!(t.times_completed() as u64, passes);
        if passes % 2 == 0 {
            assert_eq!(t.direction(), TweeningDirection::Forward);
            assert_eq!(t.progress(), Progress::new(into, SECOND));
        } else {
            assert_eq!(t.direction(), TweeningDirection::Backward);
            assert_eq!(t.progress(), Progress::new(SECOND - into, SECOND));
        }
    }
    // Two passes for each round trip.
    assert_eq!(t.times_completed(), 4);
}

#[test]
fn rewind_then_zero_step_writes_the_start() {
    for kind in [TweeningType::Once, TweeningType::Loop, TweeningType::PingPong] {
        let mut t = tween(kind, SECOND, 'a').with_completed_event(true);
        let mut target = Trace::default();
        let mut events = Vec::new();
        t.tick(1_300 * MS, &mut target, owner(), &mut events);
        assert_eq!(events.len(), 1);

        t.rewind();
        assert_eq!(t.progress(), Progress::new(0, SECOND));
        assert_eq!(t.times_completed(), 0);
        assert_eq!(t.direction(), TweeningDirection::Forward);

        let mut target = Trace::default();
        assert_eq!(t.tick(0, &mut target, owner(), &mut events), TweenState::Active);
        assert_eq!(target.written, vec![('a', 0, SECOND)]);
        assert_eq!(t.progress(), Progress::new(0, SECOND));
        // The event flag survives the rewind.
        assert_eq!(events.len(), 1);
        t.tick(SECOND, &mut target, owner(), &mut events);
        assert_eq!(events.len(), 2);
    }
}

#[test]
fn tween_of_no_duration_completes_with_the_first_step() {
    let mut t = tween(TweeningType::Once, 0, 'a');
    assert_eq!(t.progress(), Progress::new(1, 1));
    let mut target = Trace::default();
    let mut events = Vec::new();
    assert_eq!(t.tick(1, &mut target, owner(), &mut events), TweenState::Completed);
    assert_eq!(t.progress(), Progress::new(1, 1));
    assert_eq!(t.times_completed(), 1);
    assert_eq!(target.written, vec![('a', 1, 1)]);
    assert_eq!(t.tick(1, &mut target, owner(), &mut events), TweenState::Completed);
    assert_eq!(target.written.len(), 1);

    let mut d = Delay::new(0);
    assert_eq!(Tweenable::<Trace>::progress(&d), Progress::new(1, 1));
    assert_eq!(d.tick(0, &mut target, owner(), &mut events), TweenState::Completed);
}

#[test]
fn set_progress_moves_without_writing() {
    let mut t = tween(TweeningType::Once, SECOND, 'a');
    let mut target = Trace::default();
    let mut events = Vec::new();

    t.set_progress(Progress::new(1, 4));
    assert_eq!(t.progress(), Progress::new(250 * MS, SECOND));
    assert!(target.written.is_empty());
    assert_eq!(t.tick(0, &mut target, owner(), &mut events), TweenState::Active);
    assert_eq!(target.written, vec![('a', 250 * MS, SECOND)]);

    // At the end or beyond, the animation is finished at once.
    t.set_progress(Progress::new(3, 2));
    assert_eq!(t.progress(), Progress::new(SECOND, SECOND));
    assert_eq!(t.times_completed(), 0);
    assert_eq!(t.tick(0, &mut target, owner(), &mut events), TweenState::Completed);
    assert_eq!(target.written.len(), 1);

    // And it can be moved back.
    t.set_progress(Progress::new(1, 2));
    assert_eq!(t.tick(0, &mut target, owner(), &mut events), TweenState::Active);
    assert_eq!(target.written[1], ('a', 500 * MS, SECOND));
}

#[test]
fn set_progress_of_a_loop_wraps() {
    let mut t = tween(TweeningType::Loop, SECOND, 'a');
    t.set_progress(Progress::new(5, 2));
    assert_eq!(t.progress(), Progress::new(500 * MS, SECOND));
    assert_eq!(t.times_completed(), 0);
    assert_eq!(t.direction(), TweeningDirection::Forward);
}

#[test]
fn delay_counts_down_and_moves_nothing() {
    let mut d = Delay::new(SECOND);
    let mut target = Trace::default();
    let mut events = Vec::new();
    assert_eq!(Tweenable::<Trace>::duration(&d), SECOND);
    assert!(!Tweenable::<Trace>::is_looping(&d));
    assert_eq!(Tweenable::<Trace>::times_completed(&d), 0);
    assert_eq!(d.tick(600 * MS, &mut target, owner(), &mut events), TweenState::Active);
    assert_eq!(Tweenable::<Trace>::progress(&d), Progress::new(600 * MS, SECOND));
    assert_eq!(d.tick(600 * MS, &mut target, owner(), &mut events), TweenState::Completed);
    assert_eq!(Tweenable::<Trace>::progress(&d), Progress::new(SECOND, SECOND));
    assert_eq!(Tweenable::<Trace>::times_completed(&d), 1);
    assert_eq!(d.tick(600 * MS, &mut target, owner(), &mut events), TweenState::Completed);
    assert!(target.written.is_empty());
    assert!(events.is_empty());

    Tweenable::<Trace>::rewind(&mut d);
    assert_eq!(Tweenable::<Trace>::times_completed(&d), 0);
    assert_eq!(Tweenable::<Trace>::progress(&d), Progress::new(0, SECOND));
    Tweenable::<Trace>::set_progress(&mut d, Progress::new(1, 2));
    assert_eq!(Tweenable::<Trace>::progress(&d), Progress::new(500 * MS, SECOND));
    Tweenable::<Trace>::set_progress(&mut d, Progress::new(1, 1));
    assert_eq!(Tweenable::<Trace>::times_completed(&d), 1);
}

#[test]
fn durations_of_compositions() {
    let seq = Sequence::new(vec![
        tween(TweeningType::Once, SECOND, 'a'),
        tween(TweeningType::Once, 800 * MS, 'b'),
    ]);
    assert_eq!(seq.duration(), 1_800 * MS);
    let tracks = Tracks::new(vec![
        tween(TweeningType::Once, SECOND, 'a'),
        tween(TweeningType::Once, 800 * MS, 'b'),
    ]);
    assert_eq!(tracks.duration(), SECOND);
    let tracks = Tracks::new(vec![
        tween(TweeningType::Once, 800 * MS, 'b'),
        tween(TweeningType::Once, SECOND, 'a'),
    ]);
    assert_eq!(tracks.duration(), SECOND);

    // Appending adds up; stepping changes nothing.
    let mut seq = seq.then(Delay::new(200 * MS));
    assert_eq!(seq.duration(), 2 * SECOND);
    let mut target = Trace::default();
    let mut events = Vec::new();
    seq.tick(1_500 * MS, &mut target, owner(), &mut events);
    assert_eq!(seq.duration(), 2 * SECOND);
    assert!(!seq.is_looping());
    assert!(!tracks.is_looping());
}

#[test]
fn sequence_plays_its_children_in_order() {
    let mut seq = Sequence::from_single(tween(TweeningType::Once, SECOND, 'a'))
        .then(tween(TweeningType::Once, 2 * SECOND, 'b'));
    let mut target = Trace::default();
    let mut events = Vec::new();
    assert_eq!(seq.index(), 0);
    assert_eq!(seq.current().duration(), SECOND);
    assert_eq!(seq.progress(), Progress::new(0, 3 * SECOND));

    assert_eq!(seq.tick(600 * MS, &mut target, owner(), &mut events), TweenState::Active);
    assert_eq!(seq.index(), 0);
    assert_eq!(seq.progress(), Progress::new(600 * MS, 3 * SECOND));
    // The first child completes and is rewound; what its step had left over is not handed on.
    assert_eq!(seq.tick(600 * MS, &mut target, owner(), &mut events), TweenState::Active);
    assert_eq!(seq.index(), 1);
    assert_eq!(seq.current().duration(), 2 * SECOND);
    assert_eq!(seq.current().progress(), Progress::new(0, 2 * SECOND));
    assert_eq!(seq.times_completed(), 0);
    assert_eq!(seq.tick(600 * MS, &mut target, owner(), &mut events), TweenState::Active);
    assert_eq!(seq.tick(1_400 * MS, &mut target, owner(), &mut events), TweenState::Completed);
    assert_eq!(seq.times_completed(), 1);
    assert_eq!(seq.progress(), Progress::new(3 * SECOND, 3 * SECOND));
    // When exhausted, the last child counts as the current one.
    assert_eq!(seq.index(), 1);
    assert_eq!(seq.tick(600 * MS, &mut target, owner(), &mut events), TweenState::Completed);
    assert_eq!(
        target.written,
        vec![
            ('a', 600 * MS, SECOND),
            ('a', SECOND, SECOND),
            ('b', 600 * MS, 2 * SECOND),
            ('b', 2 * SECOND, 2 * SECOND),
        ]
    );
}

#[test]
fn sequence_time_stops_at_its_duration() {
    let mut seq = Sequence::from_single(tween(TweeningType::Once, SECOND, 'a'))
        .then(tween(TweeningType::Once, SECOND, 'b'));
    let mut target = Trace::default();
    let mut events = Vec::new();
    assert_eq!(seq.tick(5 * SECOND, &mut target, owner(), &mut events), TweenState::Active);
    assert_eq!(seq.progress(), Progress::new(2 * SECOND, 2 * SECOND));
    assert_eq!(seq.index(), 1);
}

#[test]
fn sequence_set_progress_finds_the_child() {
    let mut seq = Sequence::new(vec![
        tween(TweeningType::Once, SECOND, 'a'),
        tween(TweeningType::Once, 2 * SECOND, 'b'),
        tween(TweeningType::Once, SECOND, 'c'),
    ]);
    let mut target = Trace::default();
    let mut events = Vec::new();

    seq.set_progress(Progress::new(1, 2));
    assert_eq!(seq.progress(), Progress::new(2 * SECOND, 4 * SECOND));
    assert_eq!(seq.times_completed(), 0);
    assert_eq!(seq.index(), 1);
    assert_eq!(seq.current().progress(), Progress::new(SECOND, 2 * SECOND));
    assert!(target.written.is_empty());
    assert_eq!(seq.tick(0, &mut target, owner(), &mut events), TweenState::Active);
    assert_eq!(target.written, vec![('b', SECOND, 2 * SECOND)]);

    // A time on the border belongs to the child that begins there.
    seq.set_progress(Progress::new(1, 4));
    assert_eq!(seq.index(), 1);
    assert_eq!(seq.current().progress(), Progress::new(0, 2 * SECOND));
    seq.set_progress(Progress::new(0, 1));
    assert_eq!(seq.index(), 0);
    assert_eq!(seq.current().progress(), Progress::new(0, SECOND));

    // At the end and beyond, the sequence is exhausted.
    seq.set_progress(Progress::new(5, 2));
    assert_eq!(seq.times_completed(), 2);
    assert_eq!(seq.progress(), Progress::new(4 * SECOND, 4 * SECOND));
    assert_eq!(seq.index(), 2);
    assert_eq!(seq.current().progress(), Progress::new(SECOND, SECOND));
    assert_eq!(seq.tick(SECOND, &mut target, owner(), &mut events), TweenState::Completed);
    assert_eq!(target.written.len(), 1);
}

#[test]
fn sequence_rewind_starts_over() {
    let mut seq = tween(TweeningType::Once, SECOND, 'a').then(tween(TweeningType::Once, SECOND, 'b'));
    let mut target = Trace::default();
    let mut events = Vec::new();
    seq.tick(SECOND, &mut target, owner(), &mut events);
    seq.tick(SECOND, &mut target, owner(), &mut events);
    assert_eq!(seq.times_completed(), 1);
    seq.rewind();
    assert_eq!(seq.times_completed(), 0);
    assert_eq!(seq.index(), 0);
    assert_eq!(seq.progress(), Progress::new(0, 2 * SECOND));
    let mut target = Trace::default();
    assert_eq!(seq.tick(0, &mut target, owner(), &mut events), TweenState::Active);
    assert_eq!(target.written, vec![('a', 0, SECOND)]);
}

#[test]
fn delay_shifts_what_follows() {
    let mut seq = Delay::new(500 * MS).then(tween(TweeningType::Once, SECOND, 'a'));
    let mut target = Trace::default();
    let mut events = Vec::new();
    assert_eq!(seq.duration(), 1_500 * MS);
    assert_eq!(seq.tick(250 * MS, &mut target, owner(), &mut events), TweenState::Active);
    assert_eq!(seq.tick(250 * MS, &mut target, owner(), &mut events), TweenState::Active);
    assert!(target.written.is_empty());
    assert_eq!(seq.index(), 1);
    assert_eq!(seq.tick(250 * MS, &mut target, owner(), &mut events), TweenState::Active);
    assert_eq!(target.written, vec![('a', 250 * MS, SECOND)]);
}

#[test]
fn tracks_step_every_child() {
    let mut tracks = Tracks::new(vec![
        tween(TweeningType::Once, SECOND, 'a').with_completed_event(true),
        tween(TweeningType::Once, 500 * MS, 'b').with_completed_event(true),
    ]);
    let mut target = Trace::default();
    let mut events = Vec::new();
    assert_eq!(tracks.progress(), Progress::new(0, SECOND));
    assert_eq!(tracks.tick(400 * MS, &mut target, owner(), &mut events), TweenState::Active);
    assert_eq!(tracks.tick(400 * MS, &mut target, owner(), &mut events), TweenState::Active);
    assert_eq!(events.len(), 1);
    assert_eq!(tracks.progress(), Progress::new(800 * MS, SECOND));
    assert_eq!(tracks.tick(400 * MS, &mut target, owner(), &mut events), TweenState::Completed);
    assert_eq!(events.len(), 2);
    assert_eq!(tracks.progress(), Progress::new(SECOND, SECOND));
    assert_eq!(tracks.tick(400 * MS, &mut target, owner(), &mut events), TweenState::Completed);
    assert_eq!(
        target.written,
        vec![
            ('a', 400 * MS, SECOND),
            ('b', 400 * MS, 500 * MS),
            ('a', 800 * MS, SECOND),
            ('b', 500 * MS, 500 * MS),
            ('a', SECOND, SECOND),
        ]
    );
    // Stepping does not count passes of a parallel composition.
    assert_eq!(tracks.times_completed(), 0);
}

#[test]
fn tracks_with_a_loop_never_complete() {
    let mut tracks = Tracks::new(vec![
        tween(TweeningType::Once, SECOND, 'a'),
        tween(TweeningType::Loop, SECOND, 'b'),
    ]);
    let mut target = Trace::default();
    let mut events = Vec::new();
    for _ in 0..5 {
        assert_eq!(tracks.tick(SECOND, &mut target, owner(), &mut events), TweenState::Active);
    }
}

#[test]
fn tracks_set_progress_moves_the_shared_time_only() {
    let mut tracks = Tracks::new(vec![
        tween(TweeningType::Once, SECOND, 'a'),
        tween(TweeningType::Once, 500 * MS, 'b'),
    ]);
    let mut target = Trace::default();
    let mut events = Vec::new();
    tracks.set_progress(Progress::new(1, 4));
    assert_eq!(tracks.progress(), Progress::new(250 * MS, SECOND));
    assert_eq!(tracks.times_completed(), 0);
    tracks.tick(0, &mut target, owner(), &mut events);
    assert_eq!(target.written, vec![('a', 0, SECOND), ('b', 0, 500 * MS)]);
    tracks.set_progress(Progress::new(7, 2));
    assert_eq!(tracks.progress(), Progress::new(SECOND, SECOND));
    assert_eq!(tracks.times_completed(), 3);

    tracks.rewind();
    assert_eq!(tracks.progress(), Progress::new(0, SECOND));
    assert_eq!(tracks.times_completed(), 0);
}

#[test]
fn tracks_rewind_rewinds_every_child() {
    let mut tracks = Tracks::new(vec![
        tween(TweeningType::Once, SECOND, 'a'),
        tween(TweeningType::Once, 500 * MS, 'b'),
    ]);
    let mut target = Trace::default();
    let mut events = Vec::new();
    assert_eq!(tracks.tick(2 * SECOND, &mut target, owner(), &mut events), TweenState::Completed);
    tracks.rewind();
    let mut target = Trace::default();
    assert_eq!(tracks.tick(100 * MS, &mut target, owner(), &mut events), TweenState::Active);
    assert_eq!(target.written, vec![('a', 100 * MS, SECOND), ('b', 100 * MS, 500 * MS)]);
}

#[test]
fn compositions_nest() {
    let side_by_side = Tracks::new(vec![
        tween(TweeningType::Once, SECOND, 'a'),
        tween(TweeningType::Once, 2 * SECOND, 'b'),
    ]);
    let mut seq = Sequence::new(vec![
        IntoBoxDynTweenable::into_box_dyn(Delay::new(SECOND)),
        IntoBoxDynTweenable::into_box_dyn(side_by_side),
        IntoBoxDynTweenable::into_box_dyn(tween(TweeningType::Once, SECOND, 'c')),
    ]);
    assert_eq!(seq.duration(), 4 * SECOND);
    let mut target = Trace::default();
    let mut events = Vec::new();
    let mut states = Vec::new();
    for _ in 0..5 {
        states.push(seq.tick(SECOND, &mut target, owner(), &mut events));
    }
    assert_eq!(
        states,
        vec![
            TweenState::Active,
            TweenState::Active,
            TweenState::Active,
            TweenState::Completed,
            TweenState::Completed,
        ]
    );
    assert_eq!(
        target.written,
        vec![
            ('a', SECOND, SECOND),
            ('b', SECOND, 2 * SECOND),
            ('b', 2 * SECOND, 2 * SECOND),
            ('c', SECOND, SECOND),
        ]
    );

    // A jump into the nested composition moves its shared time.
    seq.set_progress(Progress::new(1, 2));
    assert_eq!(seq.index(), 1);
    assert_eq!(seq.current().progress(), Progress::new(SECOND, 2 * SECOND));
}

#[test]
fn boxed_tweenable_is_the_tweenable_inside() {
    let mut boxed: BoxedTweenable<Trace, Tag> =
        IntoBoxDynTweenable::into_box_dyn(tween(TweeningType::Loop, SECOND, 'a'));
    let mut target = Trace::default();
    let mut events = Vec::new();
    assert_eq!(boxed.duration(), SECOND);
    assert!(boxed.is_looping());
    assert_eq!(boxed.tick(1_250 * MS, &mut target, owner(), &mut events), TweenState::Active);
    assert_eq!(boxed.progress(), Progress::new(250 * MS, SECOND));
    assert_eq!(boxed.times_completed(), 1);
    boxed.set_progress(Progress::new(3, 4));
    assert_eq!(boxed.progress(), Progress::new(750 * MS, SECOND));
    boxed.rewind();
    assert_eq!(boxed.progress(), Progress::new(0, SECOND));
    assert_eq!(boxed.times_completed(), 0);
    let again: BoxedTweenable<Trace, Tag> = IntoBoxDynTweenable::into_box_dyn(boxed);
    assert_eq!(again.duration(), SECOND);
}

#[test]
fn callback_can_be_set_and_cleared() {
    let calls = Arc::new(AtomicU32::new(0));
    let mut t = tween(TweeningType::Loop, SECOND, 'a');
    let mut target = Trace::default();
    let mut events = Vec::new();
    t.set_completed(Counter(Arc::clone(&calls)));
    t.tick(SECOND, &mut target, owner(), &mut events);
    assert_eq!(calls.load(Ordering::SeqCst), 1);
    t.clear_completed();
    t.tick(SECOND, &mut target, owner(), &mut events);
    assert_eq!(calls.load(Ordering::SeqCst), 1);
    assert!(events.is_empty());
    t.set_completed_event(true);
    t.tick(SECOND, &mut target, owner(), &mut events);
    assert_eq!(events.len(), 1);
    t.set_completed_event(false);
    t.tick(SECOND, &mut target, owner(), &mut events);
    assert_eq!(events.len(), 1);
}

#[test]
fn direction_flips() {
    assert_eq!(TweeningDirection::Forward.flip(), TweeningDirection::Backward);
    assert_eq!(TweeningDirection::Backward.flip(), TweeningDirection::Forward);
}

#[test]
fn zero_step_keeps_the_position() {
    for kind in [TweeningType::Once, TweeningType::Loop, TweeningType::PingPong] {
        let mut t = tween(kind, SECOND, 'a').with_completed_event(true);
        let mut target = Trace::default();
        let mut events = Vec::new();
        t.tick(1_300 * MS, &mut target, owner(), &mut events);
        let before = (t.progress(), t.times_completed(), t.direction(), events.len());
        if kind == TweeningType::Once {
            continue;
        }
        let mut target = Trace::default();
        for _ in 0..3 {
            assert_eq!(t.tick(0, &mut target, owner(), &mut events), TweenState::Active);
            assert_eq!((t.progress(), t.times_completed(), t.direction(), events.len()), before);
        }
        let written = ('a', before.0.num, before.0.den);
        assert_eq!(target.written, vec![written, written, written]);
    }
}

#[test]
fn completion_is_final() {
    let mut seq = Sequence::new(vec![
        IntoBoxDynTweenable::into_box_dyn(Tracks::new(vec![
            tween(TweeningType::Once, SECOND, 'a').with_completed_event(true),
            tween(TweeningType::Once, 2 * SECOND, 'b').with_completed_event(true),
        ])),
        IntoBoxDynTweenable::into_box_dyn(Delay::new(SECOND)),
    ]);
    let mut target = Trace::default();
    let mut events = Vec::new();
    let mut steps = 0;
    while seq.tick(700 * MS, &mut target, owner(), &mut events) == TweenState::Active {
        steps += 1;
        assert!(steps < 100);
    }
    let written = target.written.len();
    let raised = events.len();
    for delta in [0, 1, SECOND, u64::MAX] {
        assert_eq!(seq.tick(delta, &mut target, owner(), &mut events), TweenState::Completed);
        assert_eq!(target.written.len(), written);
        assert_eq!(events.len(), raised);
    }
    assert_eq!(seq.times_completed(), 1);
}
