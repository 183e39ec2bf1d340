//! A tweening engine: timelines that are advanced by a time step, move a
//! target value through a lens and report when they complete.
//!
//! A timeline is a single animation ([`Tween`]), a pause ([`Delay`]), or a
//! composition of timelines played one after the other ([`Sequence`]) or side
//! by side ([`Tracks`]). All of them are driven through [`Tweenable`].
//!
//! All times are whole nanoseconds, and positions inside a pass are exact
//! fractions ([`Progress`]).

pub mod boxed;
pub mod delay;
pub mod laws;
pub mod progress;
pub mod sequence;
pub mod timeline;
pub mod timer;
pub mod tracks;
pub mod tween;
pub mod tweenable;

pub use crate::boxed::{BoxedTweenable, IntoBoxDynTweenable};
pub use crate::delay::Delay;
pub use crate::progress::Progress;
pub use crate::sequence::Sequence;
pub use crate::timer::Timer;
pub use crate::tracks::Tracks;
pub use crate::tween::{Tween, TweenCallback, TweenSnapshot};
pub use crate::tweenable::{
    Lens, TweenCompleted, TweenState, Tweenable, TweeningDirection, TweeningType,
};
