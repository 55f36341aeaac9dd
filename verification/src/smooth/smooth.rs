use vstd::prelude::*;
use std::time::{Duration, Instant};
use super::Lerpable;

verus! {

#[verifier::external_type_specification]
#[verifier::external_body]
pub struct ExInstant(Instant);

/// The `Duration` that `Duration::from_millis` gives for a number of milliseconds.
pub uninterp spec fn millis_duration(millis: u64) -> Duration;

/// Calls `Duration::from_millis`, which builds a duration from a number of milliseconds;
/// the result is named by `millis_duration`.
#[verifier::external_body]
fn duration_from_millis(millis: u64) -> (duration: Duration)
    ensures
        duration == millis_duration(millis),
{
    Duration::from_millis(millis)
}

/// Calls `Instant::now`, which reads the clock. Nothing is claimed of the instant it
/// gives: it depends on when the call is made.
#[verifier::external_body]
fn instant_now() -> Instant {
    Instant::now()
}

/// How long a change takes to play out when nothing else is asked for: half a second.
pub fn default_smooth_duration() -> (duration: Duration)
    ensures
        duration == millis_duration(500),
{
    duration_from_millis(500)
}

/// A value that moves towards its latest setting over a duration. It keeps the setting
/// (`real_value`), the value the move started from (`previous_value`), when the move
/// started (`changed_at`) and how long it lasts (`duration_value`). How far along the move is, as a
/// blending scalar, comes from the clock; the blending itself is `T::lerp`.
pub struct Smooth<T: Lerpable + Copy> {
    data: T,
    previous: T,
    changed: Instant,
    duration: Duration,
}

impl<T: Lerpable + Copy> Smooth<T> {
    /// The latest setting.
    pub closed spec fn real_value(self) -> T {
        self.data
    }

    /// The value the current move started from.
    pub closed spec fn previous_value(self) -> T {
        self.previous
    }

    /// When the current move started.
    pub closed spec fn changed_at(self) -> Instant {
        self.changed
    }

    /// How long a move lasts.
    pub closed spec fn duration_value(self) -> Duration {
        self.duration
    }

    /// A value at rest at `initial`, whose moves last `duration`, or half a second when
    /// no duration is given; its (empty) move starts at `now`.
    pub fn new_at(initial: T, duration: Option<Duration>, now: Instant) -> (smooth: Self)
        ensures
            smooth.real_value() == initial,
            smooth.previous_value() == initial,
            smooth.duration_value() == match duration {
                Some(given) => given,
                None => millis_duration(500),
            },
            smooth.changed_at() == now,
    {
        let duration = match duration {
            Some(given) => given,
            None => default_smooth_duration(),
        };
        Smooth { data: initial, previous: initial, changed: now, duration }
    }

    /// A value at rest at `initial`, whose moves last `duration`, or half a second when
    /// no duration is given; its (empty) move starts now, at the instant the clock gives
    /// (`new_at` with that instant).
    pub fn new(initial: T, duration: Option<Duration>) -> (smooth: Self)
        ensures
            smooth.real_value() == initial,
            smooth.previous_value() == initial,
            smooth.duration_value() == match duration {
                Some(given) => given,
                None => millis_duration(500),
            },
    {
        Self::new_at(initial, duration, instant_now())
    }

    /// The latest setting, whatever the move has reached.
    pub fn get_real(&self) -> (setting: &T)
        ensures
            *setting == self.real_value(),
    {
        &self.data
    }

    /// The value shown when the move is `t` of the way along: the start of the move
    /// blended towards the setting by `t` (`T::lerp`).
    pub fn get_animated(&self, t: T::Scalar) -> (animated: T)
        ensures
            call_ensures(T::lerp, (&self.previous_value(), &self.real_value(), t), animated),
    {
        self.previous.lerp(&self.data, t)
    }

    /// Sets a new value at the instant `now`, when the current move is `t` of the way
    /// along: the new move starts from the value shown at that point, starts at `now`,
    /// and lasts as long as before.
    pub fn set_at(&mut self, new: T, t: T::Scalar, now: Instant)
        ensures
            final(self).real_value() == new,
            call_ensures(T::lerp, (&old(self).previous_value(), &old(self).real_value(), t), final(self).previous_value()),
            final(self).duration_value() == old(self).duration_value(),
            final(self).changed_at() == now,
    {
        let animated = self.get_animated(t);
        self.previous = animated;
        self.data = new;
        self.changed = now;
    }

    /// Sets a new value when the current move is `t` of the way along: the new move starts
    /// from the value shown at that point, starts now, at the instant the clock gives
    /// (`set_at` with that instant), and lasts as long as before.
    pub fn set(&mut self, new: T, t: T::Scalar)
        ensures
            final(self).real_value() == new,
            call_ensures(T::lerp, (&old(self).previous_value(), &old(self).real_value(), t), final(self).previous_value()),
            final(self).duration_value() == old(self).duration_value(),
    {
        self.set_at(new, t, instant_now());
    }

    /// The setting, to change in place; the rest stays as it is.
    pub fn manual_get_real(&mut self) -> (setting: &mut T)
        ensures
            *setting == old(self).real_value(),
            final(self).real_value() == *final(setting),
            final(self).previous_value() == old(self).previous_value(),
            final(self).changed_at() == old(self).changed_at(),
            final(self).duration_value() == old(self).duration_value(),
    {
        &mut self.data
    }

    /// The start of the current move, to change in place; the rest stays as it is.
    pub fn manual_get_previous(&mut self) -> (previous: &mut T)
        ensures
            *previous == old(self).previous_value(),
            final(self).previous_value() == *final(previous),
            final(self).real_value() == old(self).real_value(),
            final(self).changed_at() == old(self).changed_at(),
            final(self).duration_value() == old(self).duration_value(),
    {
        &mut self.previous
    }

    /// When the current move started.
    pub fn last_change(&self) -> (changed: &Instant)
        ensures
            *changed == self.changed_at(),
    {
        &self.changed
    }

    /// How long a move lasts.
    pub fn animation_duration(&self) -> (duration: &Duration)
        ensures
            *duration == self.duration_value(),
    {
        &self.duration
    }
}

/// True when `T::lerp` is a function of its arguments: two blends of the same values by
/// the same scalar agree.
pub open spec fn blends_deterministically<T: Lerpable>() -> bool {
    forall|a: T, b: T, scalar: T::Scalar, r1: T, r2: T|
        #[trigger] call_ensures(T::lerp, (&a, &b, scalar), r1) && #[trigger] call_ensures(T::lerp, (&a, &b, scalar), r2)
            ==> r1 == r2
}

/// True when blending by `scalar` stays at the value blended from.
pub open spec fn stays_at_start<T: Lerpable>(scalar: T::Scalar) -> bool {
    forall|a: T, b: T, r: T| #[trigger] call_ensures(T::lerp, (&a, &b, scalar), r) ==> r == a
}

/// Setting a new value does not make the shown value jump: for a blend that is a
/// function of its arguments and stays at its start at the scalar `start` (where a new
/// move begins), the value shown at the beginning of the new move (`shown_after`, what
/// `get_animated(start)` gives right after `set(new, t)`) is the value shown when the
/// new value was set (`shown`, what `get_animated(t)` gave just before).
pub proof fn lemma_set_does_not_jump<T: Lerpable + Copy>(
    before: Smooth<T>,
    after: Smooth<T>,
    new: T,
    t: T::Scalar,
    shown: T,
    start: T::Scalar,
    shown_after: T,
)
    requires
        blends_deterministically::<T>(),
        stays_at_start::<T>(start),
        call_ensures(T::lerp, (&before.previous_value(), &before.real_value(), t), shown),
        after.real_value() == new,
        call_ensures(T::lerp, (&before.previous_value(), &before.real_value(), t), after.previous_value()),
        call_ensures(T::lerp, (&after.previous_value(), &after.real_value(), start), shown_after),
    ensures
        shown_after == shown,
{
}

} // verus!
