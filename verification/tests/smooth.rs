use photosquid::smooth::{default_smooth_duration, CircleLerpable, Lerpable, MultiLerp, NoLerp, Smooth};
use std::time::{Duration, Instant};

/// A fixed-point number for the tests: blending moves by `scalar` hundredths of the way.
#[derive(Copy, Clone, Debug, PartialEq, Default)]
struct Fixed(i64);

impl Lerpable for Fixed {
    type Scalar = i64;

    fn lerp(&self, other: &Self, scalar: i64) -> Self {
        Fixed(self.0 + (other.0 - self.0) * scalar / 100)
    }
}

impl CircleLerpable for Fixed {
    type Origin = i64;
    type Scalar = i64;

    fn circle_lerp(&self, other: &Self, origin: i64, scalar: i64) -> Self {
        Fixed(origin + self.0 + (other.0 - self.0) * scalar / 100)
    }
}

#[test]
fn multi_lerp_reveals_the_value_of_every_kind() {
    assert_eq!(MultiLerp::From(Fixed(1)).reveal_value(), Fixed(1));
    assert_eq!(MultiLerp::Linear(Fixed(2)).reveal_value(), Fixed(2));
    assert_eq!(MultiLerp::Circle(Fixed(3), 9).reveal_value(), Fixed(3));
}

#[test]
fn multi_lerp_blends_linearly_towards_a_linear_value() {
    let blended = MultiLerp::Linear(Fixed(0)).lerp(&MultiLerp::Linear(Fixed(100)), 25);
    assert!(matches!(blended, MultiLerp::From(Fixed(25))));
}

#[test]
fn multi_lerp_blends_around_the_origin_towards_a_circle_value() {
    let blended = MultiLerp::From(Fixed(0)).lerp(&MultiLerp::Circle(Fixed(100), 1000), 50);
    assert!(matches!(blended, MultiLerp::From(Fixed(1050))));
}

#[test]
fn multi_lerp_jumps_to_a_from_value() {
    let blended = MultiLerp::Linear(Fixed(0)).lerp(&MultiLerp::From(Fixed(100)), 25);
    assert!(matches!(blended, MultiLerp::From(Fixed(100))));
}

#[test]
fn multi_lerp_default_is_linear() {
    let value: MultiLerp<Fixed> = Default::default();
    assert!(matches!(value, MultiLerp::Linear(Fixed(0))));
}

#[test]
fn no_lerp_jumps_to_the_target() {
    let blended = NoLerp(Fixed(0)).lerp(&NoLerp(Fixed(100)), 25);
    assert_eq!(blended.0, Fixed(100));
    assert_eq!(*NoLerp(Fixed(7)), Fixed(7));
}

#[test]
fn smooth_moves_last_half_a_second_by_default() {
    assert_eq!(default_smooth_duration(), Duration::from_millis(500));
    let smooth = Smooth::new(Fixed(3), None);
    assert_eq!(*smooth.animation_duration(), Duration::from_millis(500));
    let smooth = Smooth::new(Fixed(3), Some(Duration::from_millis(20)));
    assert_eq!(*smooth.animation_duration(), Duration::from_millis(20));
}

#[test]
fn smooth_starts_at_rest() {
    let smooth = Smooth::new(Fixed(40), None);
    assert_eq!(*smooth.get_real(), Fixed(40));
    assert_eq!(smooth.get_animated(0), Fixed(40));
    assert_eq!(smooth.get_animated(100), Fixed(40));
}

#[test]
fn smooth_set_moves_from_the_value_shown() {
    let mut smooth = Smooth::new(Fixed(0), None);
    smooth.set(Fixed(100), 100);
    assert_eq!(*smooth.get_real(), Fixed(100));
    assert_eq!(smooth.get_animated(0), Fixed(0));
    assert_eq!(smooth.get_animated(50), Fixed(50));
    // Halfway through that move, a new setting starts its move from 50.
    smooth.set(Fixed(200), 50);
    assert_eq!(*smooth.get_real(), Fixed(200));
    assert_eq!(smooth.get_animated(0), Fixed(50));
    assert_eq!(smooth.get_animated(100), Fixed(200));
}

#[test]
fn smooth_parts_can_be_changed_in_place() {
    let mut smooth = Smooth::new(Fixed(0), None);
    *smooth.manual_get_real() = Fixed(10);
    *smooth.manual_get_previous() = Fixed(4);
    assert_eq!(*smooth.get_real(), Fixed(10));
    assert_eq!(smooth.get_animated(0), Fixed(4));
    assert_eq!(smooth.get_animated(50), Fixed(7));
}

#[test]
fn smooth_moves_start_at_the_given_instant() {
    let made = Instant::now();
    let mut smooth = Smooth::new_at(Fixed(0), None, made);
    assert_eq!(*smooth.last_change(), made);
    let later = made + Duration::from_millis(40);
    smooth.set_at(Fixed(100), 100, later);
    assert_eq!(*smooth.last_change(), later);
    assert_eq!(*smooth.get_real(), Fixed(100));
    assert_eq!(smooth.get_animated(0), Fixed(0));
    assert_eq!(*smooth.animation_duration(), Duration::from_millis(500));
}

#[test]
fn smooth_set_restarts_the_move() {
    let mut smooth = Smooth::new(Fixed(0), None);
    let first = *smooth.last_change();
    smooth.set(Fixed(10), 100);
    assert!(*smooth.last_change() >= first);
}
