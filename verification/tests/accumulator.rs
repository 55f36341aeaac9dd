use photosquid::accumulator::{Accumulatable, Accumulator};

/// Whole numbers gathered into steps of `threshold`, for the tests.
#[derive(Copy, Clone, Debug, PartialEq, Default)]
struct Steps(i64);

impl Accumulatable for Steps {
    type Threshold = i64;

    fn zero() -> Self {
        Steps(0)
    }

    fn accumulate(&mut self, other: &Self, threshold: i64) -> Option<Self> {
        self.0 += other.0;
        let taken = self.0 / threshold * threshold;
        if taken == 0 {
            None
        } else {
            self.0 -= taken;
            Some(Steps(taken))
        }
    }
}

#[test]
fn accumulator_starts_empty() {
    let accumulator: Accumulator<Steps> = Accumulator::new();
    assert_eq!(*accumulator.residue(), Steps(0));
}

#[test]
fn accumulator_gives_out_whole_steps() {
    let mut accumulator: Accumulator<Steps> = Accumulator::new();
    assert_eq!(accumulator.accumulate(&Steps(3), 5), None);
    assert_eq!(accumulator.accumulate(&Steps(4), 5), Some(Steps(5)));
    assert_eq!(*accumulator.residue(), Steps(2));
    accumulator.clear();
    assert_eq!(*accumulator.residue(), Steps(0));
}
