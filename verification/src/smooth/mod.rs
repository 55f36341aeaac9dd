mod circle_lerpable;
mod lerpable;
mod multi_lerp;
mod no_lerp;
mod smooth;

pub use circle_lerpable::CircleLerpable;
pub use lerpable::Lerpable;
pub use multi_lerp::MultiLerp;
pub use no_lerp::NoLerp;
pub use smooth::{default_smooth_duration, millis_duration, Smooth};
