use vstd::prelude::*;

verus! {

/// The frame rate the event loop aims for.
pub const TARGET_FPS: u64 = 60;

/// How long the event loop waits before the next frame, given how many milliseconds the
/// current frame has taken so far: the rest of a frame's time (`1000 / TARGET_FPS`
/// milliseconds) when the frame took no longer than `100 / TARGET_FPS` milliseconds,
/// and no wait otherwise.
pub fn frame_wait_millis(elapsed_millis: u64) -> (wait_millis: u64)
    ensures
        wait_millis == (if 100u64 / TARGET_FPS >= elapsed_millis {
            1000u64 / TARGET_FPS - elapsed_millis
        } else {
            0int
        }),
{
    if 100 / TARGET_FPS >= elapsed_millis {
        1000 / TARGET_FPS - elapsed_millis
    } else {
        0
    }
}

} // verus!
