use photosquid::app::SaveMethod;
use photosquid::bool_poll::BoolPoll;
use photosquid::capture::KeyCapture;
use photosquid::context_menu::ContextAction;
use photosquid::frame_pacing::{frame_wait_millis, TARGET_FPS};
use photosquid::options::tab::Object;

#[test]
fn poll_reads_a_set_flag_once() {
    let mut flag = true;
    assert!(flag.poll());
    assert!(!flag);
    assert!(!flag.poll());
    assert!(!flag);
}

#[test]
fn key_capture_to_option() {
    assert_eq!(KeyCapture::Capture.to_option(), Some(KeyCapture::Capture));
    assert_eq!(KeyCapture::Miss.to_option(), None);
}

#[test]
fn frame_wait_fills_the_frame_only_after_a_short_frame() {
    assert_eq!(TARGET_FPS, 60);
    assert_eq!(frame_wait_millis(0), 16);
    assert_eq!(frame_wait_millis(1), 15);
    assert_eq!(frame_wait_millis(2), 0);
    assert_eq!(frame_wait_millis(1000), 0);
}

#[test]
fn plain_enums_compare_by_variant() {
    assert_ne!(SaveMethod::Save, SaveMethod::SaveAs);
    assert_eq!(ContextAction::GrabSelected, ContextAction::GrabSelected);
    assert_ne!(ContextAction::DeleteSelected, ContextAction::DuplicateSelected);
    let _tab = Object::new();
}
