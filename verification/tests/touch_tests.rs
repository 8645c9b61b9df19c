use android_computer_use_mcp::touch::{
    DOUBLE_TAP_INTER_TAP_INTERVAL_MS, MULTI_TOUCH_MAX_STEPS, MULTI_TOUCH_MIN_STEPS, MultiTouchPath,
    SWIPE_MIN_STEPS, TOUCH_PRESSURE_DOWN, TOUCH_PRESSURE_UP, keyboard_text_payload, lerp_u32,
    multi_touch_frames, multi_touch_step_count, swipe_step_count,
};

#[test]
fn keyboard_text_payload_keeps_intentional_spaces() {
    assert_eq!(
        keyboard_text_payload("  hello  "),
        Some("  hello  ".to_string())
    );
    assert_eq!(keyboard_text_payload("   "), None);
}

#[test]
fn swipe_step_count_respects_minimum() {
    assert_eq!(swipe_step_count(0), SWIPE_MIN_STEPS);
    assert_eq!(swipe_step_count(32), SWIPE_MIN_STEPS);
    assert_eq!(swipe_step_count(160), 10);
}

#[test]
fn double_tap_interval_is_deliberate_and_bounded() {
    assert!(DOUBLE_TAP_INTER_TAP_INTERVAL_MS >= 40);
    assert!(DOUBLE_TAP_INTER_TAP_INTERVAL_MS <= 150);
}

#[test]
fn multi_touch_step_count_is_bounded() {
    assert_eq!(multi_touch_step_count(50), MULTI_TOUCH_MIN_STEPS);
    assert_eq!(multi_touch_step_count(300), 19);
    assert_eq!(multi_touch_step_count(2_000), MULTI_TOUCH_MAX_STEPS);
}

#[test]
fn multi_touch_frames_keep_identifiers_and_release_every_pointer() {
    let paths = [
        MultiTouchPath {
            x1: 10,
            y1: 20,
            x2: 40,
            y2: 50,
        },
        MultiTouchPath {
            x1: 90,
            y1: 100,
            x2: 60,
            y2: 70,
        },
    ];
    let frames = multi_touch_frames(&paths, 64);

    assert_eq!(frames.len(), MULTI_TOUCH_MIN_STEPS as usize + 1);
    assert_eq!(frames[0].len(), paths.len());
    assert_eq!(frames[0][0].identifier, 0);
    assert_eq!(frames[0][1].identifier, 1);
    assert_eq!(frames[0][0].pressure, TOUCH_PRESSURE_DOWN);
    assert_eq!(frames[2][0].x, 30);
    assert_eq!(frames[2][1].x, 70);

    let release = frames.last().expect("release frame should exist");
    assert_eq!(release[0].x, 40);
    assert_eq!(release[0].y, 50);
    assert_eq!(release[0].pressure, TOUCH_PRESSURE_UP);
    assert_eq!(release[1].x, 60);
    assert_eq!(release[1].y, 70);
    assert_eq!(release[1].pressure, TOUCH_PRESSURE_UP);
}

#[test]
fn lerp_u32_interpolates_monotonically() {
    assert_eq!(lerp_u32(10, 20, 0, 4), 10);
    assert_eq!(lerp_u32(10, 20, 2, 4), 15);
    assert_eq!(lerp_u32(10, 20, 4, 4), 20);
}

#[test]
fn multi_touch_gesture_starts_and_ends_on_each_path() {
    let paths = [
        MultiTouchPath { x1: 10, y1: 20, x2: 40, y2: 50 },
        MultiTouchPath { x1: 90, y1: 100, x2: 60, y2: 70 },
    ];
    let frames = multi_touch_frames(&paths, 500);
    let first = &frames[0];
    let last_pressed = &frames[frames.len() - 2];
    for (i, path) in paths.iter().enumerate() {
        assert_eq!((first[i].x, first[i].y), (path.x1 as i32, path.y1 as i32));
        assert_eq!((last_pressed[i].x, last_pressed[i].y), (path.x2 as i32, path.y2 as i32));
        assert_eq!(first[i].pressure, TOUCH_PRESSURE_DOWN);
        assert_eq!(last_pressed[i].pressure, TOUCH_PRESSURE_DOWN);
    }
}
