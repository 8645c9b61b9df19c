//! The touch frames of taps, swipes and multi-touch gestures sent to the
//! emulator.
use vstd::prelude::*;
use crate::error::{owned};
use crate::text::{trim, trimmed};

verus! {

pub const DOUBLE_TAP_INTER_TAP_INTERVAL_MS: u64 = 80;
pub const SWIPE_STEP_INTERVAL_MS: u64 = 16;
pub const SWIPE_MIN_STEPS: u32 = 4;
pub const MULTI_TOUCH_STEP_INTERVAL_MS: u64 = 16;
pub const MULTI_TOUCH_MIN_STEPS: u32 = 4;
pub const MULTI_TOUCH_MAX_STEPS: u32 = 120;
pub const TOUCH_IDENTIFIER: i32 = 0;
pub const TOUCH_PRESSURE_DOWN: i32 = 1;
pub const TOUCH_PRESSURE_UP: i32 = 0;

/// One finger's straight path.
#[derive(Debug, Clone, Copy, PartialEq, Eq, Structural)]
pub struct MultiTouchPath {
    pub x1: u32,
    pub y1: u32,
    pub x2: u32,
    pub y2: u32,
}

/// One touch point of a touch event.
#[derive(Debug, Clone, Copy, PartialEq, Eq, Structural)]
pub struct Touch {
    pub x: i32,
    pub y: i32,
    pub identifier: i32,
    pub pressure: i32,
}

/// The text to type; none when it is blank, else the text unchanged.
pub fn keyboard_text_payload(text: &str) -> (r: Option<String>)
    ensures
        match r {
            Some(t) => trim(text@).len() > 0 && t@ == text@,
            None => trim(text@).len() == 0,
        },
{
    if trimmed(text).len() == 0 {
        None
    } else {
        Some(owned(text))
    }
}

/// A coordinate as the emulator takes it: at most `i32::MAX`.
pub open spec fn spec_saturate(value: u32) -> i32 {
    if value <= i32::MAX {
        value as i32
    } else {
        i32::MAX
    }
}

pub fn saturating_u32_to_i32(value: u32) -> (r: i32)
    ensures
        r == spec_saturate(value),
{
    if value <= i32::MAX as u32 {
        value as i32
    } else {
        i32::MAX
    }
}

pub open spec fn spec_touch(x: u32, y: u32, identifier: i32, pressure: i32) -> Touch {
    Touch { x: spec_saturate(x), y: spec_saturate(y), identifier, pressure }
}

pub fn touch_with_identifier(x: u32, y: u32, identifier: i32, pressure: i32) -> (r: Touch)
    ensures
        r == spec_touch(x, y, identifier, pressure),
{
    Touch { x: saturating_u32_to_i32(x), y: saturating_u32_to_i32(y), identifier, pressure }
}

/// A touch of the single pointer of taps and swipes.
pub fn touch_with_pressure(x: u32, y: u32, pressure: i32) -> (r: Touch)
    ensures
        r == spec_touch(x, y, TOUCH_IDENTIFIER, pressure),
{
    touch_with_identifier(x, y, TOUCH_IDENTIFIER, pressure)
}

/// One step per interval of the swipe, at least the minimum.
pub open spec fn spec_swipe_steps(duration_ms: u64) -> int {
    let steps = duration_ms / SWIPE_STEP_INTERVAL_MS;
    let steps = if steps >= SWIPE_MIN_STEPS {
        steps as int
    } else {
        SWIPE_MIN_STEPS as int
    };
    if steps <= u32::MAX {
        steps
    } else {
        u32::MAX as int
    }
}

pub fn swipe_step_count(duration_ms: u64) -> (r: u32)
    ensures
        r == spec_swipe_steps(duration_ms),
{
    let steps = duration_ms / SWIPE_STEP_INTERVAL_MS;
    let steps = if steps >= SWIPE_MIN_STEPS as u64 {
        steps
    } else {
        SWIPE_MIN_STEPS as u64
    };
    if steps <= u32::MAX as u64 {
        steps as u32
    } else {
        u32::MAX
    }
}

/// One step per started interval of the gesture, between the minimum and
/// the maximum.
pub open spec fn spec_multi_touch_steps(duration_ms: u64) -> int {
    let sum = if duration_ms + (MULTI_TOUCH_STEP_INTERVAL_MS - 1) <= u64::MAX {
        duration_ms + (MULTI_TOUCH_STEP_INTERVAL_MS - 1)
    } else {
        u64::MAX as int
    };
    let steps = sum / (MULTI_TOUCH_STEP_INTERVAL_MS as int);
    if steps < MULTI_TOUCH_MIN_STEPS {
        MULTI_TOUCH_MIN_STEPS as int
    } else if steps > MULTI_TOUCH_MAX_STEPS {
        MULTI_TOUCH_MAX_STEPS as int
    } else {
        steps
    }
}

pub fn multi_touch_step_count(duration_ms: u64) -> (r: u32)
    ensures
        r == spec_multi_touch_steps(duration_ms),
        MULTI_TOUCH_MIN_STEPS <= r <= MULTI_TOUCH_MAX_STEPS,
{
    let sum = duration_ms.saturating_add(MULTI_TOUCH_STEP_INTERVAL_MS - 1);
    let steps = sum / MULTI_TOUCH_STEP_INTERVAL_MS;
    if steps < MULTI_TOUCH_MIN_STEPS as u64 {
        MULTI_TOUCH_MIN_STEPS
    } else if steps > MULTI_TOUCH_MAX_STEPS as u64 {
        MULTI_TOUCH_MAX_STEPS
    } else {
        steps as u32
    }
}

/// The pause between the steps of a gesture: the duration spread over the
/// gaps between steps, at least 1 ms.
pub open spec fn spec_multi_touch_interval(duration_ms: u64, steps: u32) -> int {
    if steps <= 1 {
        if duration_ms >= 1 {
            duration_ms as int
        } else {
            1
        }
    } else {
        let v = duration_ms / ((steps - 1) as u64);
        if v >= 1 {
            v as int
        } else {
            1
        }
    }
}

pub fn multi_touch_step_interval(duration_ms: u64, steps: u32) -> (r: u64)
    ensures
        r == spec_multi_touch_interval(duration_ms, steps),
{
    if steps <= 1 {
        return if duration_ms >= 1 {
            duration_ms
        } else {
            1
        };
    }
    let v = duration_ms / ((steps - 1) as u64);
    if v >= 1 {
        v
    } else {
        1
    }
}

/// The pause between the steps of a swipe: the duration spread over the
/// steps, at least 1 ms.
pub open spec fn spec_step_interval(duration_ms: u64, steps: u32) -> int {
    if steps <= 1 {
        if duration_ms >= 1 {
            duration_ms as int
        } else {
            1
        }
    } else {
        let v = duration_ms / (steps as u64);
        if v >= 1 {
            v as int
        } else {
            1
        }
    }
}

pub fn step_interval(duration_ms: u64, steps: u32) -> (r: u64)
    ensures
        r == spec_step_interval(duration_ms, steps),
{
    if steps <= 1 {
        return if duration_ms >= 1 {
            duration_ms
        } else {
            1
        };
    }
    let v = duration_ms / (steps as u64);
    if v >= 1 {
        v
    } else {
        1
    }
}

/// Integer division that rounds toward zero, as Rust's `/` does.
pub open spec fn trunc_div(a: int, b: int) -> int {
    if a >= 0 {
        a / b
    } else {
        -((-a) / b)
    }
}

/// The point `step` of `total_steps` of the way from `start` to `end`,
/// rounded toward `start`; `end` when there are no steps.
pub open spec fn spec_lerp(start: u32, end: u32, step: u32, total_steps: u32) -> int {
    if total_steps == 0 {
        end as int
    } else {
        let v = start + trunc_div((end - start) * step, total_steps as int);
        if v < 0 {
            0
        } else if v > u32::MAX {
            u32::MAX as int
        } else {
            v
        }
    }
}

proof fn lemma_lerp_product_bound(delta: int, step: int)
    requires
        -0xffff_ffff <= delta <= 0xffff_ffff,
        0 <= step <= 0xffff_ffff,
    ensures
        -0xffff_ffff * 0xffff_ffff <= delta * step <= 0xffff_ffff * 0xffff_ffff,
{
    assert(-0xffff_ffff * 0xffff_ffff <= delta * step <= 0xffff_ffff * 0xffff_ffff) by (
    nonlinear_arith)
        requires
            -0xffff_ffff <= delta <= 0xffff_ffff,
            0 <= step <= 0xffff_ffff,
    ;
}

proof fn lemma_small_step_product(delta: int, step: int)
    requires
        -0xffff_ffff <= delta <= 0xffff_ffff,
        0 <= step <= 120,
    ensures
        i64::MIN <= delta * step <= i64::MAX,
{
    assert(-0xffff_ffff * 120 <= delta * step <= 0xffff_ffff * 120) by (nonlinear_arith)
        requires
            -0xffff_ffff <= delta <= 0xffff_ffff,
            0 <= step <= 120,
    ;
}

pub fn lerp_u32(start: u32, end: u32, step: u32, total_steps: u32) -> (r: u32)
    requires
        i64::MIN <= (end - start) * step <= i64::MAX,
    ensures
        r == spec_lerp(start, end, step, total_steps),
{
    if total_steps == 0 {
        return end;
    }
    let delta: i128 = end as i128 - start as i128;
    proof {
        lemma_lerp_product_bound(delta as int, step as int);
    }
    let product: i128 = delta * (step as i128);
    let q: i128 = if product >= 0 {
        product / (total_steps as i128)
    } else {
        -((-product) / (total_steps as i128))
    };
    let v: i128 = start as i128 + q;
    if v < 0 {
        0
    } else if v > u32::MAX as i128 {
        u32::MAX
    } else {
        v as u32
    }
}

/// The touches of one frame: each path's point at `step` of `last_step`,
/// pressed, identified by its position.
pub open spec fn frame_ok(frame: Seq<Touch>, paths: Seq<MultiTouchPath>, step: u32, last_step: u32) -> bool {
    &&& frame.len() == paths.len()
    &&& forall|i: int|
        0 <= i < paths.len() ==> #[trigger] frame[i] == spec_touch(
            spec_lerp(paths[i].x1, paths[i].x2, step, last_step) as u32,
            spec_lerp(paths[i].y1, paths[i].y2, step, last_step) as u32,
            i as i32,
            TOUCH_PRESSURE_DOWN,
        )
}

/// The release frame: each path lifted at its end point.
pub open spec fn release_ok(frame: Seq<Touch>, paths: Seq<MultiTouchPath>) -> bool {
    &&& frame.len() == paths.len()
    &&& forall|i: int|
        0 <= i < paths.len() ==> #[trigger] frame[i] == spec_touch(
            paths[i].x2,
            paths[i].y2,
            i as i32,
            TOUCH_PRESSURE_UP,
        )
}

/// The frames of a multi-touch gesture: one pressed frame per step, then
/// one frame that releases every pointer.
pub fn multi_touch_frames(paths: &[MultiTouchPath], duration_ms: u64) -> (r: Vec<Vec<Touch>>)
    requires
        paths@.len() <= i32::MAX,
    ensures
        r@.len() == spec_multi_touch_steps(duration_ms) + 1,
        forall|s: int|
            0 <= s < r@.len() - 1 ==> frame_ok(
                #[trigger] r@[s]@,
                paths@,
                s as u32,
                (spec_multi_touch_steps(duration_ms) - 1) as u32,
            ),
        release_ok(r@[r@.len() - 1]@, paths@),
{
    let steps = multi_touch_step_count(duration_ms);
    let last_step = steps - 1;
    let mut frames: Vec<Vec<Touch>> = Vec::new();
    let mut step: u32 = 0;
    while step < steps
        invariant
            step <= steps,
            steps == spec_multi_touch_steps(duration_ms),
            MULTI_TOUCH_MIN_STEPS <= steps <= MULTI_TOUCH_MAX_STEPS,
            last_step == steps - 1,
            paths@.len() <= i32::MAX,
            frames@.len() == step,
            forall|s: int| 0 <= s < step ==> frame_ok(#[trigger] frames@[s]@, paths@, s as u32, last_step),
        decreases steps - step,
    {
        let mut frame: Vec<Touch> = Vec::new();
        let mut i: usize = 0;
        while i < paths.len()
            invariant
                i <= paths@.len(),
                paths@.len() <= i32::MAX,
                step < steps <= MULTI_TOUCH_MAX_STEPS,
                last_step == steps - 1,
                frame@.len() == i,
                forall|k: int|
                    0 <= k < i ==> #[trigger] frame@[k] == spec_touch(
                        spec_lerp(paths@[k].x1, paths@[k].x2, step, last_step) as u32,
                        spec_lerp(paths@[k].y1, paths@[k].y2, step, last_step) as u32,
                        k as i32,
                        TOUCH_PRESSURE_DOWN,
                    ),
            decreases paths.len() - i,
        {
            let p = paths[i];
            proof {
                lemma_small_step_product(p.x2 - p.x1, step as int);
                lemma_small_step_product(p.y2 - p.y1, step as int);
            }
            let x = lerp_u32(p.x1, p.x2, step, last_step);
            let y = lerp_u32(p.y1, p.y2, step, last_step);
            frame.push(touch_with_identifier(x, y, i as i32, TOUCH_PRESSURE_DOWN));
            i = i + 1;
        }
        frames.push(frame);
        step = step + 1;
    }
    let mut release: Vec<Touch> = Vec::new();
    let mut i: usize = 0;
    while i < paths.len()
        invariant
            i <= paths@.len(),
            paths@.len() <= i32::MAX,
            release@.len() == i,
            forall|k: int|
                0 <= k < i ==> #[trigger] release@[k] == spec_touch(
                    paths@[k].x2,
                    paths@[k].y2,
                    k as i32,
                    TOUCH_PRESSURE_UP,
                ),
        decreases paths.len() - i,
    {
        let p = paths[i];
        release.push(touch_with_identifier(p.x2, p.y2, i as i32, TOUCH_PRESSURE_UP));
        i = i + 1;
    }
    frames.push(release);
    frames
}


/// Interpolation starts at `start` and, after all steps, ends at `end`.
pub proof fn lemma_lerp_endpoints(start: u32, end: u32, total_steps: u32)
    requires
        total_steps > 0,
    ensures
        spec_lerp(start, end, 0, total_steps) == start,
        spec_lerp(start, end, total_steps, total_steps) == end,
{
    let t = total_steps as int;
    let delta = end - start;
    assert(delta * 0 == 0);
    assert(delta * t / t == delta) by (nonlinear_arith)
        requires
            t > 0,
    ;
    if delta < 0 {
        assert((-(delta * t)) / t == -delta) by (nonlinear_arith)
            requires
                t > 0,
        ;
    }
}

/// A gesture presses every finger at the start of its path in its first
/// frame and at the end of its path in its last pressed frame, then lifts it
/// there: for every sequence of frames that `multi_touch_frames` can return.
pub proof fn lemma_gesture_follows_paths(paths: Seq<MultiTouchPath>, duration_ms: u64, frames: Seq<Seq<Touch>>)
    requires
        frames.len() == spec_multi_touch_steps(duration_ms) + 1,
        forall|s: int|
            0 <= s < frames.len() - 1 ==> frame_ok(
                #[trigger] frames[s],
                paths,
                s as u32,
                (spec_multi_touch_steps(duration_ms) - 1) as u32,
            ),
        release_ok(frames[frames.len() - 1], paths),
    ensures
        forall|i: int|
            0 <= i < paths.len() ==> #[trigger] frames[0][i] == spec_touch(
                paths[i].x1,
                paths[i].y1,
                i as i32,
                TOUCH_PRESSURE_DOWN,
            ),
        forall|i: int|
            0 <= i < paths.len() ==> #[trigger] frames[frames.len() - 2][i] == spec_touch(
                paths[i].x2,
                paths[i].y2,
                i as i32,
                TOUCH_PRESSURE_DOWN,
            ),
        forall|i: int|
            0 <= i < paths.len() ==> #[trigger] frames[frames.len() - 1][i] == spec_touch(
                paths[i].x2,
                paths[i].y2,
                i as i32,
                TOUCH_PRESSURE_UP,
            ),
{
    let steps = spec_multi_touch_steps(duration_ms);
    assert(MULTI_TOUCH_MIN_STEPS <= steps <= MULTI_TOUCH_MAX_STEPS);
    let last = (steps - 1) as u32;
    assert(frame_ok(frames[0], paths, 0, last));
    assert(frame_ok(frames[frames.len() - 2], paths, last, last));
    assert forall|i: int| 0 <= i < paths.len() implies #[trigger] frames[0][i] == spec_touch(
        paths[i].x1,
        paths[i].y1,
        i as i32,
        TOUCH_PRESSURE_DOWN,
    ) by {
        lemma_lerp_endpoints(paths[i].x1, paths[i].x2, last);
        lemma_lerp_endpoints(paths[i].y1, paths[i].y2, last);
    }
    assert forall|i: int| 0 <= i < paths.len() implies #[trigger] frames[frames.len() - 2][i] == spec_touch(
        paths[i].x2,
        paths[i].y2,
        i as i32,
        TOUCH_PRESSURE_DOWN,
    ) by {
        lemma_lerp_endpoints(paths[i].x1, paths[i].x2, last);
        lemma_lerp_endpoints(paths[i].y1, paths[i].y2, last);
    }
}

/// Interpolation moves steadily from `start` toward `end`: a later step is
/// never further from `end` than an earlier one.
pub proof fn lemma_lerp_monotonic(start: u32, end: u32, step1: u32, step2: u32, total_steps: u32)
    requires
        step1 <= step2,
    ensures
        start <= end ==> spec_lerp(start, end, step1, total_steps) <= spec_lerp(start, end, step2, total_steps),
        start >= end ==> spec_lerp(start, end, step1, total_steps) >= spec_lerp(start, end, step2, total_steps),
{
    if total_steps > 0 {
        let t = total_steps as int;
        let delta = end - start;
        if delta == 0 {
            assert(delta * step1 == 0 && delta * step2 == 0);
        } else if delta > 0 {
            assert(delta * step1 <= delta * step2) by (nonlinear_arith)
                requires
                    delta >= 0,
                    step1 <= step2,
            ;
            assert(0 <= delta * step1) by (nonlinear_arith)
                requires
                    delta >= 0,
                    step1 >= 0,
            ;
            vstd::arithmetic::div_mod::lemma_div_is_ordered(delta * step1, delta * step2, t);
        } else {
            assert(-(delta * step1) <= -(delta * step2)) by (nonlinear_arith)
                requires
                    delta < 0,
                    step1 <= step2,
            ;
            assert(0 <= -(delta * step1)) by (nonlinear_arith)
                requires
                    delta < 0,
                    step1 >= 0,
            ;
            if delta * step2 == 0 {
                assert(delta * step1 == 0);
            }
            vstd::arithmetic::div_mod::lemma_div_is_ordered(-(delta * step1), -(delta * step2), t);
        }
    }
}

} // verus!
