//! Time budgets of tool calls, on a millisecond clock.
use vstd::prelude::*;
use crate::error::{ErrorKind, McpError};
use crate::text::{append_str, chars_of, str_eq, string_of};

verus! {

/// The smallest budget worth spending on one more observation.
pub const MIN_OBSERVATION_BUDGET_MS: u64 = 500;
/// The smallest budget worth spending on a fast UI fingerprint.
pub const MIN_FAST_UI_FINGERPRINT_BUDGET_MS: u64 = 1000;
/// The budget of the first text verification after a gRPC dispatch.
pub const GRPC_TEXT_VERIFICATION_BUDGET_MS: u64 = 1500;
/// The smallest window that a text verification needs.
pub const MIN_TEXT_VERIFICATION_WINDOW_MS: u64 = 4500;
/// The time kept in hand for an adb text fallback.
pub const ADB_TEXT_FALLBACK_RESERVE_MS: u64 = 5000;
/// The time a full observation capture may take.
pub const FULL_OBSERVATION_CAPTURE_RESERVE_MS: u64 = 4500;

/// The current time in milliseconds since the Unix epoch.
///
/// Calls `std::time::SystemTime::now`; nothing is promised of the value,
/// which depends on the clock.
#[verifier::external_body]
pub fn now_ms() -> (r: u64) {
    match std::time::UNIX_EPOCH.elapsed() {
        Ok(d) => d.as_millis() as u64,
        Err(_) => 0,
    }
}

/// `a + b`, or `u64::MAX` when that does not fit.
pub open spec fn sat_add(a: int, b: int) -> int {
    if a + b > u64::MAX {
        u64::MAX as int
    } else {
        a + b
    }
}

/// The time left until `deadline`, never negative.
pub open spec fn spec_remaining(now: u64, deadline: u64) -> int {
    if deadline > now {
        deadline - now
    } else {
        0
    }
}

/// The deadline `timeout_secs` (or `default_secs`) seconds after `now`.
pub open spec fn spec_tool_deadline(now: u64, timeout_secs: Option<u64>, default_secs: u64) -> int {
    let secs = match timeout_secs {
        Some(s) => s,
        None => default_secs,
    };
    sat_add(now as int, secs * 1000)
}

pub fn tool_deadline_at(now: u64, timeout_secs: Option<u64>, default_secs: u64) -> (r: u64)
    ensures
        r == spec_tool_deadline(now, timeout_secs, default_secs),
{
    let secs = match timeout_secs {
        Some(s) => s,
        None => default_secs,
    };
    let ms: u64 = if secs <= u64::MAX / 1000 {
        secs * 1000
    } else {
        u64::MAX
    };
    now.saturating_add(ms)
}

/// The deadline of a tool call that started now.
pub fn tool_deadline(timeout_secs: Option<u64>, default_secs: u64) -> (r: u64)
    ensures
        exists|now: u64| r == spec_tool_deadline(now, timeout_secs, default_secs),
{
    let now = now_ms();
    tool_deadline_at(now, timeout_secs, default_secs)
}

pub fn remaining_until_at(now: u64, deadline: u64) -> (r: u64)
    ensures
        r == spec_remaining(now, deadline),
{
    if deadline > now {
        deadline - now
    } else {
        0
    }
}

/// The time left until `deadline`.
pub fn remaining_until(deadline: u64) -> (r: u64)
    ensures
        r <= deadline,
        exists|now: u64| r == spec_remaining(now, deadline),
{
    let now = now_ms();
    remaining_until_at(now, deadline)
}

/// The message of a budget that ran out before a step.
pub open spec fn budget_message(label: Seq<char>) -> Seq<char> {
    label + " timed out before the next verification step could begin"@
}

pub fn require_remaining_budget_at(now: u64, deadline: u64, label: &str) -> (r: Result<
    u64,
    McpError,
>)
    ensures
        spec_remaining(now, deadline) == 0 <==> r is Err,
        r matches Ok(v) ==> v == spec_remaining(now, deadline),
        r matches Err(e) ==> e.kind == ErrorKind::InternalError && e.message@ == budget_message(
            label@,
        ),
{
    let remaining = remaining_until_at(now, deadline);
    if remaining == 0 {
        let mut v = chars_of(label);
        append_str(&mut v, " timed out before the next verification step could begin");
        Err(McpError::internal_error(string_of(v.as_slice())))
    } else {
        Ok(remaining)
    }
}

/// The time left until `deadline`, or an error when none is left.
pub fn require_remaining_budget(deadline: u64, label: &str) -> (r: Result<u64, McpError>)
    ensures
        r matches Ok(v) ==> 0 < v <= deadline,
        r matches Err(e) ==> e.kind == ErrorKind::InternalError && e.message@ == budget_message(
            label@,
        ),
{
    let now = now_ms();
    require_remaining_budget_at(now, deadline, label)
}

pub open spec fn spec_observation_budget(now: u64, deadline: u64) -> bool {
    spec_remaining(now, deadline) >= MIN_OBSERVATION_BUDGET_MS
}

pub fn has_meaningful_observation_budget_at(now: u64, deadline: u64) -> (r: bool)
    ensures
        r == spec_observation_budget(now, deadline),
{
    remaining_until_at(now, deadline) >= MIN_OBSERVATION_BUDGET_MS
}

/// Enough time is left for one more observation.
pub fn has_meaningful_observation_budget(deadline: u64) -> (r: bool)
    ensures
        r ==> deadline >= MIN_OBSERVATION_BUDGET_MS,
        exists|now: u64| r == spec_observation_budget(now, deadline),
{
    let now = now_ms();
    has_meaningful_observation_budget_at(now, deadline)
}

pub open spec fn spec_fast_fingerprint_budget(now: u64, deadline: u64) -> bool {
    spec_remaining(now, deadline) >= FULL_OBSERVATION_CAPTURE_RESERVE_MS
        + MIN_FAST_UI_FINGERPRINT_BUDGET_MS
}

pub fn has_meaningful_fast_ui_fingerprint_budget_at(now: u64, deadline: u64) -> (r: bool)
    ensures
        r == spec_fast_fingerprint_budget(now, deadline),
{
    remaining_until_at(now, deadline) >= FULL_OBSERVATION_CAPTURE_RESERVE_MS
        + MIN_FAST_UI_FINGERPRINT_BUDGET_MS
}

/// Enough time is left for a fast fingerprint and a full capture after it.
pub fn has_meaningful_fast_ui_fingerprint_budget(deadline: u64) -> (r: bool)
    ensures
        exists|now: u64| r == spec_fast_fingerprint_budget(now, deadline),
{
    let now = now_ms();
    has_meaningful_fast_ui_fingerprint_budget_at(now, deadline)
}

/// The earlier of `deadline` and `soft_budget` from now.
pub open spec fn spec_bounded_deadline(now: u64, deadline: u64, soft_budget: u64) -> int {
    let soft = sat_add(now as int, soft_budget as int);
    if soft < deadline {
        soft
    } else {
        deadline as int
    }
}

pub fn bounded_deadline_at(now: u64, deadline: u64, soft_budget: u64) -> (r: u64)
    ensures
        r == spec_bounded_deadline(now, deadline, soft_budget),
{
    let soft = now.saturating_add(soft_budget);
    if soft < deadline {
        soft
    } else {
        deadline
    }
}

/// The earlier of `deadline` and `soft_budget` from now.
pub fn bounded_deadline(deadline: u64, soft_budget: u64) -> (r: u64)
    ensures
        r <= deadline,
        exists|now: u64| r == spec_bounded_deadline(now, deadline, soft_budget),
{
    let now = now_ms();
    bounded_deadline_at(now, deadline, soft_budget)
}

/// `deadline` moved earlier by `reserve_budget`, unless no more than that
/// is left.
pub open spec fn spec_reserved_deadline(now: u64, deadline: u64, reserve_budget: u64) -> int {
    let remaining = spec_remaining(now, deadline);
    if remaining <= reserve_budget {
        deadline as int
    } else {
        now + (remaining - reserve_budget)
    }
}

pub fn reserved_fallback_deadline_at(now: u64, deadline: u64, reserve_budget: u64) -> (r: u64)
    ensures
        r == spec_reserved_deadline(now, deadline, reserve_budget),
        r <= deadline,
{
    let remaining = remaining_until_at(now, deadline);
    if remaining <= reserve_budget {
        deadline
    } else {
        now + (remaining - reserve_budget)
    }
}

/// A deadline that keeps `reserve_budget` in hand before `deadline`.
pub fn reserved_fallback_deadline(deadline: u64, reserve_budget: u64) -> (r: u64)
    ensures
        r <= deadline,
        exists|now: u64| r == spec_reserved_deadline(now, deadline, reserve_budget),
{
    let now = now_ms();
    reserved_fallback_deadline_at(now, deadline, reserve_budget)
}

/// The deadline of the first verification of a text dispatch: the whole
/// budget, except after a gRPC dispatch that may be retried over adb when
/// the budget is large enough to split, where it is the later of a short
/// soft budget and the deadline less the adb reserve.
pub open spec fn spec_initial_text_deadline(
    now: u64,
    backend: Seq<char>,
    deadline: u64,
    retry: bool,
) -> int {
    if backend != "grpc"@ || !retry {
        deadline as int
    } else if spec_remaining(now, deadline) <= ADB_TEXT_FALLBACK_RESERVE_MS
        + MIN_TEXT_VERIFICATION_WINDOW_MS {
        deadline as int
    } else {
        let a = spec_bounded_deadline(now, deadline, GRPC_TEXT_VERIFICATION_BUDGET_MS);
        let b = spec_reserved_deadline(now, deadline, ADB_TEXT_FALLBACK_RESERVE_MS);
        if a >= b {
            a
        } else {
            b
        }
    }
}

pub fn initial_text_verification_deadline_at(
    now: u64,
    dispatch_backend: &str,
    deadline: u64,
    retry_with_adb_on_no_change: bool,
) -> (r: u64)
    ensures
        r == spec_initial_text_deadline(now, dispatch_backend@, deadline, retry_with_adb_on_no_change),
{
    if !str_eq(dispatch_backend, "grpc") || !retry_with_adb_on_no_change {
        return deadline;
    }
    let remaining = remaining_until_at(now, deadline);
    if remaining <= ADB_TEXT_FALLBACK_RESERVE_MS + MIN_TEXT_VERIFICATION_WINDOW_MS {
        return deadline;
    }
    let a = bounded_deadline_at(now, deadline, GRPC_TEXT_VERIFICATION_BUDGET_MS);
    let b = reserved_fallback_deadline_at(now, deadline, ADB_TEXT_FALLBACK_RESERVE_MS);
    if a >= b {
        a
    } else {
        b
    }
}

/// The deadline of the first verification of a text dispatch.
pub fn initial_text_verification_deadline(
    dispatch_backend: &str,
    deadline: u64,
    retry_with_adb_on_no_change: bool,
) -> (r: u64)
    ensures
        r <= deadline,
        exists|now: u64|
            r == spec_initial_text_deadline(
                now,
                dispatch_backend@,
                deadline,
                retry_with_adb_on_no_change,
            ),
{
    let now = now_ms();
    initial_text_verification_deadline_at(now, dispatch_backend, deadline, retry_with_adb_on_no_change)
}

pub open spec fn spec_text_fallback_budget(now: u64, deadline: u64) -> bool {
    spec_remaining(now, deadline) >= ADB_TEXT_FALLBACK_RESERVE_MS
}

pub fn has_meaningful_text_fallback_budget_at(now: u64, deadline: u64) -> (r: bool)
    ensures
        r == spec_text_fallback_budget(now, deadline),
{
    remaining_until_at(now, deadline) >= ADB_TEXT_FALLBACK_RESERVE_MS
}

/// Enough time is left for an adb text fallback.
pub fn has_meaningful_text_fallback_budget(deadline: u64) -> (r: bool)
    ensures
        exists|now: u64| r == spec_text_fallback_budget(now, deadline),
{
    let now = now_ms();
    has_meaningful_text_fallback_budget_at(now, deadline)
}

/// The deadline of a fast fingerprint: a short budget, within the deadline
/// less the time a full capture takes.
pub open spec fn spec_fast_fingerprint_deadline(now: u64, deadline: u64) -> int {
    spec_bounded_deadline(
        now,
        spec_reserved_deadline(now, deadline, FULL_OBSERVATION_CAPTURE_RESERVE_MS) as u64,
        MIN_FAST_UI_FINGERPRINT_BUDGET_MS,
    )
}

pub fn fast_ui_fingerprint_deadline_at(now: u64, deadline: u64) -> (r: u64)
    ensures
        r == spec_fast_fingerprint_deadline(now, deadline),
        r <= deadline,
{
    let reserved = reserved_fallback_deadline_at(now, deadline, FULL_OBSERVATION_CAPTURE_RESERVE_MS);
    bounded_deadline_at(now, reserved, MIN_FAST_UI_FINGERPRINT_BUDGET_MS)
}

/// The deadline of a fast fingerprint.
pub fn fast_ui_fingerprint_deadline(deadline: u64) -> (r: u64)
    ensures
        r <= deadline,
        exists|now: u64| r == spec_fast_fingerprint_deadline(now, deadline),
{
    let now = now_ms();
    fast_ui_fingerprint_deadline_at(now, deadline)
}

} // verus!
