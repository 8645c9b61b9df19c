//! The decisions of the loops that poll the device until the UI settles or
//! an action shows its effect. The caller performs the captures, sleeps
//! and reads the clock; these functions say what to do next.
use vstd::prelude::*;
use crate::adb::{should_retry_ui_dump_pull, spec_retry_pull, CommandOutput, extract_uiautomator_hierarchy_xml, is_exec_out_uiautomator_supported_failure, spec_exec_out_unsupported, spec_extract_hierarchy};
use crate::config::{lemma_parse_unsigned_narrower, parse_integer, parse_u16_checked};
use crate::dumpsys::{AndroidWindowState};
use crate::error::{ErrorKind, McpError, owned};
use crate::target::{opt_as_str};
use crate::text::{chars_eq, starts_with, starts_with_str, append_str, chars_of, decimal, push_decimal, str_eq, string_of, trim, trimmed};
use crate::ui::{selection_failure_for, NormalizedUiNode, ResolvedNodeSelection, SelectionFailure, SelectorCandidateSummary, UiSelector, matching, matching_nodes, opt_view, resolve_node_selection, resolved_index, summaries};
use crate::verification::{TapVerification, TextVerification, InternalNodeTracker, TapVerificationStatus, TextVerificationStatus, ToolPostconditionEvidenceSource, ToolPostconditionResult, opt_str, should_refresh_semantic_observation, spec_observed_package, spec_refresh_semantic, spec_tap_confirmed, spec_text_confirmed, spec_window_state_ok_for, tap_verification_is_confirmed, text_verification_is_confirmed, window_state_postcondition_matches};

verus! {

/// How often a verification polls, in milliseconds.
pub const VERIFICATION_POLL_INTERVAL_MS: u64 = 250;
/// Consecutive identical captures that count as a stable UI.
pub const REQUIRED_STABLE_POLLS: u32 = 2;
/// Consecutive satisfied captures that confirm an action.
pub const REQUIRED_SATISFIED_POLLS: u32 = 2;

/// `n + 1`, or `u32::MAX` when that does not fit.
pub open spec fn bump(n: u32) -> u32 {
    if n < u32::MAX {
        (n + 1) as u32
    } else {
        u32::MAX
    }
}

/// Counts consecutive captures with the same fingerprint.
#[derive(Debug, Clone)]
pub struct StabilityCounter {
    pub last: Option<String>,
    pub stable_polls: u32,
}

/// A counter after it recorded `fingerprint`: one more stable poll when the
/// fingerprint repeats the last one, else a fresh count of one; either way
/// the fingerprint is the last one seen.
pub open spec fn counter_observed(before: StabilityCounter, fingerprint: Seq<char>, after: StabilityCounter) -> bool {
    &&& after.stable_polls == if opt_view(before.last) == Some(fingerprint) {
        bump(before.stable_polls)
    } else {
        1
    }
    &&& opt_view(after.last) == Some(fingerprint)
}

/// A wait is stable after consecutive identical fingerprints: once a counter
/// has recorded the same fingerprint `k` times in a row (from any state),
/// it counts at least `k` stable polls (up to `u32::MAX`).
pub proof fn lemma_identical_fingerprints_stabilize(cs: Seq<StabilityCounter>, fingerprint: Seq<char>)
    requires
        cs.len() >= 1,
        forall|i: int| 0 <= i < cs.len() - 1 ==> counter_observed(#[trigger] cs[i], fingerprint, cs[i + 1]),
    ensures
        forall|k: int| 1 <= k < cs.len() ==> (#[trigger] cs[k]).stable_polls >= capped(k),
    decreases cs.len(),
{
    if cs.len() > 1 {
        let shorter = cs.drop_last();
        assert forall|i: int| 0 <= i < shorter.len() - 1 implies counter_observed(
            #[trigger] shorter[i],
            fingerprint,
            shorter[i + 1],
        ) by {
            assert(shorter[i] == cs[i] && shorter[i + 1] == cs[i + 1]);
        }
        lemma_identical_fingerprints_stabilize(shorter, fingerprint);
        assert forall|k: int| 1 <= k < cs.len() implies (#[trigger] cs[k]).stable_polls >= capped(k) by {
            assert(counter_observed(cs[k - 1], fingerprint, cs[k]));
            if k >= 2 {
                assert(shorter[k - 1] == cs[k - 1]);
                assert(counter_observed(cs[k - 2], fingerprint, cs[k - 1]));
            }
        }
    }
}

impl StabilityCounter {
    pub fn new() -> (r: Self)
        ensures
            r.last is None,
            r.stable_polls == 0,
    {
        StabilityCounter { last: None, stable_polls: 0 }
    }

    /// Records a capture: one more stable poll when its fingerprint repeats
    /// the last one, else a fresh count of one.
    pub fn observe(&mut self, fingerprint: String)
        ensures
            opt_view(old(self).last) == Some(fingerprint@) ==> final(self).stable_polls == bump(
                old(self).stable_polls,
            ) && opt_view(final(self).last) == opt_view(old(self).last),
            opt_view(old(self).last) != Some(fingerprint@) ==> final(self).stable_polls == 1
                && opt_view(final(self).last) == Some(fingerprint@),
            counter_observed(*old(self), fingerprint@, *final(self)),
    {
        let same = match &self.last {
            Some(l) => str_eq(l.as_str(), fingerprint.as_str()),
            None => false,
        };
        if same {
            if self.stable_polls < u32::MAX {
                self.stable_polls = self.stable_polls + 1;
            }
        } else {
            self.stable_polls = 1;
            self.last = Some(fingerprint);
        }
    }
}

/// The fast-fingerprint backend after a fast capture: decided by the first
/// capture, and switched off for good once a capture fails.
pub open spec fn next_backend(backend: Option<bool>, fast_present: bool) -> Option<bool> {
    match backend {
        None => Some(fast_present),
        Some(true) => if fast_present {
            Some(true)
        } else {
            Some(false)
        },
        Some(false) => Some(false),
    }
}

/// What to do after a full capture during a verification.
#[derive(Debug, Clone, Copy, PartialEq, Eq, Structural)]
pub enum PollOutcome {
    /// The action took effect.
    Confirmed,
    /// Give up: this was the last poll.
    Stop,
    /// Sleep for the poll interval, then poll again.
    Continue,
}

/// The state of a tap or text verification between polls.
#[derive(Debug, Clone)]
pub struct VerificationPollState {
    pub stability: StabilityCounter,
    pub last_fast_fingerprint: Option<String>,
    pub use_fast_fingerprint_backend: Option<bool>,
    pub satisfied_polls_observed: u32,
    pub force_followup_semantic_capture: bool,
}

/// A verification after a full capture with `fingerprint`: the stability
/// counter records it; a satisfied capture counts one more satisfied poll
/// and forces a follow-up capture until enough were seen, an unsatisfied one
/// resets both; the fast-fingerprint state stays.
pub open spec fn observation_step(
    before: VerificationPollState,
    fingerprint: Seq<char>,
    satisfied: bool,
    after: VerificationPollState,
) -> bool {
    &&& after.satisfied_polls_observed == if satisfied {
        bump(before.satisfied_polls_observed)
    } else {
        0
    }
    &&& counter_observed(before.stability, fingerprint, after.stability)
    &&& after.force_followup_semantic_capture == (satisfied && bump(before.satisfied_polls_observed)
        < REQUIRED_SATISFIED_POLLS)
    &&& after.last_fast_fingerprint == before.last_fast_fingerprint
    &&& after.use_fast_fingerprint_backend == before.use_fast_fingerprint_backend
}

/// A satisfied capture forces a follow-up capture: when it is not yet
/// confirmed by enough satisfied captures, the next poll takes a full
/// capture whatever its fast fingerprint shows.
pub proof fn lemma_satisfied_capture_forces_followup(
    before: VerificationPollState,
    fingerprint: Seq<char>,
    after: VerificationPollState,
    next_fast: Option<Seq<char>>,
    final_poll: bool,
)
    requires
        observation_step(before, fingerprint, true, after),
        bump(before.satisfied_polls_observed) < REQUIRED_SATISFIED_POLLS,
    ensures
        after.force_followup_semantic_capture,
        spec_refresh_semantic(
            opt_view(after.last_fast_fingerprint),
            next_fast,
            after.force_followup_semantic_capture,
            final_poll,
        ),
{
}

/// A verification is stable after consecutive identical captures: `k`
/// full captures in a row with equal fingerprints, satisfied or not, leave
/// at least `k` stable polls counted (up to `u32::MAX`).
pub proof fn lemma_identical_captures_stabilize_verification(
    ss: Seq<VerificationPollState>,
    fingerprint: Seq<char>,
    satisfied: Seq<bool>,
)
    requires
        ss.len() >= 1,
        satisfied.len() + 1 == ss.len(),
        forall|i: int|
            0 <= i < ss.len() - 1 ==> observation_step(#[trigger] ss[i], fingerprint, satisfied[i], ss[i + 1]),
    ensures
        forall|k: int| 1 <= k < ss.len() ==> (#[trigger] ss[k]).stability.stable_polls >= capped(k),
{
    let cs = Seq::new(ss.len(), |i: int| ss[i].stability);
    assert forall|i: int| 0 <= i < cs.len() - 1 implies counter_observed(#[trigger] cs[i], fingerprint, cs[i + 1])
        by {
        assert(observation_step(ss[i], fingerprint, satisfied[i], ss[i + 1]));
    }
    lemma_identical_fingerprints_stabilize(cs, fingerprint);
    assert forall|k: int| 1 <= k < ss.len() implies (#[trigger] ss[k]).stability.stable_polls >= capped(k) by {
        assert(cs[k] == ss[k].stability);
    }
}

impl VerificationPollState {
    pub fn new() -> (r: Self)
        ensures
            r.stability.last is None,
            r.stability.stable_polls == 0,
            r.last_fast_fingerprint is None,
            r.use_fast_fingerprint_backend is None,
            r.satisfied_polls_observed == 0,
            !r.force_followup_semantic_capture,
    {
        VerificationPollState {
            stability: StabilityCounter::new(),
            last_fast_fingerprint: None,
            use_fast_fingerprint_backend: None,
            satisfied_polls_observed: 0,
            force_followup_semantic_capture: false,
        }
    }

    /// A fast fingerprint is taken unless the backend was found wanting.
    pub fn wants_fast_fingerprint(&self) -> (r: bool)
        ensures
            r == (self.use_fast_fingerprint_backend != Some(false)),
    {
        match self.use_fast_fingerprint_backend {
            Some(false) => false,
            _ => true,
        }
    }

    /// Records a fast fingerprint (none when it was not taken or failed) and
    /// says whether a full capture is needed on this poll.
    pub fn after_fast_fingerprint(&mut self, fast: Option<String>, final_poll: bool) -> (r: bool)
        ensures
            r == spec_refresh_semantic(
                opt_view(old(self).last_fast_fingerprint),
                opt_view(fast),
                old(self).force_followup_semantic_capture,
                final_poll,
            ),
            final(self).use_fast_fingerprint_backend == next_backend(
                old(self).use_fast_fingerprint_backend,
                fast is Some,
            ),
            opt_view(final(self).last_fast_fingerprint) == match fast {
                Some(f) => Some(f@),
                None => opt_view(old(self).last_fast_fingerprint),
            },
            final(self).stability == old(self).stability,
            final(self).satisfied_polls_observed == old(self).satisfied_polls_observed,
            final(self).force_followup_semantic_capture == old(self).force_followup_semantic_capture,
    {
        let present = fast.is_some();
        self.use_fast_fingerprint_backend = match self.use_fast_fingerprint_backend {
            None => Some(present),
            Some(true) => Some(present),
            Some(false) => Some(false),
        };
        let capture = should_refresh_semantic_observation(
            opt_as_str(&self.last_fast_fingerprint),
            opt_as_str(&fast),
            self.force_followup_semantic_capture,
            final_poll,
        );
        match fast {
            Some(f) => {
                self.last_fast_fingerprint = Some(f);
            },
            None => {},
        }
        capture
    }

    /// Records a full capture: its fingerprint and whether the action's
    /// effect showed. A satisfied capture forces a follow-up capture until
    /// enough satisfied captures were seen; an unsatisfied one resets the
    /// count.
    fn record(&mut self, fingerprint: String, satisfied: bool)
        ensures
            observation_step(*old(self), fingerprint@, satisfied, *final(self)),
    {
        self.stability.observe(fingerprint);
        if satisfied {
            if self.satisfied_polls_observed < u32::MAX {
                self.satisfied_polls_observed = self.satisfied_polls_observed + 1;
            }
            self.force_followup_semantic_capture = self.satisfied_polls_observed
                < REQUIRED_SATISFIED_POLLS;
        } else {
            self.satisfied_polls_observed = 0;
            self.force_followup_semantic_capture = false;
        }
    }

    /// Records the full capture after a tap, and says what to do next: the
    /// tap is confirmed as `tap_verification_is_confirmed` says; otherwise
    /// stop after the last poll, else continue.
    pub fn after_tap_observation(
        &mut self,
        fingerprint: String,
        status: &TapVerificationStatus,
        final_poll: bool,
    ) -> (r: PollOutcome)
        ensures
            observation_step(*old(self), fingerprint@, status.satisfied, *final(self)),
            spec_tap_confirmed(
                *status,
                final(self).satisfied_polls_observed,
                REQUIRED_SATISFIED_POLLS,
                final_poll,
            ) ==> r == PollOutcome::Confirmed,
            !spec_tap_confirmed(
                *status,
                final(self).satisfied_polls_observed,
                REQUIRED_SATISFIED_POLLS,
                final_poll,
            ) ==> r == (if final_poll {
                PollOutcome::Stop
            } else {
                PollOutcome::Continue
            }),
    {
        self.record(fingerprint, status.satisfied);
        if tap_verification_is_confirmed(
            status,
            self.satisfied_polls_observed,
            REQUIRED_SATISFIED_POLLS,
            final_poll,
        ) {
            PollOutcome::Confirmed
        } else if final_poll {
            PollOutcome::Stop
        } else {
            PollOutcome::Continue
        }
    }

    /// Records the full capture after a text entry, and says what to do
    /// next, as `after_tap_observation` does with the text confirmation.
    pub fn after_text_observation(
        &mut self,
        fingerprint: String,
        status: &TextVerificationStatus,
        final_poll: bool,
    ) -> (r: PollOutcome)
        ensures
            observation_step(*old(self), fingerprint@, status.satisfied, *final(self)),
            spec_text_confirmed(
                *status,
                final(self).satisfied_polls_observed,
                REQUIRED_SATISFIED_POLLS,
                final_poll,
            ) ==> r == PollOutcome::Confirmed,
            !spec_text_confirmed(
                *status,
                final(self).satisfied_polls_observed,
                REQUIRED_SATISFIED_POLLS,
                final_poll,
            ) ==> r == (if final_poll {
                PollOutcome::Stop
            } else {
                PollOutcome::Continue
            }),
    {
        self.record(fingerprint, status.satisfied);
        if text_verification_is_confirmed(
            status,
            self.satisfied_polls_observed,
            REQUIRED_SATISFIED_POLLS,
            final_poll,
        ) {
            PollOutcome::Confirmed
        } else if final_poll {
            PollOutcome::Stop
        } else {
            PollOutcome::Continue
        }
    }
}

/// The outcome of a requested tap verification once polling ended: confirmed
/// or timed out; stabilized when confirmed after enough identical captures;
/// the tapped and follow-up elements as the last capture showed them (none
/// before any capture, with no change from before the tap).
pub fn tap_verification_result(
    state: &VerificationPollState,
    confirmed: bool,
    wait_until_absent: bool,
    wait_for_selector: Option<UiSelector>,
    elapsed_ms: u128,
    hierarchy_path: Option<String>,
    pre_tapped_present: bool,
    pre_post_present: Option<bool>,
    last_status: Option<TapVerificationStatus>,
) -> (r: TapVerification)
    ensures
        r.requested,
        r.wait_until_absent == wait_until_absent,
        r.wait_for_selector == wait_for_selector,
        r.satisfied == confirmed,
        r.stabilized == (confirmed && state.stability.stable_polls >= REQUIRED_STABLE_POLLS),
        r.stable_polls_observed == state.stability.stable_polls,
        r.stable_polls_required == REQUIRED_STABLE_POLLS,
        r.timed_out == !confirmed,
        r.elapsed_ms == elapsed_ms,
        r.hierarchy_path == hierarchy_path,
        r.tapped_selector_present_pre_tap == Some(pre_tapped_present),
        r.post_selector_matched_pre_tap == pre_post_present,
        r.tapped_selector_still_present == match last_status {
            Some(st) => Some(st.tapped_present),
            None => None,
        },
        r.post_selector_matched == match last_status {
            Some(st) => st.post_present,
            None => None,
        },
        r.ui_changed_from_pre_tap == match last_status {
            Some(st) => st.ui_changed_from_pre_tap,
            None => Some(false),
        },
{
    let (still, post, changed) = match last_status {
        Some(st) => (Some(st.tapped_present), st.post_present, st.ui_changed_from_pre_tap),
        None => (None, None, Some(false)),
    };
    TapVerification {
        requested: true,
        wait_until_absent,
        wait_for_selector,
        satisfied: confirmed,
        stabilized: confirmed && state.stability.stable_polls >= REQUIRED_STABLE_POLLS,
        stable_polls_observed: state.stability.stable_polls,
        stable_polls_required: REQUIRED_STABLE_POLLS,
        timed_out: !confirmed,
        elapsed_ms,
        hierarchy_path,
        tapped_selector_present_pre_tap: Some(pre_tapped_present),
        post_selector_matched_pre_tap: pre_post_present,
        tapped_selector_still_present: still,
        post_selector_matched: post,
        ui_changed_from_pre_tap: changed,
    }
}

/// The outcome of a requested text verification once polling ended, as
/// `tap_verification_result` gives it for a tap; the target selector shown
/// is the public one where given, else the one verified.
pub fn text_verification_result(
    state: &VerificationPollState,
    confirmed: bool,
    public_target_selector: Option<UiSelector>,
    target_selector: Option<UiSelector>,
    wait_for_selector: Option<UiSelector>,
    elapsed_ms: u128,
    hierarchy_path: Option<String>,
    pre_target_present: Option<bool>,
    pre_post_present: Option<bool>,
    last_status: Option<TextVerificationStatus>,
) -> (r: TextVerification)
    ensures
        r.requested,
        r.target_selector == (if public_target_selector is Some {
            public_target_selector
        } else {
            target_selector
        }),
        r.wait_for_selector == wait_for_selector,
        r.satisfied == confirmed,
        r.stabilized == (confirmed && state.stability.stable_polls >= REQUIRED_STABLE_POLLS),
        r.stable_polls_observed == state.stability.stable_polls,
        r.stable_polls_required == REQUIRED_STABLE_POLLS,
        r.timed_out == !confirmed,
        r.elapsed_ms == elapsed_ms,
        r.hierarchy_path == hierarchy_path,
        r.target_selector_present_pre_text == pre_target_present,
        r.post_selector_matched_pre_text == pre_post_present,
        r.target_selector_still_present == match last_status {
            Some(st) => st.target_present,
            None => None,
        },
        r.target_text_matches_requested == match last_status {
            Some(st) => st.target_text_matches_requested,
            None => None,
        },
        r.post_selector_matched == match last_status {
            Some(st) => st.post_present,
            None => None,
        },
        r.ui_changed_from_pre_text == match last_status {
            Some(st) => st.ui_changed_from_pre_text,
            None => Some(false),
        },
{
    let (still, matches, post, changed) = match last_status {
        Some(st) => (st.target_present, st.target_text_matches_requested, st.post_present, st.ui_changed_from_pre_text),
        None => (None, None, None, Some(false)),
    };
    let shown = match public_target_selector {
        Some(p) => Some(p),
        None => target_selector,
    };
    TextVerification {
        requested: true,
        target_selector: shown,
        wait_for_selector,
        satisfied: confirmed,
        stabilized: confirmed && state.stability.stable_polls >= REQUIRED_STABLE_POLLS,
        stable_polls_observed: state.stability.stable_polls,
        stable_polls_required: REQUIRED_STABLE_POLLS,
        timed_out: !confirmed,
        elapsed_ms,
        hierarchy_path,
        target_selector_present_pre_text: pre_target_present,
        post_selector_matched_pre_text: pre_post_present,
        target_selector_still_present: still,
        target_text_matches_requested: matches,
        post_selector_matched: post,
        ui_changed_from_pre_text: changed,
    }
}

/// A tap verification is requested when the tapped element must disappear
/// or a follow-up target must appear.
pub fn tap_verification_requested(
    wait_until_absent: bool,
    wait_for_tracker: Option<&InternalNodeTracker>,
    wait_for_selector: Option<&UiSelector>,
) -> (r: bool)
    ensures
        r == (wait_until_absent || wait_for_tracker is Some || wait_for_selector is Some),
{
    wait_until_absent || wait_for_tracker.is_some() || wait_for_selector.is_some()
}

/// A text verification is requested when there is a target or a follow-up
/// selector.
pub fn text_verification_requested(
    target_tracker: Option<&InternalNodeTracker>,
    target_selector: Option<&UiSelector>,
    wait_for_selector: Option<&UiSelector>,
) -> (r: bool)
    ensures
        r == (target_tracker is Some || target_selector is Some || wait_for_selector is Some),
{
    target_tracker.is_some() || target_selector.is_some() || wait_for_selector.is_some()
}

// ---------------------------------------------------------------------------
// Waiting for a stable UI.
// ---------------------------------------------------------------------------

/// What to do after the fast capture of a stable-UI wait.
#[derive(Debug, Clone, Copy, PartialEq, Eq, Structural)]
pub enum StableFastStep {
    /// Sleep, then poll again.
    Sleep,
    /// Take a full capture.
    Capture,
}

/// What to do after the full capture of a stable-UI wait.
#[derive(Debug, Clone, Copy, PartialEq, Eq, Structural)]
pub enum StableCaptureStep {
    /// Stop polling.
    Stop,
    /// Sleep, then poll again.
    Sleep,
}

/// The state of a stable-UI wait between polls.
#[derive(Debug, Clone)]
pub struct StableUiPollState {
    pub full: StabilityCounter,
    pub fast: StabilityCounter,
    pub use_fast_stability_backend: Option<bool>,
    pub stable_polls: u32,
}

/// A stable-UI wait after a fast fingerprint (`None` when none came): the
/// backend moves on as `next_backend` says; while it works, the fast counter
/// records the fingerprint and gives the stable polls; otherwise the fast
/// counter and the stable polls stay. The full counter stays either way.
pub open spec fn fast_step(before: StableUiPollState, fast: Option<Seq<char>>, after: StableUiPollState) -> bool {
    &&& after.use_fast_stability_backend == next_backend(before.use_fast_stability_backend, fast is Some)
    &&& after.full == before.full
    &&& if after.use_fast_stability_backend == Some(true) {
        &&& fast is Some
        &&& counter_observed(before.fast, fast->0, after.fast)
        &&& after.stable_polls == after.fast.stable_polls
    } else {
        &&& after.fast == before.fast
        &&& after.stable_polls == before.stable_polls
    }
}

/// A stable-UI wait after a full capture: without a fast backend the full
/// counter records the fingerprint and gives the stable polls; otherwise the
/// full counter and the stable polls stay. The fast counter and the backend
/// stay either way.
pub open spec fn capture_step(before: StableUiPollState, fingerprint: Seq<char>, after: StableUiPollState) -> bool {
    &&& after.use_fast_stability_backend == before.use_fast_stability_backend
    &&& after.fast == before.fast
    &&& if before.use_fast_stability_backend == Some(false) {
        &&& counter_observed(before.full, fingerprint, after.full)
        &&& after.stable_polls == after.full.stable_polls
    } else {
        &&& after.full == before.full
        &&& after.stable_polls == before.stable_polls
    }
}

/// `k` capped at `u32::MAX`.
pub open spec fn capped(k: int) -> int {
    if k < u32::MAX {
        k
    } else {
        u32::MAX as int
    }
}

/// A stable-UI wait is stable after consecutive identical fast fingerprints:
/// from a wait whose fast backend was not found wanting, `k` fast
/// fingerprints in a row, all equal, leave the backend on and at least `k`
/// stable polls counted (up to `u32::MAX`).
pub proof fn lemma_identical_fast_fingerprints_stabilize_wait(ss: Seq<StableUiPollState>, fingerprint: Seq<char>)
    requires
        ss.len() >= 1,
        ss[0].use_fast_stability_backend != Some(false),
        forall|i: int| 0 <= i < ss.len() - 1 ==> fast_step(#[trigger] ss[i], Some(fingerprint), ss[i + 1]),
    ensures
        forall|k: int|
            1 <= k < ss.len() ==> (#[trigger] ss[k]).use_fast_stability_backend == Some(true)
                && ss[k].stable_polls >= capped(k),
{
    let cs = Seq::new(ss.len(), |i: int| ss[i].fast);
    assert forall|k: int| 0 <= k < ss.len() implies (#[trigger] ss[k]).use_fast_stability_backend != Some(false)
        by {
        if k > 0 {
            lemma_fast_backend_stays_on(ss, fingerprint, k);
        }
    }
    assert forall|i: int| 0 <= i < cs.len() - 1 implies counter_observed(#[trigger] cs[i], fingerprint, cs[i + 1])
        by {
        assert(fast_step(ss[i], Some(fingerprint), ss[i + 1]));
        assert(ss[i].use_fast_stability_backend != Some(false));
    }
    lemma_identical_fingerprints_stabilize(cs, fingerprint);
    assert forall|k: int| 1 <= k < ss.len() implies (#[trigger] ss[k]).use_fast_stability_backend == Some(true)
        && ss[k].stable_polls >= capped(k) by {
        assert(fast_step(ss[k - 1], Some(fingerprint), ss[k]));
        assert(ss[k - 1].use_fast_stability_backend != Some(false));
        assert(cs[k] == ss[k].fast);
    }
}

proof fn lemma_fast_backend_stays_on(ss: Seq<StableUiPollState>, fingerprint: Seq<char>, k: int)
    requires
        0 <= k < ss.len(),
        ss[0].use_fast_stability_backend != Some(false),
        forall|i: int| 0 <= i < ss.len() - 1 ==> fast_step(#[trigger] ss[i], Some(fingerprint), ss[i + 1]),
    ensures
        ss[k].use_fast_stability_backend != Some(false),
    decreases k,
{
    if k > 0 {
        lemma_fast_backend_stays_on(ss, fingerprint, k - 1);
        assert(fast_step(ss[k - 1], Some(fingerprint), ss[k]));
    }
}

/// Without a fast backend, a stable-UI wait is stable after consecutive
/// identical full captures: `k` captures in a row with equal fingerprints
/// leave at least `k` stable polls counted (up to `u32::MAX`).
pub proof fn lemma_identical_captures_stabilize_wait(ss: Seq<StableUiPollState>, fingerprint: Seq<char>)
    requires
        ss.len() >= 1,
        ss[0].use_fast_stability_backend == Some(false),
        forall|i: int| 0 <= i < ss.len() - 1 ==> capture_step(#[trigger] ss[i], fingerprint, ss[i + 1]),
    ensures
        forall|k: int| 1 <= k < ss.len() ==> (#[trigger] ss[k]).stable_polls >= capped(k),
{
    let cs = Seq::new(ss.len(), |i: int| ss[i].full);
    assert forall|k: int| 0 <= k < ss.len() implies (#[trigger] ss[k]).use_fast_stability_backend == Some(false)
        by {
        lemma_backend_stays_off(ss, fingerprint, k);
    }
    assert forall|i: int| 0 <= i < cs.len() - 1 implies counter_observed(#[trigger] cs[i], fingerprint, cs[i + 1])
        by {
        assert(capture_step(ss[i], fingerprint, ss[i + 1]));
        assert(ss[i].use_fast_stability_backend == Some(false));
    }
    lemma_identical_fingerprints_stabilize(cs, fingerprint);
    assert forall|k: int| 1 <= k < ss.len() implies (#[trigger] ss[k]).stable_polls >= capped(k) by {
        assert(capture_step(ss[k - 1], fingerprint, ss[k]));
        assert(ss[k - 1].use_fast_stability_backend == Some(false));
        assert(cs[k] == ss[k].full);
    }
}

proof fn lemma_backend_stays_off(ss: Seq<StableUiPollState>, fingerprint: Seq<char>, k: int)
    requires
        0 <= k < ss.len(),
        ss[0].use_fast_stability_backend == Some(false),
        forall|i: int| 0 <= i < ss.len() - 1 ==> capture_step(#[trigger] ss[i], fingerprint, ss[i + 1]),
    ensures
        ss[k].use_fast_stability_backend == Some(false),
    decreases k,
{
    if k > 0 {
        lemma_backend_stays_off(ss, fingerprint, k - 1);
        assert(capture_step(ss[k - 1], fingerprint, ss[k]));
    }
}

impl StableUiPollState {
    pub fn new() -> (r: Self)
        ensures
            r.full.last is None,
            r.full.stable_polls == 0,
            r.fast.last is None,
            r.fast.stable_polls == 0,
            r.stable_polls == 0,
            r.use_fast_stability_backend is None,
    {
        StableUiPollState {
            full: StabilityCounter::new(),
            fast: StabilityCounter::new(),
            use_fast_stability_backend: None,
            stable_polls: 0,
        }
    }

    /// A fast fingerprint is taken unless the backend was found wanting.
    pub fn wants_fast_fingerprint(&self) -> (r: bool)
        ensures
            r == (self.use_fast_stability_backend != Some(false)),
    {
        match self.use_fast_stability_backend {
            Some(false) => false,
            _ => true,
        }
    }

    /// Records a fast fingerprint. While the fast backend works, stability
    /// is counted on fast fingerprints and a full capture is taken only once
    /// the UI is stable or on the last poll.
    pub fn after_fast_fingerprint(&mut self, fast: Option<String>, required_stable_polls: u32, final_poll: bool) -> (r:
        StableFastStep)
        ensures
            fast_step(*old(self), opt_view(fast), *final(self)),
            r == (if final(self).use_fast_stability_backend == Some(true) && final(self).stable_polls
                < required_stable_polls && !final_poll {
                StableFastStep::Sleep
            } else {
                StableFastStep::Capture
            }),
    {
        let present = fast.is_some();
        self.use_fast_stability_backend = match self.use_fast_stability_backend {
            None => Some(present),
            Some(true) => Some(present),
            Some(false) => Some(false),
        };
        if self.use_fast_stability_backend == Some(true) {
            match fast {
                Some(f) => {
                    self.fast.observe(f);
                    self.stable_polls = self.fast.stable_polls;
                },
                None => {},
            }
        }
        if self.use_fast_stability_backend == Some(true) && self.stable_polls < required_stable_polls
            && !final_poll {
            StableFastStep::Sleep
        } else {
            StableFastStep::Capture
        }
    }

    /// Records a full capture. Without a fast backend, stability is counted
    /// on full fingerprints. Polling stops once the UI is stable or after
    /// the last poll.
    pub fn after_capture(&mut self, fingerprint: String, required_stable_polls: u32, final_poll: bool) -> (r:
        StableCaptureStep)
        ensures
            capture_step(*old(self), fingerprint@, *final(self)),
            r == (if final(self).stable_polls >= required_stable_polls || final_poll {
                StableCaptureStep::Stop
            } else {
                StableCaptureStep::Sleep
            }),
    {
        if self.use_fast_stability_backend == Some(false) {
            self.full.observe(fingerprint);
            self.stable_polls = self.full.stable_polls;
        }
        if self.stable_polls >= required_stable_polls || final_poll {
            StableCaptureStep::Stop
        } else {
            StableCaptureStep::Sleep
        }
    }
}

/// What a stable-UI wait reports of its polls.
#[derive(Debug, Clone, Copy, PartialEq, Eq, Structural)]
pub struct StableUiOutcome {
    pub stabilized: bool,
    pub timed_out: bool,
    pub elapsed_ms: u128,
    pub stable_polls_observed: u32,
    pub stable_polls_required: u32,
}

/// The result of a stable-UI wait once polling ended: an error where no
/// observation was captured; else stabilized when enough identical polls
/// were counted, and timed out otherwise.
pub fn stable_ui_result(
    state: &StableUiPollState,
    required_stable_polls: u32,
    captured: bool,
    elapsed_ms: u128,
) -> (r: Result<StableUiOutcome, McpError>)
    ensures
        !captured ==> (r matches Err(e) && e.kind == ErrorKind::InternalError && e.message@
            == "android.wait_for_stable_ui timed out before a UI observation could be captured"@),
        captured ==> r == Ok::<StableUiOutcome, McpError>(
            StableUiOutcome {
                stabilized: state.stable_polls >= required_stable_polls,
                timed_out: !(state.stable_polls >= required_stable_polls),
                elapsed_ms,
                stable_polls_observed: state.stable_polls,
                stable_polls_required: required_stable_polls,
            },
        ),
{
    if !captured {
        return Err(
            McpError::internal_error(
                owned("android.wait_for_stable_ui timed out before a UI observation could be captured"),
            ),
        );
    }
    let stabilized = state.stable_polls >= required_stable_polls;
    Ok(
        StableUiOutcome {
            stabilized,
            timed_out: !stabilized,
            elapsed_ms,
            stable_polls_observed: state.stable_polls,
            stable_polls_required: required_stable_polls,
        },
    )
}

// ---------------------------------------------------------------------------
// Scrolling until an element shows.
// ---------------------------------------------------------------------------

/// What a system-dialog check found on a capture.
#[derive(Debug, Clone, Copy, PartialEq, Eq, Structural)]
pub enum DialogCheck {
    /// No system dialog.
    Clear,
    /// A system dialog was dismissed; capture again.
    Handled,
    /// A system dialog blocks the screen.
    Blocked,
}

/// What to do after a capture while scrolling until an element shows.
#[derive(Debug)]
pub enum ScrollStep {
    /// Capture again without swiping.
    Recapture,
    /// A system dialog blocks the screen: report it and stop.
    Blocked,
    /// The element showed.
    Found(ResolvedNodeSelection),
    /// The selector matched, but not one element.
    Unresolved(SelectionFailure),
    /// Nothing matched: swipe, then capture again.
    Swipe,
    /// Nothing matched and the swipe budget is spent.
    Exhausted,
}

/// The step after capture number `swipe_index` (from 0) of a scroll that
/// may swipe `max_swipes` times.
pub fn scroll_until_visible_step(
    swipe_index: u32,
    max_swipes: u32,
    dialog: DialogCheck,
    nodes: &[NormalizedUiNode],
    selector: &UiSelector,
    match_index: Option<usize>,
) -> (r: ScrollStep)
    ensures
        dialog == DialogCheck::Handled ==> r is Recapture,
        dialog == DialogCheck::Blocked ==> r is Blocked,
        dialog == DialogCheck::Clear ==> match r {
            ScrollStep::Found(sel) => resolved_index(matching(nodes@, *selector), match_index) == Some(
                sel.selected_match_index as int,
            ) && sel.node == matching(nodes@, *selector)[sel.selected_match_index as int]
                && sel.match_count == matching(nodes@, *selector).len(),
            ScrollStep::Unresolved(f) => matching(nodes@, *selector).len() > 0 && resolved_index(
                matching(nodes@, *selector),
                match_index,
            ) is None && !(f is NoMatches) && selection_failure_for(matching(nodes@, *selector), match_index, f),
            ScrollStep::Swipe => matching(nodes@, *selector).len() == 0 && swipe_index < max_swipes,
            ScrollStep::Exhausted => matching(nodes@, *selector).len() == 0 && swipe_index >= max_swipes,
            _ => false,
        },
{
    match dialog {
        DialogCheck::Handled => {
            return ScrollStep::Recapture;
        },
        DialogCheck::Blocked => {
            return ScrollStep::Blocked;
        },
        DialogCheck::Clear => {},
    }
    let matches = matching_nodes(nodes, selector).matches;
    let ghost ms = matches@;
    match resolve_node_selection(matches, match_index) {
        Ok(selection) => ScrollStep::Found(selection),
        Err(SelectionFailure::NoMatches) => {
            if swipe_index < max_swipes {
                ScrollStep::Swipe
            } else {
                ScrollStep::Exhausted
            }
        },
        Err(failure) => ScrollStep::Unresolved(failure),
    }
}

// ---------------------------------------------------------------------------
// Postconditions from one observation.
// ---------------------------------------------------------------------------

/// The selection part of a postcondition: the node, the number of matches,
/// the selected index, the candidates, and whether the selector (if any)
/// resolved.
pub struct SelectorEvidence {
    pub node: Option<NormalizedUiNode>,
    pub match_count: usize,
    pub selected_match_index: Option<usize>,
    pub candidate_summary: Vec<SelectorCandidateSummary>,
    pub satisfied: bool,
}

/// The selection evidence of a capture: without a selector it is satisfied
/// with nothing selected; with one, it is satisfied when the selection
/// resolves, and otherwise reports the matches and candidates it saw.
pub fn selector_evidence(nodes: &[NormalizedUiNode], selector: Option<&UiSelector>, match_index: Option<usize>) -> (r:
    SelectorEvidence)
    ensures
        match selector {
            None => r.satisfied && r.node is None && r.match_count == 0 && r.selected_match_index is None
                && r.candidate_summary@.len() == 0,
            Some(s) => {
                let ms = matching(nodes@, *s);
                &&& r.satisfied == (resolved_index(ms, match_index) is Some)
                &&& r.match_count == ms.len()
                &&& r.satisfied ==> (r.selected_match_index matches Some(i) && resolved_index(ms, match_index)
                    == Some(i as int) && r.node == Some(ms[i as int]) && r.candidate_summary@ == summaries(ms))
                &&& !r.satisfied ==> r.node is None && r.selected_match_index is None
                &&& (!r.satisfied && ms.len() > 0) ==> r.candidate_summary@ == summaries(ms)
                &&& (!r.satisfied && ms.len() == 0) ==> r.candidate_summary@.len() == 0
            },
        },
{
    let s = match selector {
        None => {
            return SelectorEvidence {
                node: None,
                match_count: 0,
                selected_match_index: None,
                candidate_summary: Vec::new(),
                satisfied: true,
            };
        },
        Some(s) => s,
    };
    let matches = matching_nodes(nodes, s).matches;
    match resolve_node_selection(matches, match_index) {
        Ok(selection) => SelectorEvidence {
            node: Some(selection.node),
            match_count: selection.match_count,
            selected_match_index: Some(selection.selected_match_index),
            candidate_summary: selection.candidates,
            satisfied: true,
        },
        Err(SelectionFailure::NoMatches) => SelectorEvidence {
            node: None,
            match_count: 0,
            selected_match_index: None,
            candidate_summary: Vec::new(),
            satisfied: false,
        },
        Err(SelectionFailure::Ambiguous { match_count, candidates }) => SelectorEvidence {
            node: None,
            match_count,
            selected_match_index: None,
            candidate_summary: candidates,
            satisfied: false,
        },
        Err(SelectionFailure::MatchIndexOutOfRange { match_count, candidates, .. }) => SelectorEvidence {
            node: None,
            match_count,
            selected_match_index: None,
            candidate_summary: candidates,
            satisfied: false,
        },
    }
}

/// The postcondition that one hierarchy observation shows: the window state
/// must match the wanted activity and package, and the selector (if any)
/// must resolve.
pub fn postcondition_from_observation(
    window_state: &AndroidWindowState,
    nodes: &[NormalizedUiNode],
    selector: Option<&UiSelector>,
    match_index: Option<usize>,
    wait_for_activity: Option<&str>,
    wait_for_package: Option<&str>,
    hierarchy_path: String,
    screenshot_path: Option<String>,
    elapsed_ms: u128,
) -> (r: ToolPostconditionResult)
    ensures
        r.requested,
        !r.timed_out,
        r.elapsed_ms == elapsed_ms,
        r.evidence_source == Some(ToolPostconditionEvidenceSource::UiHierarchy),
        r.hierarchy_path == Some(hierarchy_path),
        r.screenshot_path == screenshot_path,
        r.observed_activity == window_state.resumed_activity,
        opt_view(r.observed_package) == spec_observed_package(*window_state),
        r.satisfied == (spec_window_state_ok_for(*window_state, opt_str(wait_for_activity), opt_str(wait_for_package))
            && match selector {
            Some(s) => resolved_index(matching(nodes@, *s), match_index) is Some,
            None => true,
        }),
        match selector {
            Some(s) => r.match_count == matching(nodes@, *s).len(),
            None => r.match_count == 0 && r.node is None,
        },
{
    let (observed_activity, observed_package, window_ok) = window_state_postcondition_matches(
        window_state,
        wait_for_activity,
        wait_for_package,
    );
    let evidence = selector_evidence(nodes, selector, match_index);
    ToolPostconditionResult {
        requested: true,
        satisfied: evidence.satisfied && window_ok,
        timed_out: false,
        elapsed_ms,
        evidence_source: Some(ToolPostconditionEvidenceSource::UiHierarchy),
        hierarchy_path: Some(hierarchy_path),
        screenshot_path,
        observed_activity,
        observed_package,
        node: evidence.node,
        match_count: evidence.match_count,
        selected_match_index: evidence.selected_match_index,
        candidate_summary: evidence.candidate_summary,
    }
}

/// The postcondition that one window-state read shows.
pub fn postcondition_from_window_state(
    window_state: &AndroidWindowState,
    wait_for_activity: Option<&str>,
    wait_for_package: Option<&str>,
    elapsed_ms: u128,
) -> (r: ToolPostconditionResult)
    ensures
        r.requested,
        !r.timed_out,
        r.elapsed_ms == elapsed_ms,
        r.evidence_source == Some(ToolPostconditionEvidenceSource::WindowState),
        r.hierarchy_path is None && r.screenshot_path is None,
        r.observed_activity == window_state.resumed_activity,
        opt_view(r.observed_package) == spec_observed_package(*window_state),
        r.satisfied == spec_window_state_ok_for(*window_state, opt_str(wait_for_activity), opt_str(wait_for_package)),
        r.node is None && r.match_count == 0 && r.selected_match_index is None,
        r.candidate_summary@.len() == 0,
{
    let (observed_activity, observed_package, satisfied) = window_state_postcondition_matches(
        window_state,
        wait_for_activity,
        wait_for_package,
    );
    ToolPostconditionResult {
        requested: true,
        satisfied,
        timed_out: false,
        elapsed_ms,
        evidence_source: Some(ToolPostconditionEvidenceSource::WindowState),
        hierarchy_path: None,
        screenshot_path: None,
        observed_activity,
        observed_package,
        node: None,
        match_count: 0,
        selected_match_index: None,
        candidate_summary: Vec::new(),
    }
}

/// The result of a postcondition that was not requested: satisfied at once.
pub fn unrequested_postcondition() -> (r: ToolPostconditionResult)
    ensures
        !r.requested && r.satisfied && !r.timed_out && r.elapsed_ms == 0,
        r.evidence_source is None && r.node is None && r.match_count == 0,
{
    ToolPostconditionResult {
        requested: false,
        satisfied: true,
        timed_out: false,
        elapsed_ms: 0,
        evidence_source: None,
        hierarchy_path: None,
        screenshot_path: None,
        observed_activity: None,
        observed_package: None,
        node: None,
        match_count: 0,
        selected_match_index: None,
        candidate_summary: Vec::new(),
    }
}

/// A postcondition is requested when there is a selector, an activity or a
/// package to wait for; its polls take a fast path (fast fingerprints
/// first) only when waiting for a selector alone.
pub fn postcondition_plan(selector_present: bool, wait_for_activity: Option<&str>, wait_for_package: Option<&str>) -> (r:
    (bool, bool))
    ensures
        r.0 == (selector_present || wait_for_activity is Some || wait_for_package is Some),
        r.1 == (selector_present && wait_for_activity is None && wait_for_package is None),
{
    (
        selector_present || wait_for_activity.is_some() || wait_for_package.is_some(),
        selector_present && wait_for_activity.is_none() && wait_for_package.is_none(),
    )
}


// ---------------------------------------------------------------------------
// Capturing the hierarchy.
// ---------------------------------------------------------------------------

/// How many times a legacy dump is pulled before giving up.
pub const UI_DUMP_PULL_MAX_ATTEMPTS: u32 = 3;
/// The pause between pulls, in milliseconds.
pub const UI_DUMP_PULL_RETRY_DELAY_MS: u64 = 100;

/// What to do after the `exec-out uiautomator dump` attempt.
#[derive(Debug)]
pub enum ExecOutDumpStep {
    /// The output held a hierarchy: save it.
    Done(String),
    /// Fall back to the shell stream.
    Fallback,
    /// Fail with this error.
    Fail(McpError),
}

/// The step after the first capture attempt: a hierarchy in its output is
/// kept; output without one, or a failure that says `exec-out` is not
/// supported, falls back; any other failure is final.
pub fn exec_out_dump_step(outcome: Result<CommandOutput, McpError>) -> (r: ExecOutDumpStep)
    ensures
        match outcome {
            Ok(o) => match spec_extract_hierarchy(o.stdout@) {
                Some(x) => r matches ExecOutDumpStep::Done(s) && s@ == x,
                None => r is Fallback,
            },
            Err(e) => if spec_exec_out_unsupported(e.message@) {
                r is Fallback
            } else {
                r matches ExecOutDumpStep::Fail(f) && f == e
            },
        },
{
    match outcome {
        Ok(output) => match extract_uiautomator_hierarchy_xml(output.stdout.as_str()) {
            Some(xml) => ExecOutDumpStep::Done(xml),
            None => ExecOutDumpStep::Fallback,
        },
        Err(error) => {
            if is_exec_out_uiautomator_supported_failure(&error) {
                ExecOutDumpStep::Fallback
            } else {
                ExecOutDumpStep::Fail(error)
            }
        },
    }
}

/// What to do after a failed pull of the legacy dump.
#[derive(Debug, Clone, Copy, PartialEq, Eq, Structural)]
pub enum PullRetryStep {
    /// Sleep this long, then dump and pull again.
    Retry(u64),
    /// Stop retrying and report the capture as unavailable.
    GiveUp,
    /// The failure is not one that a retry cures: report it.
    Fail,
}

/// What one shell-stream dump attempt came to.
#[derive(Debug)]
pub enum StreamAttemptStep {
    /// The output held a hierarchy: save it.
    Captured(String),
    /// A failure that a retry may cure; remember it as the last error.
    Retryable(McpError),
    /// Fail with this error.
    Fail(McpError),
}

/// The step after a shell-stream dump attempt: a hierarchy in its output is
/// kept; output without one counts as a retryable failure; a failure that
/// `should_retry_ui_dump_pull` accepts is retryable; any other is final.
pub fn stream_attempt_step(outcome: Result<CommandOutput, McpError>) -> (r: StreamAttemptStep)
    ensures
        match outcome {
            Ok(o) => match spec_extract_hierarchy(o.stdout@) {
                Some(x) => r matches StreamAttemptStep::Captured(s) && s@ == x,
                None => r matches StreamAttemptStep::Retryable(e) && e.kind == ErrorKind::InternalError
                    && e.message@ == "UI hierarchy stream completed without hierarchy XML"@,
            },
            Err(e) => if spec_retry_pull(e.message@) {
                r matches StreamAttemptStep::Retryable(f) && f == e
            } else {
                r matches StreamAttemptStep::Fail(f) && f == e
            },
        },
{
    match outcome {
        Ok(output) => match extract_uiautomator_hierarchy_xml(output.stdout.as_str()) {
            Some(xml) => StreamAttemptStep::Captured(xml),
            None => StreamAttemptStep::Retryable(
                McpError::internal_error(owned("UI hierarchy stream completed without hierarchy XML")),
            ),
        },
        Err(error) => {
            if should_retry_ui_dump_pull(&error) {
                StreamAttemptStep::Retryable(error)
            } else {
                StreamAttemptStep::Fail(error)
            }
        },
    }
}

/// The error of a shell-stream dump whose attempts ran out: the last
/// failure, else one that says none was seen.
pub fn stream_final_error(last_error: Option<McpError>) -> (e: McpError)
    ensures
        match last_error {
            Some(l) => e == l,
            None => e.kind == ErrorKind::InternalError && e.message@
                == "UI hierarchy stream failed without a captured adb error"@,
        },
{
    match last_error {
        Some(l) => l,
        None => McpError::internal_error(owned("UI hierarchy stream failed without a captured adb error")),
    }
}

/// The step after pull attempt `attempt` (from 0) failed: a missing remote
/// file is retried until the attempts run out, after a pause that the
/// deadline (if any, through the time left) may shorten; when no time is
/// left, retrying stops.
pub fn pull_retry_step(attempt: u32, retryable: bool, remaining_ms: Option<u64>) -> (r: PullRetryStep)
    ensures
        !retryable ==> r == PullRetryStep::Fail,
        retryable && attempt + 1 >= UI_DUMP_PULL_MAX_ATTEMPTS ==> r == PullRetryStep::GiveUp,
        retryable && attempt + 1 < UI_DUMP_PULL_MAX_ATTEMPTS ==> match remaining_ms {
            None => r == PullRetryStep::Retry(UI_DUMP_PULL_RETRY_DELAY_MS),
            Some(left) => if left == 0 {
                r == PullRetryStep::GiveUp
            } else {
                r == PullRetryStep::Retry(if left < UI_DUMP_PULL_RETRY_DELAY_MS {
                    left
                } else {
                    UI_DUMP_PULL_RETRY_DELAY_MS
                })
            },
        },
{
    if !retryable {
        return PullRetryStep::Fail;
    }
    if attempt >= UI_DUMP_PULL_MAX_ATTEMPTS - 1 {
        return PullRetryStep::GiveUp;
    }
    match remaining_ms {
        None => PullRetryStep::Retry(UI_DUMP_PULL_RETRY_DELAY_MS),
        Some(left) => {
            let delay = if left < UI_DUMP_PULL_RETRY_DELAY_MS {
                left
            } else {
                UI_DUMP_PULL_RETRY_DELAY_MS
            };
            if delay == 0 {
                PullRetryStep::GiveUp
            } else {
                PullRetryStep::Retry(delay)
            }
        },
    }
}


// ---------------------------------------------------------------------------
// Waiting for a rotation.
// ---------------------------------------------------------------------------

/// What a rotation wait does after a reading.
#[derive(Debug, Clone, Copy, PartialEq, Eq, Structural)]
pub enum RotationStep {
    /// The device reports the expected rotation (counted modulo four).
    Reached(u8),
    /// Read again; carries the last rotation seen, if any.
    Again(Option<u8>),
}

/// The step after one `user_rotation` reading: a reading that is a `u8`
/// counts modulo four and ends the wait when it is the expected rotation;
/// other readings leave the last rotation seen as it was.
pub fn rotation_wait_step(expected_rotation: u8, reading: &str, last_observed: Option<u8>) -> (r: RotationStep)
    ensures
        match parse_integer(trim(reading@), 0, 255) {
            Ok(v) => if v % 4 == expected_rotation % 4 {
                r == RotationStep::Reached((v % 4) as u8)
            } else {
                r == RotationStep::Again(Some((v % 4) as u8))
            },
            Err(_) => r == RotationStep::Again(last_observed),
        },
{
    let t = trimmed(reading);
    proof {
        lemma_parse_unsigned_narrower(t@, 255, 65535);
    }
    match parse_u16_checked(t.as_slice()) {
        Ok(v) => {
            if v > 255 {
                return RotationStep::Again(last_observed);
            }
            let normalized: u8 = (v % 4) as u8;
            if normalized == expected_rotation % 4 {
                RotationStep::Reached(normalized)
            } else {
                RotationStep::Again(Some(normalized))
            }
        },
        Err(_) => RotationStep::Again(last_observed),
    }
}

/// The error of a rotation wait that ran out of time.
pub fn rotation_timeout_error(expected_rotation: u8, last_observed: Option<u8>) -> (r: McpError)
    ensures
        r.kind == ErrorKind::InternalError,
        r.message@ == "timed out waiting for Android user_rotation="@ + decimal((expected_rotation % 4) as nat)
            + "; last observed "@ + match last_observed {
            Some(v) => decimal(v as nat),
            None => "none"@,
        },
{
    let mut m = chars_of("timed out waiting for Android user_rotation=");
    push_decimal(&mut m, (expected_rotation % 4) as u64);
    append_str(&mut m, "; last observed ");
    match last_observed {
        Some(v) => push_decimal(&mut m, v as u64),
        None => append_str(&mut m, "none"),
    }
    McpError::internal_error(string_of(m.as_slice()))
}


// ---------------------------------------------------------------------------
// Boot readiness.
// ---------------------------------------------------------------------------

/// The pause between two boot checks, in milliseconds.
pub const BOOT_POLL_INTERVAL_MS: u64 = 2000;

/// `getprop sys.boot_completed` reports a finished boot with `1`.
pub fn boot_completed(getprop_output: &str) -> (r: bool)
    ensures
        r == (trim(getprop_output@) == "1"@),
{
    let t = trimmed(getprop_output);
    let one = chars_of("1");
    chars_eq(t.as_slice(), one.as_slice())
}

/// `pm path android` shows a responsive package manager by printing the
/// framework's `package:` path; that line, trimmed, is the evidence.
pub fn package_manager_ready(pm_output: &str) -> (r: Option<String>)
    ensures
        starts_with(trim(pm_output@), "package:"@) ==> (r matches Some(x) && x@ == trim(pm_output@)),
        !starts_with(trim(pm_output@), "package:"@) ==> r is None,
{
    let t = trimmed(pm_output);
    if starts_with_str(t.as_slice(), "package:") {
        Some(string_of(t.as_slice()))
    } else {
        None
    }
}

/// What `Debug` writes for `std::time::Duration::from_millis(ms)`.
pub uninterp spec fn duration_debug_text(ms: nat) -> Seq<char>;

/// `format!("{:?}", Duration::from_millis(ms))`. Claimed: the text is a
/// function of the milliseconds, named `duration_debug_text`.
#[verifier::external_body]
pub(crate) fn duration_debug(ms: u64) -> (r: String)
    ensures
        r@ == duration_debug_text(ms as nat),
{
    format!("{:?}", std::time::Duration::from_millis(ms))
}

/// The error of a device that did not finish booting in time.
pub fn boot_readiness_timeout_error(serial: &str, timeout_ms: u64) -> (e: McpError)
    ensures
        e.kind == ErrorKind::InternalError,
        e.message@ == "device "@ + serial@ + " did not reach boot readiness within "@
            + duration_debug_text(timeout_ms as nat),
{
    let d = duration_debug(timeout_ms);
    let mut v = chars_of("device ");
    append_str(&mut v, serial);
    append_str(&mut v, " did not reach boot readiness within ");
    append_str(&mut v, d.as_str());
    McpError::internal_error(string_of(v.as_slice()))
}

} // verus!
