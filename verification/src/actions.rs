//! The decisions of the element tools between their device calls: waiting
//! for an element, focusing a field before typing into it, and what a raw
//! tap or text entry verifies afterwards.
use vstd::prelude::*;
use crate::adb::{node_matches_requested_text};
use crate::error::{ErrorKind, McpError};
use crate::polling::{DialogCheck};
use crate::text::{append_str, chars_of, string_of};
use crate::ui::{selection_failure_for, selector_debug, selector_debug_text, selector_flags, selector_texts, NormalizedUiNode, ResolvedNodeSelection, SelectionFailure, SelectorCandidateSummary, UiSelector, clone_opt, empty_selector, focus_verification_target_selector, matching, matching_nodes, opt_view, resolve_node_selection, resolved_index, selector_candidate_summary, some_if, summaries, text_verification_target_selector};
use crate::verification::{InternalNodeTracker, TapVerification, TextVerification, ToolPostconditionEvidenceSource, ToolPostconditionResult, any_node, identity_tracker, text_pred, tracker_matches_node, tracker_pred, unref};

verus! {

// ---------------------------------------------------------------------------
// Waiting for an element.
// ---------------------------------------------------------------------------

/// What to do after a capture while waiting for an element.
#[derive(Debug)]
pub enum WaitElementStep {
    /// A system dialog was dismissed: capture again at once.
    Recapture,
    /// A system dialog blocks the screen: report it and stop.
    Blocked,
    /// The element is present and resolves to one node.
    Present(ResolvedNodeSelection),
    /// The element is absent, as waited for.
    Absent,
    /// The selector matched, but not one element: report it and stop.
    Unresolved(SelectionFailure),
    /// Not yet: sleep, then capture again. Carries what this capture matched.
    Pending { match_count: usize, candidates: Vec<SelectorCandidateSummary> },
}

/// The step after one capture of `android.wait_for_ui_element`. Waiting for
/// presence succeeds once the selection resolves and keeps polling while
/// nothing matches; waiting for absence succeeds once nothing matches.
pub fn wait_for_ui_element_step(
    dialog: DialogCheck,
    nodes: &[NormalizedUiNode],
    selector: &UiSelector,
    match_index: Option<usize>,
    absent: bool,
) -> (r: WaitElementStep)
    ensures
        dialog == DialogCheck::Handled ==> r is Recapture,
        dialog == DialogCheck::Blocked ==> r is Blocked,
        dialog == DialogCheck::Clear ==> {
            let m = matching(nodes@, *selector);
            match r {
                WaitElementStep::Present(sel) => !absent && resolved_index(m, match_index) == Some(
                    sel.selected_match_index as int,
                ) && sel.node == m[sel.selected_match_index as int] && sel.match_count == m.len()
                    && sel.candidates@ == summaries(m),
                WaitElementStep::Absent => absent && m.len() == 0,
                WaitElementStep::Unresolved(f) => !absent && m.len() > 0 && resolved_index(
                    m,
                    match_index,
                ) is None && !(f is NoMatches) && selection_failure_for(m, match_index, f),
                WaitElementStep::Pending { match_count, candidates } => (if absent {
                    m.len() > 0
                } else {
                    m.len() == 0
                }) && match_count == m.len() && candidates@ == summaries(m),
                _ => false,
            }
        },
{
    match dialog {
        DialogCheck::Handled => {
            return WaitElementStep::Recapture;
        },
        DialogCheck::Blocked => {
            return WaitElementStep::Blocked;
        },
        DialogCheck::Clear => {},
    }
    let matches = matching_nodes(nodes, selector).matches;
    let candidates = selector_candidate_summary(matches.as_slice());
    let match_count = matches.len();
    if absent {
        if match_count == 0 {
            WaitElementStep::Absent
        } else {
            WaitElementStep::Pending { match_count, candidates }
        }
    } else {
        match resolve_node_selection(matches, match_index) {
            Ok(selection) => WaitElementStep::Present(selection),
            Err(SelectionFailure::NoMatches) => WaitElementStep::Pending { match_count, candidates },
            Err(failure) => WaitElementStep::Unresolved(failure),
        }
    }
}

// ---------------------------------------------------------------------------
// Typing into an element.
// ---------------------------------------------------------------------------

/// The selector that `focus_verification_target_selector` builds.
pub open spec fn focus_selector_for(node: NormalizedUiNode) -> UiSelector {
    UiSelector {
        text: node.text,
        content_desc: node.content_desc,
        resource_id: node.resource_id,
        focusable: some_if(node.focusable),
        focused: Some(true),
        ..empty_selector()
    }
}

/// The selector that `text_verification_target_selector` builds.
pub open spec fn text_selector_for(node: NormalizedUiNode) -> UiSelector {
    UiSelector {
        resource_id: node.resource_id,
        clickable: some_if(node.clickable),
        focusable: some_if(node.focusable),
        long_clickable: some_if(node.long_clickable),
        ..empty_selector()
    }
}

/// The tracker that finds `node` once it holds focus: by identity where it
/// has bounds, else by its focus selector.
pub open spec fn focus_tracker_for(node: NormalizedUiNode) -> InternalNodeTracker {
    match identity_tracker(node, Some(true)) {
        Some(t) => t,
        None => InternalNodeTracker::Selector(focus_selector_for(node)),
    }
}

/// How to put the focus on the element before typing.
pub struct FocusPlan {
    /// The selector that is satisfied once the element holds focus.
    pub target_selector: UiSelector,
    /// The tracker that finds the element once it holds focus.
    pub tracker: InternalNodeTracker,
    /// The element holds focus already: no tap is needed.
    pub already_focused: bool,
}

/// The focus plan for the selected element, given the capture it was selected from.
pub fn plan_focus(node: &NormalizedUiNode, pre_tap_nodes: &[NormalizedUiNode]) -> (r: FocusPlan)
    ensures
        r.target_selector == focus_selector_for(*node),
        r.tracker == focus_tracker_for(*node),
        r.already_focused == any_node(pre_tap_nodes@, tracker_pred(focus_tracker_for(*node))),
{
    let target_selector = focus_verification_target_selector(node);
    let tracker = match InternalNodeTracker::from_target_node_with_focus(node, Some(true)) {
        Some(t) => t,
        None => InternalNodeTracker::Selector(target_selector.duplicate()),
    };
    let mut already_focused = false;
    let mut i: usize = 0;
    while i < pre_tap_nodes.len()
        invariant
            i <= pre_tap_nodes.len(),
            tracker == focus_tracker_for(*node),
            already_focused == exists|k: int|
                0 <= k < i && tracker_pred(tracker)(#[trigger] pre_tap_nodes@[k]),
        decreases pre_tap_nodes.len() - i,
    {
        if tracker_matches_node(&pre_tap_nodes[i], &tracker) {
            already_focused = true;
        }
        i = i + 1;
    }
    FocusPlan { target_selector, tracker, already_focused }
}

/// The focus verification of an element that held focus before any tap:
/// satisfied at once, with the capture it was seen on.
pub fn already_focused_verification(target_selector: UiSelector, hierarchy_path: String) -> (r:
    TapVerification)
    ensures
        r.requested && r.satisfied && r.stabilized && !r.timed_out,
        !r.wait_until_absent,
        r.wait_for_selector == Some(target_selector),
        r.stable_polls_observed == 0 && r.stable_polls_required == 0 && r.elapsed_ms == 0,
        r.hierarchy_path == Some(hierarchy_path),
        r.tapped_selector_present_pre_tap == Some(true),
        r.post_selector_matched_pre_tap == Some(true),
        r.tapped_selector_still_present == Some(true),
        r.post_selector_matched == Some(true),
        r.ui_changed_from_pre_tap == Some(false),
{
    TapVerification {
        requested: true,
        wait_until_absent: false,
        wait_for_selector: Some(target_selector),
        satisfied: true,
        stabilized: true,
        stable_polls_observed: 0,
        stable_polls_required: 0,
        timed_out: false,
        elapsed_ms: 0,
        hierarchy_path: Some(hierarchy_path),
        tapped_selector_present_pre_tap: Some(true),
        post_selector_matched_pre_tap: Some(true),
        tapped_selector_still_present: Some(true),
        post_selector_matched: Some(true),
        ui_changed_from_pre_tap: Some(false),
    }
}

/// The index of the first node of `ns` that the tracker finds.
pub open spec fn first_tracked(ns: Seq<NormalizedUiNode>, t: InternalNodeTracker) -> Option<int> {
    if any_node(ns, tracker_pred(t)) {
        Some(
            choose|i: int|
                0 <= i < ns.len() && tracker_pred(t)(ns[i]) && forall|k: int|
                    0 <= k < i ==> !tracker_pred(t)(#[trigger] ns[k]),
        )
    } else {
        None
    }
}

proof fn lemma_first_tracked(ns: Seq<NormalizedUiNode>, t: InternalNodeTracker, i: int)
    requires
        0 <= i < ns.len(),
        tracker_pred(t)(ns[i]),
        forall|k: int| 0 <= k < i ==> !tracker_pred(t)(#[trigger] ns[k]),
    ensures
        first_tracked(ns, t) == Some(i),
{
    let j = choose|j: int|
        0 <= j < ns.len() && tracker_pred(t)(ns[j]) && forall|k: int|
            0 <= k < j ==> !tracker_pred(t)(#[trigger] ns[k]);
    if j < i {
        assert(!tracker_pred(t)(ns[j]));
    }
    if i < j {
        assert(!tracker_pred(t)(ns[i]));
    }
}

/// The text entry that follows focusing: the focused node (the first one the
/// focus tracker finds on the focus capture), the selector and tracker that
/// verify the text, whether the field already holds the text, and the text
/// that an adb replacement must clear.
pub struct TextEntryPlan {
    pub focused_node: Option<NormalizedUiNode>,
    pub target_selector: UiSelector,
    pub tracker: InternalNodeTracker,
    pub already_entered: bool,
    pub existing_text: Option<String>,
}

/// The text entry plan after the focus capture `focused_nodes`.
pub fn plan_text_entry(
    focused_nodes: &[NormalizedUiNode],
    focus_tracker: &InternalNodeTracker,
    focus_selector: &UiSelector,
    text: &str,
) -> (r: TextEntryPlan)
    ensures
        match first_tracked(focused_nodes@, *focus_tracker) {
            Some(i) => {
                let n = focused_nodes@[i];
                &&& r.focused_node == Some(n)
                &&& r.target_selector == text_selector_for(n)
                &&& r.tracker == (match identity_tracker(n, None) {
                    Some(t) => t,
                    None => InternalNodeTracker::Selector(text_selector_for(n)),
                })
                &&& r.already_entered == text_pred(text@)(n)
                &&& r.existing_text == (if n.text is Some {
                    n.text
                } else {
                    n.semantic_label
                })
            },
            None => {
                &&& r.focused_node is None
                &&& r.target_selector == *focus_selector
                &&& r.tracker == InternalNodeTracker::Selector(*focus_selector)
                &&& !r.already_entered
                &&& r.existing_text is None
            },
        },
{
    let mut i: usize = 0;
    while i < focused_nodes.len()
        invariant
            i <= focused_nodes.len(),
            forall|k: int| 0 <= k < i ==> !tracker_pred(*focus_tracker)(#[trigger] focused_nodes@[k]),
        decreases focused_nodes.len() - i,
    {
        if tracker_matches_node(&focused_nodes[i], focus_tracker) {
            proof {
                lemma_first_tracked(focused_nodes@, *focus_tracker, i as int);
            }
            let node = focused_nodes[i].duplicate();
            let target_selector = text_verification_target_selector(&node);
            let tracker = match InternalNodeTracker::from_target_node(&node) {
                Some(t) => t,
                None => InternalNodeTracker::Selector(target_selector.duplicate()),
            };
            let already_entered = node_matches_requested_text(&node, text);
            let existing_text = if node.text.is_some() {
                clone_opt(&node.text)
            } else {
                clone_opt(&node.semantic_label)
            };
            return TextEntryPlan {
                focused_node: Some(node),
                target_selector,
                tracker,
                already_entered,
                existing_text,
            };
        }
        i = i + 1;
    }
    proof {
        if any_node(focused_nodes@, tracker_pred(*focus_tracker)) {
            let k = choose|k: int| 0 <= k < focused_nodes@.len() && tracker_pred(*focus_tracker)(#[trigger] focused_nodes@[k]);
            assert(!tracker_pred(*focus_tracker)(focused_nodes@[k]));
        }
    }
    TextEntryPlan {
        focused_node: None,
        target_selector: focus_selector.duplicate(),
        tracker: InternalNodeTracker::Selector(focus_selector.duplicate()),
        already_entered: false,
        existing_text: None,
    }
}

/// The text verification of a field that already held the requested text:
/// satisfied at once, on the focus capture.
pub fn already_entered_verification(target_selector: UiSelector, hierarchy_path: Option<String>) -> (r:
    TextVerification)
    ensures
        r.requested && r.satisfied && r.stabilized && !r.timed_out,
        r.target_selector == Some(target_selector),
        r.wait_for_selector is None,
        r.stable_polls_observed == 0 && r.stable_polls_required == 0 && r.elapsed_ms == 0,
        r.hierarchy_path == hierarchy_path,
        r.target_selector_present_pre_text == Some(true),
        r.post_selector_matched_pre_text is None,
        r.target_selector_still_present == Some(true),
        r.target_text_matches_requested == Some(true),
        r.post_selector_matched is None,
        r.ui_changed_from_pre_text == Some(false),
{
    TextVerification {
        requested: true,
        target_selector: Some(target_selector),
        wait_for_selector: None,
        satisfied: true,
        stabilized: true,
        stable_polls_observed: 0,
        stable_polls_required: 0,
        timed_out: false,
        elapsed_ms: 0,
        hierarchy_path,
        target_selector_present_pre_text: Some(true),
        post_selector_matched_pre_text: None,
        target_selector_still_present: Some(true),
        target_text_matches_requested: Some(true),
        post_selector_matched: None,
        ui_changed_from_pre_text: Some(false),
    }
}

// ---------------------------------------------------------------------------
// Raw taps and text entry.
// ---------------------------------------------------------------------------

/// A tap is accepted when no verification was requested or it was satisfied.
pub fn tap_accepted(verification: &TapVerification) -> (r: bool)
    ensures
        r == (!verification.requested || verification.satisfied),
{
    !verification.requested || verification.satisfied
}

/// The error of an element tap that a blocking dialog stopped: the dialog's
/// report, or `system dialog` where none could be written.
pub fn tap_element_blocked_error(report_json: Option<&str>) -> (e: McpError)
    ensures
        e.kind == ErrorKind::InternalError,
        e.message@ == "android.tap_element blocked by system dialog: "@ + match report_json {
            Some(d) => d@,
            None => "system dialog"@,
        },
{
    let mut v = chars_of("android.tap_element blocked by system dialog: ");
    match report_json {
        Some(d) => append_str(&mut v, d),
        None => append_str(&mut v, "system dialog"),
    }
    McpError::internal_error(string_of(v.as_slice()))
}

/// The error of an element tap whose selector did not resolve to one node:
/// the selector as `Debug` writes it, and the failure's report.
pub fn tap_element_selection_error(selector: &UiSelector, failure_json: &str) -> (e: McpError)
    ensures
        e.kind == ErrorKind::InternalError,
        e.message@ == "android.tap_element could not resolve selector "@ + selector_debug_text(
            selector_texts(*selector),
            selector_flags(*selector),
        ) + ": "@ + failure_json@,
{
    let d = selector_debug(selector);
    let mut v = chars_of("android.tap_element could not resolve selector ");
    append_str(&mut v, d.as_str());
    append_str(&mut v, ": ");
    append_str(&mut v, failure_json);
    McpError::internal_error(string_of(v.as_slice()))
}

/// An element tap that was verified and not confirmed fails, unless the
/// caller allowed that; the error carries the tap's report.
pub fn tap_element_outcome(verification: &TapVerification, allow_verification_failure: bool, report_json: &str) -> (r:
    Result<(), McpError>)
    ensures
        (!verification.requested || verification.satisfied || allow_verification_failure) ==> r is Ok,
        !(!verification.requested || verification.satisfied || allow_verification_failure) ==> (r matches Err(e)
            && e.kind == ErrorKind::InternalError && e.message@
            == "android.tap_element verification failed after dispatch: "@ + report_json@),
{
    if tap_accepted(verification) || allow_verification_failure {
        return Ok(());
    }
    let mut v = chars_of("android.tap_element verification failed after dispatch: ");
    append_str(&mut v, report_json);
    Err(McpError::internal_error(string_of(v.as_slice())))
}

/// The postcondition of a raw tap that verified the tapped element (if it
/// named one): the verification's outcome, read from the hierarchy; without
/// a verification, nothing was requested and it holds.
pub fn tap_postcondition(verification: Option<&TapVerification>) -> (r: ToolPostconditionResult)
    ensures
        match verification {
            Some(v) => {
                &&& r.requested
                &&& r.satisfied == v.satisfied
                &&& r.timed_out == v.timed_out
                &&& r.elapsed_ms == v.elapsed_ms
                &&& r.evidence_source == Some(ToolPostconditionEvidenceSource::UiHierarchy)
                &&& opt_view(r.hierarchy_path) == opt_view(v.hierarchy_path)
            },
            None => {
                &&& !r.requested
                &&& r.satisfied
                &&& !r.timed_out
                &&& r.elapsed_ms == 0
                &&& r.evidence_source is None
                &&& r.hierarchy_path is None
            },
        },
        r.screenshot_path is None,
        r.observed_activity is None,
        r.observed_package is None,
        r.node is None,
        r.match_count == 0,
        r.selected_match_index is None,
        r.candidate_summary@.len() == 0,
{
    match verification {
        Some(v) => ToolPostconditionResult {
            requested: true,
            satisfied: v.satisfied,
            timed_out: v.timed_out,
            elapsed_ms: v.elapsed_ms,
            evidence_source: Some(ToolPostconditionEvidenceSource::UiHierarchy),
            hierarchy_path: clone_opt(&v.hierarchy_path),
            screenshot_path: None,
            observed_activity: None,
            observed_package: None,
            node: None,
            match_count: 0,
            selected_match_index: None,
            candidate_summary: Vec::new(),
        },
        None => ToolPostconditionResult {
            requested: false,
            satisfied: true,
            timed_out: false,
            elapsed_ms: 0,
            evidence_source: None,
            hierarchy_path: None,
            screenshot_path: None,
            observed_activity: None,
            observed_package: None,
            node: None,
            match_count: 0,
            selected_match_index: None,
            candidate_summary: Vec::new(),
        },
    }
}

/// The text target of `android.input.text`: the node that the focus
/// postcondition found gives the selector and, by identity, the tracker;
/// without one the expected-focus selector stands in for both.
pub struct TextTargetPlan {
    pub target_selector: Option<UiSelector>,
    pub tracker: Option<InternalNodeTracker>,
}

pub fn plan_text_target(focus_node: Option<&NormalizedUiNode>, expect_focus_selector: Option<&UiSelector>) -> (r:
    TextTargetPlan)
    ensures
        match focus_node {
            Some(n) => {
                &&& r.target_selector == Some(text_selector_for(*n))
                &&& r.tracker == Some(
                    match identity_tracker(*n, None) {
                        Some(t) => t,
                        None => InternalNodeTracker::Selector(text_selector_for(*n)),
                    },
                )
            },
            None => {
                &&& r.target_selector == unref(expect_focus_selector)
                &&& r.tracker == match expect_focus_selector {
                    Some(s) => Some(InternalNodeTracker::Selector(*s)),
                    None => None,
                }
            },
        },
{
    match focus_node {
        Some(n) => {
            let selector = text_verification_target_selector(n);
            let tracker = match InternalNodeTracker::from_target_node(n) {
                Some(t) => t,
                None => InternalNodeTracker::Selector(selector.duplicate()),
            };
            TextTargetPlan { target_selector: Some(selector), tracker: Some(tracker) }
        },
        None => match expect_focus_selector {
            Some(s) => TextTargetPlan {
                target_selector: Some(s.duplicate()),
                tracker: Some(InternalNodeTracker::Selector(s.duplicate())),
            },
            None => TextTargetPlan { target_selector: None, tracker: None },
        },
    }
}

} // verus!
