//! Deciding whether a tap or a text entry took effect, from hierarchies
//! captured before and after it.
use vstd::prelude::*;
use crate::dumpsys::{AndroidWindowState};
use crate::error::{ErrorKind, McpError};
use crate::text::{lower, is_digit, lemma_decimal_digits, lemma_decimal_injective, lemma_split_at_first, decimal, join, join_chars, push_decimal, string_views, views, append_chars, append_str, chars_eq, chars_of, contains, contains_str, find_char, first_index_of, slice_range, split_once_char, split_once_chars, starts_with, starts_with_str, str_eq, string_of, trim, trim_chars, trimmed};
use crate::artifact::{lemma_decimal_has_no};
use crate::window_views::{lemma_sorted_names, lemma_sorted_names_of, sort_entry_names, sorted_names};
use crate::ui::{NormalizedUiNode, SelectorCandidateSummary, UiBounds, UiSelector, clone_opt, matches_text, max_int, min_int, node_lists_same, opt_view, same_nodes, selector_matches, spec_selector_matches, text_matches};

verus! {

// ---------------------------------------------------------------------------
// Tracking a node across captures.
// ---------------------------------------------------------------------------

/// How a node is found again in a later capture: by a selector, or by its
/// identity (resource id, class, position and, optionally, focus).
#[derive(Debug, Clone)]
pub enum InternalNodeTracker {
    Selector(UiSelector),
    Identity {
        resource_id: Option<String>,
        class_name: Option<String>,
        bounds: UiBounds,
        focused: Option<bool>,
    },
}

/// The tracker that `from_target_node_with_focus` builds.
pub open spec fn identity_tracker(node: NormalizedUiNode, focused: Option<bool>) -> Option<
    InternalNodeTracker,
> {
    match node.bounds {
        Some(b) => Some(
            InternalNodeTracker::Identity {
                resource_id: node.resource_id,
                class_name: node.class_name,
                bounds: b,
                focused,
            },
        ),
        None => None,
    }
}

impl InternalNodeTracker {
    /// A tracker for `node` by identity; none when it has no bounds.
    pub fn from_target_node(node: &NormalizedUiNode) -> (r: Option<Self>)
        ensures
            r == identity_tracker(*node, None),
    {
        Self::from_target_node_with_focus(node, None)
    }

    /// A tracker for `node` by identity that also asks for the focus state
    /// `focused`; none when the node has no bounds.
    pub fn from_target_node_with_focus(node: &NormalizedUiNode, focused: Option<bool>) -> (r:
        Option<Self>)
        ensures
            r == identity_tracker(*node, focused),
    {
        match node.bounds {
            Some(bounds) => Some(
                InternalNodeTracker::Identity {
                    resource_id: clone_opt(&node.resource_id),
                    class_name: clone_opt(&node.class_name),
                    bounds,
                    focused,
                },
            ),
            None => None,
        }
    }
}

/// The two rectangles overlap with a positive area.
pub open spec fn spec_bounds_intersect(a: UiBounds, b: UiBounds) -> bool {
    &&& a.left < b.right
    &&& a.right > b.left
    &&& a.top < b.bottom
    &&& a.bottom > b.top
}

pub fn bounds_intersect(left: &UiBounds, right: &UiBounds) -> (r: bool)
    ensures
        r == spec_bounds_intersect(*left, *right),
{
    left.left < right.right && left.right > right.left && left.top < right.bottom && left.bottom
        > right.top
}

/// `candidate` looks like the control that was at `original`: they overlap,
/// the overlap covers at least three fifths of the smaller of the two, and
/// the candidate's center lies inside the original.
pub open spec fn spec_same_control(o: UiBounds, c: UiBounds) -> bool {
    let ow = min_int(o.right as int, c.right as int) - max_int(o.left as int, c.left as int);
    let oh = min_int(o.bottom as int, c.bottom as int) - max_int(o.top as int, c.top as int);
    let oa = (o.right - o.left) * (o.bottom - o.top);
    let ca = (c.right - c.left) * (c.bottom - c.top);
    let cx = (c.left + c.right) / 2;
    let cy = (c.top + c.bottom) / 2;
    &&& spec_bounds_intersect(o, c)
    &&& ow > 0 && oh > 0
    &&& o.right > o.left && o.bottom > o.top
    &&& c.right > c.left && c.bottom > c.top
    &&& 5 * (ow * oh) >= 3 * min_int(oa, ca)
    &&& o.left <= cx <= o.right
    &&& o.top <= cy <= o.bottom
}

proof fn lemma_product_bound(a: int, b: int)
    requires
        0 < a <= 0xffff_ffff,
        0 < b <= 0xffff_ffff,
    ensures
        0 < a * b <= 0xffff_fffe_0000_0001,
{
    assert(0 < a * b <= 0xffff_ffff * 0xffff_ffff) by (nonlinear_arith)
        requires
            0 < a <= 0xffff_ffff,
            0 < b <= 0xffff_ffff,
    ;
}

pub fn bounds_look_like_same_control(original: &UiBounds, candidate: &UiBounds) -> (r: bool)
    ensures
        r == spec_same_control(*original, *candidate),
{
    if !bounds_intersect(original, candidate) {
        return false;
    }
    let min_right = if original.right <= candidate.right {
        original.right
    } else {
        candidate.right
    };
    let max_left = if original.left >= candidate.left {
        original.left
    } else {
        candidate.left
    };
    let min_bottom = if original.bottom <= candidate.bottom {
        original.bottom
    } else {
        candidate.bottom
    };
    let max_top = if original.top >= candidate.top {
        original.top
    } else {
        candidate.top
    };
    if min_right <= max_left || min_bottom <= max_top {
        return false;
    }
    if original.right <= original.left || original.bottom <= original.top {
        return false;
    }
    if candidate.right <= candidate.left || candidate.bottom <= candidate.top {
        return false;
    }
    let ow = (min_right - max_left) as u64;
    let oh = (min_bottom - max_top) as u64;
    let obw = (original.right - original.left) as u64;
    let obh = (original.bottom - original.top) as u64;
    let cbw = (candidate.right - candidate.left) as u64;
    let cbh = (candidate.bottom - candidate.top) as u64;
    proof {
        lemma_product_bound(ow as int, oh as int);
        lemma_product_bound(obw as int, obh as int);
        lemma_product_bound(cbw as int, cbh as int);
    }
    let overlap = ow * oh;
    let original_area = obw * obh;
    let candidate_area = cbw * cbh;
    let smaller = if original_area <= candidate_area {
        original_area
    } else {
        candidate_area
    };
    let ratio_ok = 5 * (overlap as u128) >= 3 * (smaller as u128);
    let cx = ((candidate.left as u64 + candidate.right as u64) / 2) as u64;
    let cy = ((candidate.top as u64 + candidate.bottom as u64) / 2) as u64;
    ratio_ok && cx >= original.left as u64 && cx <= original.right as u64 && cy
        >= original.top as u64 && cy <= original.bottom as u64
}

/// The class the tracker asks for, if any, is the node's.
pub open spec fn class_ok(class_name: Option<String>, n: NormalizedUiNode) -> bool {
    match class_name {
        Some(c) => opt_view(n.class_name) == Some(c@),
        None => true,
    }
}

/// The focus state the tracker asks for, if any, is the node's.
pub open spec fn focus_ok(focused: Option<bool>, n: NormalizedUiNode) -> bool {
    match focused {
        Some(f) => n.focused == f,
        None => true,
    }
}

/// Whether the tracker finds `n`: a selector tracker by its selector; an
/// identity tracker by equal resource ids, or else by bounds that look like
/// the same control; either way the class and focus it asks for must hold.
pub open spec fn spec_tracker_matches(n: NormalizedUiNode, t: InternalNodeTracker) -> bool {
    match t {
        InternalNodeTracker::Selector(s) => spec_selector_matches(n, s),
        InternalNodeTracker::Identity { resource_id, class_name, bounds, focused } => {
            let ids_equal = match (resource_id, n.resource_id) {
                (Some(e), Some(a)) => e@ == a@,
                _ => false,
            };
            if ids_equal {
                class_ok(class_name, n) && focus_ok(focused, n)
            } else {
                (match n.bounds {
                    Some(nb) => spec_same_control(bounds, nb),
                    None => false,
                }) && class_ok(class_name, n) && focus_ok(focused, n)
            }
        },
    }
}

fn class_matches(class_name: &Option<String>, node: &NormalizedUiNode) -> (r: bool)
    ensures
        r == class_ok(*class_name, *node),
{
    match class_name {
        Some(c) => match &node.class_name {
            Some(nc) => str_eq(nc.as_str(), c.as_str()),
            None => false,
        },
        None => true,
    }
}

pub fn tracker_matches_node(node: &NormalizedUiNode, tracker: &InternalNodeTracker) -> (r: bool)
    ensures
        r == spec_tracker_matches(*node, *tracker),
{
    match tracker {
        InternalNodeTracker::Selector(selector) => selector_matches(node, selector),
        InternalNodeTracker::Identity { resource_id, class_name, bounds, focused } => {
            let focus = match focused {
                Some(f) => node.focused == *f,
                None => true,
            };
            let ids_equal = match (resource_id, &node.resource_id) {
                (Some(e), Some(a)) => str_eq(e.as_str(), a.as_str()),
                _ => false,
            };
            if ids_equal {
                return class_matches(class_name, node) && focus;
            }
            let near = match &node.bounds {
                Some(nb) => bounds_look_like_same_control(bounds, nb),
                None => false,
            };
            near && class_matches(class_name, node) && focus
        },
    }
}


// ---------------------------------------------------------------------------
// The nodes that a verification looks at.
// ---------------------------------------------------------------------------

/// The value behind an optional reference.
pub open spec fn unref<T>(o: Option<&T>) -> Option<T> {
    match o {
        Some(t) => Some(*t),
        None => None,
    }
}

/// The tracker, if any, finds `n`.
pub open spec fn tracker_finds(t: Option<InternalNodeTracker>, n: NormalizedUiNode) -> bool {
    match t {
        Some(t) => spec_tracker_matches(n, t),
        None => false,
    }
}

/// The selector, if any, matches `n`.
pub open spec fn selector_finds(s: Option<UiSelector>, n: NormalizedUiNode) -> bool {
    match s {
        Some(s) => spec_selector_matches(n, s),
        None => false,
    }
}

/// The nodes of `ns` that satisfy `p`, in order.
pub open spec fn filter_nodes(ns: Seq<NormalizedUiNode>, p: spec_fn(NormalizedUiNode) -> bool) -> Seq<
    NormalizedUiNode,
>
    decreases ns.len(),
{
    if ns.len() == 0 {
        ns
    } else if p(ns.last()) {
        filter_nodes(ns.drop_last(), p).push(ns.last())
    } else {
        filter_nodes(ns.drop_last(), p)
    }
}

/// Some node of `ns` satisfies `p`.
pub open spec fn any_node(ns: Seq<NormalizedUiNode>, p: spec_fn(NormalizedUiNode) -> bool) -> bool {
    exists|i: int| 0 <= i < ns.len() && p(#[trigger] ns[i])
}

/// A node is relevant to a tap: the tapped selector, the follow-up tracker
/// or the follow-up selector matches it.
pub open spec fn tap_relevant(
    tapped: UiSelector,
    tracker: Option<InternalNodeTracker>,
    sel: Option<UiSelector>,
) -> spec_fn(NormalizedUiNode) -> bool {
    |n: NormalizedUiNode|
        spec_selector_matches(n, tapped) || tracker_finds(tracker, n) || selector_finds(sel, n)
}

/// A node is relevant to a text entry: the target tracker finds it (or,
/// without a tracker, the target selector matches it), or the follow-up
/// selector matches it.
pub open spec fn text_relevant(
    tracker: Option<InternalNodeTracker>,
    target: Option<UiSelector>,
    sel: Option<UiSelector>,
) -> spec_fn(NormalizedUiNode) -> bool {
    |n: NormalizedUiNode|
        (match tracker {
            Some(t) => spec_tracker_matches(n, t),
            None => selector_finds(target, n),
        }) || selector_finds(sel, n)
}

fn tap_relevant_exec(
    node: &NormalizedUiNode,
    tapped_selector: &UiSelector,
    wait_for_tracker: Option<&InternalNodeTracker>,
    wait_for_selector: Option<&UiSelector>,
) -> (r: bool)
    ensures
        r == tap_relevant(*tapped_selector, unref(wait_for_tracker), unref(wait_for_selector))(
            *node,
        ),
{
    if selector_matches(node, tapped_selector) {
        return true;
    }
    let by_tracker = match wait_for_tracker {
        Some(t) => tracker_matches_node(node, t),
        None => false,
    };
    if by_tracker {
        return true;
    }
    match wait_for_selector {
        Some(s) => selector_matches(node, s),
        None => false,
    }
}

fn text_relevant_exec(
    node: &NormalizedUiNode,
    target_tracker: Option<&InternalNodeTracker>,
    target_selector: Option<&UiSelector>,
    wait_for_selector: Option<&UiSelector>,
) -> (r: bool)
    ensures
        r == text_relevant(unref(target_tracker), unref(target_selector), unref(wait_for_selector))(
            *node,
        ),
{
    let target = match target_tracker {
        Some(t) => tracker_matches_node(node, t),
        None => match target_selector {
            Some(s) => selector_matches(node, s),
            None => false,
        },
    };
    if target {
        return true;
    }
    match wait_for_selector {
        Some(s) => selector_matches(node, s),
        None => false,
    }
}

/// The nodes relevant to a tap, in order.
pub fn relevant_selector_snapshot(
    nodes: &[NormalizedUiNode],
    tapped_selector: &UiSelector,
    wait_for_tracker: Option<&InternalNodeTracker>,
    wait_for_selector: Option<&UiSelector>,
) -> (r: Vec<NormalizedUiNode>)
    ensures
        r@ == filter_nodes(
            nodes@,
            tap_relevant(*tapped_selector, unref(wait_for_tracker), unref(wait_for_selector)),
        ),
{
    let ghost p = tap_relevant(*tapped_selector, unref(wait_for_tracker), unref(wait_for_selector));
    let mut out: Vec<NormalizedUiNode> = Vec::new();
    let mut i: usize = 0;
    while i < nodes.len()
        invariant
            i <= nodes@.len(),
            p == tap_relevant(*tapped_selector, unref(wait_for_tracker), unref(wait_for_selector)),
            out@ == filter_nodes(nodes@.subrange(0, i as int), p),
        decreases nodes.len() - i,
    {
        let ghost pre = nodes@.subrange(0, i as int);
        let ghost next = nodes@.subrange(0, i + 1);
        assert(next.drop_last() =~= pre);
        if tap_relevant_exec(&nodes[i], tapped_selector, wait_for_tracker, wait_for_selector) {
            out.push(nodes[i].duplicate());
        }
        i = i + 1;
    }
    assert(nodes@.subrange(0, nodes@.len() as int) =~= nodes@);
    out
}

/// The nodes relevant to a text entry, in order.
pub fn relevant_text_snapshot(
    nodes: &[NormalizedUiNode],
    target_tracker: Option<&InternalNodeTracker>,
    target_selector: Option<&UiSelector>,
    wait_for_selector: Option<&UiSelector>,
) -> (r: Vec<NormalizedUiNode>)
    ensures
        r@ == filter_nodes(
            nodes@,
            text_relevant(unref(target_tracker), unref(target_selector), unref(wait_for_selector)),
        ),
{
    let ghost p = text_relevant(unref(target_tracker), unref(target_selector), unref(wait_for_selector));
    let mut out: Vec<NormalizedUiNode> = Vec::new();
    let mut i: usize = 0;
    while i < nodes.len()
        invariant
            i <= nodes@.len(),
            p == text_relevant(unref(target_tracker), unref(target_selector), unref(wait_for_selector)),
            out@ == filter_nodes(nodes@.subrange(0, i as int), p),
        decreases nodes.len() - i,
    {
        let ghost pre = nodes@.subrange(0, i as int);
        let ghost next = nodes@.subrange(0, i + 1);
        assert(next.drop_last() =~= pre);
        if text_relevant_exec(&nodes[i], target_tracker, target_selector, wait_for_selector) {
            out.push(nodes[i].duplicate());
        }
        i = i + 1;
    }
    assert(nodes@.subrange(0, nodes@.len() as int) =~= nodes@);
    out
}

/// The selector matches the node.
pub open spec fn selector_pred(s: UiSelector) -> spec_fn(NormalizedUiNode) -> bool {
    |n: NormalizedUiNode| spec_selector_matches(n, s)
}

/// The tracker finds the node.
pub open spec fn tracker_pred(t: InternalNodeTracker) -> spec_fn(NormalizedUiNode) -> bool {
    |n: NormalizedUiNode| spec_tracker_matches(n, t)
}

/// Whether some node of `nodes` is matched by the selector.
pub fn any_selector_match(nodes: &[NormalizedUiNode], selector: &UiSelector) -> (r: bool)
    ensures
        r == any_node(nodes@, selector_pred(*selector)),
{
    let mut i: usize = 0;
    while i < nodes.len()
        invariant
            i <= nodes@.len(),
            forall|k: int| 0 <= k < i ==> !spec_selector_matches(#[trigger] nodes@[k], *selector),
        decreases nodes.len() - i,
    {
        if selector_matches(&nodes[i], selector) {
            assert(selector_pred(*selector)(nodes@[i as int]));
            return true;
        }
        i = i + 1;
    }
    false
}

/// Whether the tracker finds some node of `nodes`.
pub fn any_tracker_match(nodes: &[NormalizedUiNode], tracker: &InternalNodeTracker) -> (r: bool)
    ensures
        r == any_node(nodes@, tracker_pred(*tracker)),
{
    let mut i: usize = 0;
    while i < nodes.len()
        invariant
            i <= nodes@.len(),
            forall|k: int| 0 <= k < i ==> !spec_tracker_matches(#[trigger] nodes@[k], *tracker),
        decreases nodes.len() - i,
    {
        if tracker_matches_node(&nodes[i], tracker) {
            assert(tracker_pred(*tracker)(nodes@[i as int]));
            return true;
        }
        i = i + 1;
    }
    false
}


// ---------------------------------------------------------------------------
// The status of a tap.
// ---------------------------------------------------------------------------

/// What one capture shows of a tap.
#[derive(Debug, Clone, Copy, PartialEq, Eq)]
pub struct TapVerificationStatus {
    pub tapped_present: bool,
    pub post_present: Option<bool>,
    pub pre_post_present: Option<bool>,
    pub ui_changed_from_pre_tap: Option<bool>,
    pub satisfied: bool,
}

/// The value of an optional flag, or `d`.
pub open spec fn flag_or(o: Option<bool>, d: bool) -> bool {
    match o {
        Some(b) => b,
        None => d,
    }
}

/// Whether the follow-up target (the tracker if there is one, else the
/// selector) is present in `ns`; none when there is no follow-up target.
pub open spec fn follow_up_presence(
    ns: Seq<NormalizedUiNode>,
    tracker: Option<InternalNodeTracker>,
    sel: Option<UiSelector>,
) -> Option<bool> {
    match tracker {
        Some(t) => Some(any_node(ns, tracker_pred(t))),
        None => match sel {
            Some(s) => Some(any_node(ns, selector_pred(s))),
            None => None,
        },
    }
}

/// The status of a tap, from the capture before it (`pre`) and a capture
/// after it (`ns`).
///
/// The tap is satisfied when (if asked) the tapped element is gone and was
/// there before, and (if there is a follow-up target) the follow-up target
/// is present; a follow-up target that was already present before the tap
/// counts only when the relevant part of the UI changed, unless the tap
/// was asked to make the tapped element disappear.
pub open spec fn spec_tap_status(
    pre: Seq<NormalizedUiNode>,
    ns: Seq<NormalizedUiNode>,
    tapped: UiSelector,
    wait_until_absent: bool,
    tracker: Option<InternalNodeTracker>,
    sel: Option<UiSelector>,
    tapped_pre: Option<bool>,
) -> TapVerificationStatus {
    let tapped_present = any_node(ns, selector_pred(tapped));
    let post = follow_up_presence(ns, tracker, sel);
    let pre_post = follow_up_presence(pre, tracker, sel);
    let changed = !same_nodes(
        filter_nodes(pre, tap_relevant(tapped, tracker, sel)),
        filter_nodes(ns, tap_relevant(tapped, tracker, sel)),
    );
    let absent_ok = if wait_until_absent {
        flag_or(tapped_pre, true) && !tapped_present
    } else {
        true
    };
    let post_ok = if tracker is Some || sel is Some {
        if !flag_or(post, false) {
            false
        } else if wait_until_absent {
            true
        } else if flag_or(pre_post, false) {
            changed
        } else {
            true
        }
    } else {
        true
    };
    TapVerificationStatus {
        tapped_present,
        post_present: post,
        pre_post_present: pre_post,
        ui_changed_from_pre_tap: Some(changed),
        satisfied: absent_ok && post_ok,
    }
}

fn follow_up_presence_exec(
    nodes: &[NormalizedUiNode],
    tracker: Option<&InternalNodeTracker>,
    selector: Option<&UiSelector>,
) -> (r: Option<bool>)
    ensures
        r == follow_up_presence(nodes@, unref(tracker), unref(selector)),
{
    match tracker {
        Some(t) => Some(any_tracker_match(nodes, t)),
        None => match selector {
            Some(s) => Some(any_selector_match(nodes, s)),
            None => None,
        },
    }
}

/// The status of a tap; see `spec_tap_status`.
pub fn tap_verification_status(
    pre_tap_nodes: &[NormalizedUiNode],
    nodes: &[NormalizedUiNode],
    tapped_selector: &UiSelector,
    wait_until_absent: bool,
    wait_for_tracker: Option<&InternalNodeTracker>,
    wait_for_selector: Option<&UiSelector>,
    tapped_selector_present_pre_tap: Option<bool>,
) -> (r: TapVerificationStatus)
    ensures
        r == spec_tap_status(
            pre_tap_nodes@,
            nodes@,
            *tapped_selector,
            wait_until_absent,
            unref(wait_for_tracker),
            unref(wait_for_selector),
            tapped_selector_present_pre_tap,
        ),
{
    let tapped_present = any_selector_match(nodes, tapped_selector);
    let post_present = follow_up_presence_exec(nodes, wait_for_tracker, wait_for_selector);
    let pre_post_present = follow_up_presence_exec(pre_tap_nodes, wait_for_tracker, wait_for_selector);
    let before = relevant_selector_snapshot(
        pre_tap_nodes,
        tapped_selector,
        wait_for_tracker,
        wait_for_selector,
    );
    let after = relevant_selector_snapshot(nodes, tapped_selector, wait_for_tracker, wait_for_selector);
    let changed = !node_lists_same(&before, &after);
    let absent_ok = if wait_until_absent {
        let was_there = match tapped_selector_present_pre_tap {
            Some(b) => b,
            None => true,
        };
        was_there && !tapped_present
    } else {
        true
    };
    let post_ok = if wait_for_tracker.is_some() || wait_for_selector.is_some() {
        let present_after = match post_present {
            Some(b) => b,
            None => false,
        };
        let present_before = match pre_post_present {
            Some(b) => b,
            None => false,
        };
        if !present_after {
            false
        } else if wait_until_absent {
            true
        } else if present_before {
            changed
        } else {
            true
        }
    } else {
        true
    };
    TapVerificationStatus {
        tapped_present,
        post_present,
        pre_post_present,
        ui_changed_from_pre_tap: Some(changed),
        satisfied: absent_ok && post_ok,
    }
}

/// A satisfied tap is confirmed once it has been satisfied on enough
/// consecutive captures, or on the last capture before the deadline.
pub open spec fn spec_tap_confirmed(
    status: TapVerificationStatus,
    satisfied_polls_observed: u32,
    required_satisfied_polls: u32,
    final_poll: bool,
) -> bool {
    status.satisfied && (satisfied_polls_observed >= required_satisfied_polls || final_poll)
}

pub fn tap_verification_is_confirmed(
    status: &TapVerificationStatus,
    satisfied_polls_observed: u32,
    required_satisfied_polls: u32,
    final_poll: bool,
) -> (r: bool)
    ensures
        r == spec_tap_confirmed(*status, satisfied_polls_observed, required_satisfied_polls, final_poll),
{
    status.satisfied && (satisfied_polls_observed >= required_satisfied_polls || final_poll)
}


// ---------------------------------------------------------------------------
// The status of a text entry.
// ---------------------------------------------------------------------------

/// What one capture shows of a text entry.
#[derive(Debug, Clone, Copy, PartialEq, Eq)]
pub struct TextVerificationStatus {
    pub target_present: Option<bool>,
    pub post_present: Option<bool>,
    pub pre_post_present: Option<bool>,
    pub target_text_matches_requested: Option<bool>,
    pub ui_changed_from_pre_text: Option<bool>,
    pub satisfied: bool,
}

/// The node's text, semantic label or content description is `e`, ignoring
/// ASCII case.
pub open spec fn text_pred(e: Seq<char>) -> spec_fn(NormalizedUiNode) -> bool {
    |n: NormalizedUiNode|
        text_matches(opt_view(n.text), e, true) || text_matches(opt_view(n.semantic_label), e, true)
            || text_matches(opt_view(n.content_desc), e, true)
}

/// The nodes that the text target designates: those the tracker finds, or
/// without a tracker those the target selector matches; none without either.
pub open spec fn target_nodes(
    ns: Seq<NormalizedUiNode>,
    tracker: Option<InternalNodeTracker>,
    target: Option<UiSelector>,
) -> Option<Seq<NormalizedUiNode>> {
    match tracker {
        Some(t) => Some(filter_nodes(ns, tracker_pred(t))),
        None => match target {
            Some(s) => Some(filter_nodes(ns, selector_pred(s))),
            None => None,
        },
    }
}

/// The status of a text entry, from the capture before it (`pre`) and a
/// capture after it (`ns`).
///
/// With a target, the entry is satisfied when the target is present and
/// (if a text was expected) one of them shows it, or (if none was) the
/// relevant UI changed; a missing target is accepted only with a follow-up
/// selector and a change. With a follow-up selector, it must be present,
/// and if it already was before, the relevant UI must have changed.
pub open spec fn spec_text_status(
    pre: Seq<NormalizedUiNode>,
    ns: Seq<NormalizedUiNode>,
    tracker: Option<InternalNodeTracker>,
    target: Option<UiSelector>,
    expected: Option<Seq<char>>,
    sel: Option<UiSelector>,
) -> TextVerificationStatus {
    let tn = target_nodes(ns, tracker, target);
    let target_present = match tn {
        Some(m) => Some(m.len() > 0),
        None => None,
    };
    let post = match sel {
        Some(s) => Some(any_node(ns, selector_pred(s))),
        None => None,
    };
    let pre_post = match sel {
        Some(s) => Some(any_node(pre, selector_pred(s))),
        None => None,
    };
    let text_ok = match (tn, expected) {
        (Some(m), Some(e)) => Some(any_node(m, text_pred(e))),
        _ => None,
    };
    let changed = !same_nodes(
        filter_nodes(pre, text_relevant(tracker, target, sel)),
        filter_nodes(ns, text_relevant(tracker, target, sel)),
    );
    let target_ok = if tracker is Some || target is Some {
        if flag_or(target_present, false) {
            flag_or(text_ok, changed)
        } else {
            sel is Some && changed
        }
    } else {
        true
    };
    let post_ok = match sel {
        Some(_) => if !flag_or(post, false) {
            false
        } else if flag_or(pre_post, false) {
            changed
        } else {
            true
        },
        None => true,
    };
    TextVerificationStatus {
        target_present,
        post_present: post,
        pre_post_present: pre_post,
        target_text_matches_requested: text_ok,
        ui_changed_from_pre_text: Some(changed),
        satisfied: target_ok && post_ok,
    }
}

fn tracker_filtered(nodes: &[NormalizedUiNode], tracker: &InternalNodeTracker) -> (r: Vec<
    NormalizedUiNode,
>)
    ensures
        r@ == filter_nodes(nodes@, tracker_pred(*tracker)),
{
    let mut out: Vec<NormalizedUiNode> = Vec::new();
    let mut i: usize = 0;
    while i < nodes.len()
        invariant
            i <= nodes@.len(),
            out@ == filter_nodes(nodes@.subrange(0, i as int), tracker_pred(*tracker)),
        decreases nodes.len() - i,
    {
        let ghost pre = nodes@.subrange(0, i as int);
        let ghost next = nodes@.subrange(0, i + 1);
        assert(next.drop_last() =~= pre);
        if tracker_matches_node(&nodes[i], tracker) {
            out.push(nodes[i].duplicate());
        }
        i = i + 1;
    }
    assert(nodes@.subrange(0, nodes@.len() as int) =~= nodes@);
    out
}

fn selector_filtered(nodes: &[NormalizedUiNode], selector: &UiSelector) -> (r: Vec<NormalizedUiNode>)
    ensures
        r@ == filter_nodes(nodes@, selector_pred(*selector)),
{
    let mut out: Vec<NormalizedUiNode> = Vec::new();
    let mut i: usize = 0;
    while i < nodes.len()
        invariant
            i <= nodes@.len(),
            out@ == filter_nodes(nodes@.subrange(0, i as int), selector_pred(*selector)),
        decreases nodes.len() - i,
    {
        let ghost pre = nodes@.subrange(0, i as int);
        let ghost next = nodes@.subrange(0, i + 1);
        assert(next.drop_last() =~= pre);
        if selector_matches(&nodes[i], selector) {
            out.push(nodes[i].duplicate());
        }
        i = i + 1;
    }
    assert(nodes@.subrange(0, nodes@.len() as int) =~= nodes@);
    out
}

fn any_text_match(nodes: &Vec<NormalizedUiNode>, expected: &[char]) -> (r: bool)
    ensures
        r == any_node(nodes@, text_pred(expected@)),
{
    let mut i: usize = 0;
    while i < nodes.len()
        invariant
            i <= nodes@.len(),
            forall|k: int| 0 <= k < i ==> !text_pred(expected@)(#[trigger] nodes@[k]),
        decreases nodes.len() - i,
    {
        let n = &nodes[i];
        if matches_text(n.text.as_ref(), expected, true) || matches_text(
            n.semantic_label.as_ref(),
            expected,
            true,
        ) || matches_text(n.content_desc.as_ref(), expected, true) {
            assert(text_pred(expected@)(nodes@[i as int]));
            return true;
        }
        i = i + 1;
    }
    false
}

/// The status of a text entry; see `spec_text_status`.
pub fn text_verification_status(
    pre_text_nodes: &[NormalizedUiNode],
    nodes: &[NormalizedUiNode],
    target_tracker: Option<&InternalNodeTracker>,
    target_selector: Option<&UiSelector>,
    expected_text: Option<&str>,
    wait_for_selector: Option<&UiSelector>,
) -> (r: TextVerificationStatus)
    ensures
        r == spec_text_status(
            pre_text_nodes@,
            nodes@,
            unref(target_tracker),
            unref(target_selector),
            match expected_text {
                Some(e) => Some(e@),
                None => None,
            },
            unref(wait_for_selector),
        ),
{
    let target_matches: Option<Vec<NormalizedUiNode>> = match target_tracker {
        Some(t) => Some(tracker_filtered(nodes, t)),
        None => match target_selector {
            Some(s) => Some(selector_filtered(nodes, s)),
            None => None,
        },
    };
    let target_present = match &target_matches {
        Some(m) => Some(m.len() > 0),
        None => None,
    };
    let post_present = match wait_for_selector {
        Some(s) => Some(any_selector_match(nodes, s)),
        None => None,
    };
    let pre_post_present = match wait_for_selector {
        Some(s) => Some(any_selector_match(pre_text_nodes, s)),
        None => None,
    };
    let text_ok = match (&target_matches, expected_text) {
        (Some(m), Some(e)) => {
            let ev = chars_of(e);
            Some(any_text_match(m, ev.as_slice()))
        },
        _ => None,
    };
    let before = relevant_text_snapshot(
        pre_text_nodes,
        target_tracker,
        target_selector,
        wait_for_selector,
    );
    let after = relevant_text_snapshot(nodes, target_tracker, target_selector, wait_for_selector);
    let changed = !node_lists_same(&before, &after);
    let target_ok = if target_tracker.is_some() || target_selector.is_some() {
        let present = match target_present {
            Some(b) => b,
            None => false,
        };
        if present {
            match text_ok {
                Some(b) => b,
                None => changed,
            }
        } else {
            wait_for_selector.is_some() && changed
        }
    } else {
        true
    };
    let post_ok = match wait_for_selector {
        Some(_) => {
            let present_after = match post_present {
                Some(b) => b,
                None => false,
            };
            let present_before = match pre_post_present {
                Some(b) => b,
                None => false,
            };
            if !present_after {
                false
            } else if present_before {
                changed
            } else {
                true
            }
        },
        None => true,
    };
    TextVerificationStatus {
        target_present,
        post_present,
        pre_post_present,
        target_text_matches_requested: text_ok,
        ui_changed_from_pre_text: Some(changed),
        satisfied: target_ok && post_ok,
    }
}

/// A satisfied text entry is confirmed at once when the target shows the
/// expected text, else once it has been satisfied on enough consecutive
/// captures, or on the last capture before the deadline.
pub open spec fn spec_text_confirmed(
    status: TextVerificationStatus,
    satisfied_polls_observed: u32,
    required_satisfied_polls: u32,
    final_poll: bool,
) -> bool {
    status.satisfied && (status.target_text_matches_requested == Some(true)
        || satisfied_polls_observed >= required_satisfied_polls || final_poll)
}

pub fn text_verification_is_confirmed(
    status: &TextVerificationStatus,
    satisfied_polls_observed: u32,
    required_satisfied_polls: u32,
    final_poll: bool,
) -> (r: bool)
    ensures
        r == spec_text_confirmed(*status, satisfied_polls_observed, required_satisfied_polls, final_poll),
{
    let exact = match status.target_text_matches_requested {
        Some(b) => b,
        None => false,
    };
    status.satisfied && (exact || satisfied_polls_observed >= required_satisfied_polls || final_poll)
}


// ---------------------------------------------------------------------------
// When to take a full capture.
// ---------------------------------------------------------------------------

/// The view of an optional string slice.
pub open spec fn opt_str(o: Option<&str>) -> Option<Seq<char>> {
    match o {
        Some(s) => Some(s@),
        None => None,
    }
}

fn opt_str_eq(a: Option<&str>, b: Option<&str>) -> (r: bool)
    ensures
        r == (opt_str(a) == opt_str(b)),
{
    match (a, b) {
        (Some(x), Some(y)) => str_eq(x, y),
        (None, None) => true,
        _ => false,
    }
}

/// A full capture is needed on the last poll, when a follow-up capture is
/// forced, when either fast fingerprint is missing, or when it changed.
pub open spec fn spec_refresh_semantic(
    last: Option<Seq<char>>,
    new: Option<Seq<char>>,
    force: bool,
    final_poll: bool,
) -> bool {
    final_poll || force || new is None || last is None || last != new
}

pub fn should_refresh_semantic_observation(
    last_fast_fingerprint: Option<&str>,
    new_fast_fingerprint: Option<&str>,
    force_followup_semantic_capture: bool,
    final_poll: bool,
) -> (r: bool)
    ensures
        r == spec_refresh_semantic(
            opt_str(last_fast_fingerprint),
            opt_str(new_fast_fingerprint),
            force_followup_semantic_capture,
            final_poll,
        ),
{
    final_poll || force_followup_semantic_capture || new_fast_fingerprint.is_none()
        || last_fast_fingerprint.is_none() || !opt_str_eq(
        last_fast_fingerprint,
        new_fast_fingerprint,
    )
}

/// Outside the selector-only fast path every poll takes a full capture;
/// on it, as for a semantic observation without a forced follow-up.
pub open spec fn spec_refresh_postcondition(
    last: Option<Seq<char>>,
    new: Option<Seq<char>>,
    selector_only_fast_path: bool,
    final_poll: bool,
) -> bool {
    !selector_only_fast_path || final_poll || new is None || last is None || last != new
}

pub fn should_refresh_tool_postcondition_observation(
    last_fast_fingerprint: Option<&str>,
    new_fast_fingerprint: Option<&str>,
    selector_only_fast_path: bool,
    final_poll: bool,
) -> (r: bool)
    ensures
        r == spec_refresh_postcondition(
            opt_str(last_fast_fingerprint),
            opt_str(new_fast_fingerprint),
            selector_only_fast_path,
            final_poll,
        ),
{
    !selector_only_fast_path || final_poll || new_fast_fingerprint.is_none()
        || last_fast_fingerprint.is_none() || !opt_str_eq(
        last_fast_fingerprint,
        new_fast_fingerprint,
    )
}

// ---------------------------------------------------------------------------
// The package a capture belongs to.
// ---------------------------------------------------------------------------

/// The trimmed, non-empty package names of the nodes, in order.
pub open spec fn package_names(ns: Seq<NormalizedUiNode>) -> Seq<Seq<char>>
    decreases ns.len(),
{
    if ns.len() == 0 {
        Seq::<Seq<char>>::empty()
    } else {
        let rest = package_names(ns.drop_last());
        match ns.last().package_name {
            Some(p) => if trim(p@).len() > 0 {
                rest.push(trim(p@))
            } else {
                rest
            },
            None => rest,
        }
    }
}

/// The one package that all the nodes with a package name share; none when
/// no node names a package or they name more than one.
pub open spec fn spec_unique_package(ns: Seq<NormalizedUiNode>) -> Option<Seq<char>> {
    let ps = package_names(ns);
    if ps.len() > 0 && forall|k: int| 0 <= k < ps.len() ==> #[trigger] ps[k] == ps[0] {
        Some(ps[0])
    } else {
        None
    }
}

pub fn infer_unique_package_name(nodes: &[NormalizedUiNode]) -> (r: Option<String>)
    ensures
        opt_view(r) == spec_unique_package(nodes@),
{
    let mut first: Option<Vec<char>> = None;
    let mut all_same = true;
    let mut i: usize = 0;
    while i < nodes.len()
        invariant
            i <= nodes@.len(),
            ({
                let ps = package_names(nodes@.subrange(0, i as int));
                &&& (first is None <==> ps.len() == 0)
                &&& (first matches Some(f) ==> f@ == ps[0])
                &&& all_same == (forall|k: int| 0 <= k < ps.len() ==> #[trigger] ps[k] == ps[0])
            }),
        decreases nodes.len() - i,
    {
        let ghost pre = nodes@.subrange(0, i as int);
        let ghost next = nodes@.subrange(0, i + 1);
        assert(next.drop_last() =~= pre);
        let ghost ps0 = package_names(pre);
        match &nodes[i].package_name {
            Some(p) => {
                let t = trimmed(p.as_str());
                if t.len() > 0 {
                    let ghost ps1 = ps0.push(t@);
                    assert(package_names(next) == ps1);
                    match &first {
                        Some(f) => {
                            let same = chars_eq(f.as_slice(), t.as_slice());
                            proof {
                                assert(ps1[ps0.len() as int] == t@);
                                assert forall|k: int| 0 <= k < ps0.len() implies ps1[k] == ps0[k] by {}
                            }
                            all_same = all_same && same;
                        },
                        None => {
                            assert(ps1[0] == t@);
                            first = Some(t);
                        },
                    }
                }
            },
            None => {},
        }
        i = i + 1;
    }
    assert(nodes@.subrange(0, nodes@.len() as int) =~= nodes@);
    if all_same {
        match first {
            Some(f) => Some(string_of(f.as_slice())),
            None => None,
        }
    } else {
        None
    }
}


// ---------------------------------------------------------------------------
// Components and activities.
// ---------------------------------------------------------------------------

/// The package of a component `package/activity`: the trimmed part before
/// the first `/` (the whole string without one), when it is not empty.
pub open spec fn spec_component_package(c: Seq<char>) -> Option<Seq<char>> {
    let head = match first_index_of(c, '/') {
        Some(i) => c.take(i),
        None => c,
    };
    if trim(head).len() > 0 {
        Some(trim(head))
    } else {
        None
    }
}

pub fn component_package_name(component: &str) -> (r: Option<String>)
    ensures
        opt_view(r) == spec_component_package(component@),
{
    let cv = chars_of(component);
    let head = match find_char(cv.as_slice(), '/') {
        Some(i) => slice_range(cv.as_slice(), 0, i),
        None => slice_range(cv.as_slice(), 0, cv.len()),
    };
    assert(cv@.subrange(0, cv@.len() as int) =~= cv@);
    let t = trim_chars(head.as_slice());
    if t.len() > 0 {
        Some(string_of(t.as_slice()))
    } else {
        None
    }
}

/// The full class name of an activity of `package`: a leading `.` is
/// relative to the package, a name with a `.` is already full, and a bare
/// name lives in the package.
pub open spec fn spec_activity_name(package: Seq<char>, activity: Seq<char>) -> Seq<char> {
    if starts_with(activity, "."@) {
        package + activity
    } else if activity.contains('.') {
        activity
    } else {
        package + "."@ + activity
    }
}

pub fn normalize_activity_name(package: &str, activity: &str) -> (r: String)
    ensures
        r@ == spec_activity_name(package@, activity@),
{
    let av = chars_of(activity);
    if starts_with_str(av.as_slice(), ".") {
        let mut out = chars_of(package);
        append_chars(&mut out, av.as_slice());
        string_of(out.as_slice())
    } else if find_char(av.as_slice(), '.').is_some() {
        string_of(av.as_slice())
    } else {
        let mut out = chars_of(package);
        append_str(&mut out, ".");
        append_chars(&mut out, av.as_slice());
        string_of(out.as_slice())
    }
}

/// The activity a component names, as a full class name; none for a blank
/// component or one with a blank package or activity around its `/`.
pub open spec fn spec_activity_identity(c: Seq<char>) -> Option<Seq<char>> {
    let t = trim(c);
    if t.len() == 0 {
        None
    } else {
        match split_once_char(t, '/') {
            Some((p, a)) => if trim(p).len() == 0 || trim(a).len() == 0 {
                None
            } else {
                Some(spec_activity_name(trim(p), trim(a)))
            },
            None => Some(t),
        }
    }
}

pub fn component_activity_identity(component: &str) -> (r: Option<String>)
    ensures
        opt_view(r) == spec_activity_identity(component@),
{
    let t = trimmed(component);
    if t.len() == 0 {
        return None;
    }
    match split_once_chars(t.as_slice(), '/') {
        Some((p, a)) => {
            let pt = trim_chars(p.as_slice());
            let at = trim_chars(a.as_slice());
            if pt.len() == 0 || at.len() == 0 {
                return None;
            }
            let ps = string_of(pt.as_slice());
            let as_ = string_of(at.as_slice());
            Some(normalize_activity_name(ps.as_str(), as_.as_str()))
        },
        None => Some(string_of(t.as_slice())),
    }
}

/// The candidate activity contains the wanted one, or both name the same
/// full activity class.
pub open spec fn spec_activity_matches(candidate: Seq<char>, wanted: Seq<char>) -> bool {
    contains(candidate, wanted) || (match (
        spec_activity_identity(candidate),
        spec_activity_identity(wanted),
    ) {
        (Some(a), Some(b)) => a == b,
        _ => false,
    })
}

pub fn activity_matches(candidate: &str, wanted: &str) -> (r: bool)
    ensures
        r == spec_activity_matches(candidate@, wanted@),
{
    let cv = chars_of(candidate);
    if contains_str(cv.as_slice(), wanted) {
        return true;
    }
    match (component_activity_identity(candidate), component_activity_identity(wanted)) {
        (Some(a), Some(b)) => str_eq(a.as_str(), b.as_str()),
        _ => false,
    }
}

/// The package of an optional component.
pub open spec fn package_of(o: Option<String>) -> Option<Seq<char>> {
    match o {
        Some(c) => spec_component_package(c@),
        None => None,
    }
}

/// The foreground package: that of the focused app, else of the resumed
/// activity, else of the focused window.
pub open spec fn spec_observed_package(ws: AndroidWindowState) -> Option<Seq<char>> {
    match package_of(ws.focused_app) {
        Some(p) => Some(p),
        None => match package_of(ws.resumed_activity) {
            Some(p) => Some(p),
            None => package_of(ws.current_focus),
        },
    }
}

fn package_of_exec(o: &Option<String>) -> (r: Option<String>)
    ensures
        opt_view(r) == package_of(*o),
{
    match o {
        Some(c) => component_package_name(c.as_str()),
        None => None,
    }
}

pub fn derive_observed_package(window_state: &AndroidWindowState) -> (r: Option<String>)
    ensures
        opt_view(r) == spec_observed_package(*window_state),
{
    match package_of_exec(&window_state.focused_app) {
        Some(p) => Some(p),
        None => match package_of_exec(&window_state.resumed_activity) {
            Some(p) => Some(p),
            None => package_of_exec(&window_state.current_focus),
        },
    }
}

/// A window state meets a postcondition when the resumed activity matches
/// the wanted activity (if one is wanted) and the observed package contains
/// the wanted package (if one is wanted).
pub open spec fn spec_window_state_ok_for(
    ws: AndroidWindowState,
    wanted_activity: Option<Seq<char>>,
    wanted_package: Option<Seq<char>>,
) -> bool {
    let activity_ok = match wanted_activity {
        Some(w) => match ws.resumed_activity {
            Some(a) => spec_activity_matches(a@, w),
            None => false,
        },
        None => true,
    };
    let package_ok = match wanted_package {
        Some(w) => match spec_observed_package(ws) {
            Some(p) => contains(p, w),
            None => false,
        },
        None => true,
    };
    activity_ok && package_ok
}

/// The resumed activity, the observed package and whether the window state
/// meets the postcondition.
pub fn window_state_postcondition_matches(
    window_state: &AndroidWindowState,
    wait_for_activity: Option<&str>,
    wait_for_package: Option<&str>,
) -> (r: (Option<String>, Option<String>, bool))
    ensures
        r.0 == window_state.resumed_activity,
        opt_view(r.1) == spec_observed_package(*window_state),
        r.2 == spec_window_state_ok_for(
            *window_state,
            opt_str(wait_for_activity),
            opt_str(wait_for_package),
        ),
{
    let observed_activity = clone_opt(&window_state.resumed_activity);
    let observed_package = derive_observed_package(window_state);
    let activity_ok = match wait_for_activity {
        Some(w) => match &observed_activity {
            Some(a) => activity_matches(a.as_str(), w),
            None => false,
        },
        None => true,
    };
    let package_ok = match wait_for_package {
        Some(w) => match &observed_package {
            Some(p) => {
                let pv = chars_of(p.as_str());
                contains_str(pv.as_slice(), w)
            },
            None => false,
        },
        None => true,
    };
    (observed_activity, observed_package, activity_ok && package_ok)
}


// ---------------------------------------------------------------------------
// Postconditions of tools.
// ---------------------------------------------------------------------------

/// Where a postcondition's evidence came from.
#[derive(Debug, Clone, Copy, PartialEq, Eq, Structural)]
pub enum ToolPostconditionEvidenceSource {
    WindowState,
    UiHierarchy,
}

impl ToolPostconditionEvidenceSource {
    /// A launch waits on the hierarchy only when it waits for a selector.
    pub fn for_launch(wait_for_selector_present: bool) -> (r: Self)
        ensures
            r == (if wait_for_selector_present {
                ToolPostconditionEvidenceSource::UiHierarchy
            } else {
                ToolPostconditionEvidenceSource::WindowState
            }),
    {
        if wait_for_selector_present {
            ToolPostconditionEvidenceSource::UiHierarchy
        } else {
            ToolPostconditionEvidenceSource::WindowState
        }
    }

    /// The name used in tool output.
    pub fn as_str(self) -> (r: &'static str)
        ensures
            r@ == (match self {
                ToolPostconditionEvidenceSource::WindowState => "window_state"@,
                ToolPostconditionEvidenceSource::UiHierarchy => "ui_hierarchy"@,
            }),
    {
        match self {
            ToolPostconditionEvidenceSource::WindowState => "window_state",
            ToolPostconditionEvidenceSource::UiHierarchy => "ui_hierarchy",
        }
    }
}

/// The outcome of waiting for a tool's postcondition.
#[derive(Debug, Clone)]
pub struct ToolPostconditionResult {
    pub requested: bool,
    pub satisfied: bool,
    pub timed_out: bool,
    pub elapsed_ms: u128,
    pub evidence_source: Option<ToolPostconditionEvidenceSource>,
    pub hierarchy_path: Option<String>,
    pub screenshot_path: Option<String>,
    pub observed_activity: Option<String>,
    pub observed_package: Option<String>,
    pub node: Option<NormalizedUiNode>,
    pub match_count: usize,
    pub selected_match_index: Option<usize>,
    pub candidate_summary: Vec<SelectorCandidateSummary>,
}

/// An error for a requested outcome that was not met: `"{tool} {stage}: {details}"`.
pub open spec fn outcome_message(tool_name: Seq<char>, stage: Seq<char>, details: Seq<char>) -> Seq<
    char,
> {
    tool_name + " "@ + stage + ": "@ + details
}

fn outcome_error(tool_name: &str, stage: &str, details: &str) -> (e: McpError)
    ensures
        e.kind == ErrorKind::InternalError,
        e.message@ == outcome_message(tool_name@, stage@, details@),
{
    let mut v = chars_of(tool_name);
    append_str(&mut v, " ");
    append_str(&mut v, stage);
    append_str(&mut v, ": ");
    append_str(&mut v, details);
    McpError::internal_error(string_of(v.as_slice()))
}

/// Fails when an outcome was requested and not met; `details` describes it.
pub fn ensure_action_outcome_satisfied(
    tool_name: &str,
    stage: &str,
    requested: bool,
    satisfied: bool,
    details: &str,
) -> (r: Result<(), McpError>)
    ensures
        r is Err <==> (requested && !satisfied),
        r matches Err(e) ==> e.kind == ErrorKind::InternalError && e.message@ == outcome_message(
            tool_name@,
            stage@,
            details@,
        ),
{
    if requested && !satisfied {
        return Err(outcome_error(tool_name, stage, details));
    }
    Ok(())
}

/// Fails when a postcondition was requested and not met; `details` is the
/// postcondition as tool output shows it.
pub fn ensure_tool_postcondition_satisfied(
    tool_name: &str,
    stage: &str,
    postcondition: &ToolPostconditionResult,
    details: &str,
) -> (r: Result<(), McpError>)
    ensures
        r is Err <==> (postcondition.requested && !postcondition.satisfied),
        r matches Err(e) ==> e.kind == ErrorKind::InternalError && e.message@ == outcome_message(
            tool_name@,
            stage@,
            details@,
        ),
{
    ensure_action_outcome_satisfied(
        tool_name,
        stage,
        postcondition.requested,
        postcondition.satisfied,
        details,
    )
}

// ---------------------------------------------------------------------------
// The outcome of a verified tap or text entry.
// ---------------------------------------------------------------------------

/// The outcome of verifying a tap.
#[derive(Debug, Clone)]
pub struct TapVerification {
    pub requested: bool,
    pub wait_until_absent: bool,
    pub wait_for_selector: Option<UiSelector>,
    pub satisfied: bool,
    pub stabilized: bool,
    pub stable_polls_observed: u32,
    pub stable_polls_required: u32,
    pub timed_out: bool,
    pub elapsed_ms: u128,
    pub hierarchy_path: Option<String>,
    pub tapped_selector_present_pre_tap: Option<bool>,
    pub post_selector_matched_pre_tap: Option<bool>,
    pub tapped_selector_still_present: Option<bool>,
    pub post_selector_matched: Option<bool>,
    pub ui_changed_from_pre_tap: Option<bool>,
}

/// The outcome of verifying a text entry.
#[derive(Debug, Clone)]
pub struct TextVerification {
    pub requested: bool,
    pub target_selector: Option<UiSelector>,
    pub wait_for_selector: Option<UiSelector>,
    pub satisfied: bool,
    pub stabilized: bool,
    pub stable_polls_observed: u32,
    pub stable_polls_required: u32,
    pub timed_out: bool,
    pub elapsed_ms: u128,
    pub hierarchy_path: Option<String>,
    pub target_selector_present_pre_text: Option<bool>,
    pub post_selector_matched_pre_text: Option<bool>,
    pub target_selector_still_present: Option<bool>,
    pub target_text_matches_requested: Option<bool>,
    pub post_selector_matched: Option<bool>,
    pub ui_changed_from_pre_text: Option<bool>,
}

// ---------------------------------------------------------------------------
// Semantic fingerprints.
// ---------------------------------------------------------------------------

/// The fields of a node that a verification compares between captures:
/// all but its position.
#[derive(Debug, Clone, PartialEq, Eq, PartialOrd, Ord)]
pub struct SemanticUiNodeFingerprint {
    pub class_name: Option<String>,
    pub package_name: Option<String>,
    pub text: Option<String>,
    pub semantic_label: Option<String>,
    pub content_desc: Option<String>,
    pub resource_id: Option<String>,
    pub clickable: bool,
    pub focusable: bool,
    pub enabled: bool,
    pub selected: bool,
    pub checked: bool,
    pub focused: bool,
    pub scrollable: bool,
    pub long_clickable: bool,
}

/// The fingerprint of a node.
pub open spec fn fingerprint_of(n: NormalizedUiNode) -> SemanticUiNodeFingerprint {
    SemanticUiNodeFingerprint {
        class_name: n.class_name,
        package_name: n.package_name,
        text: n.text,
        semantic_label: n.semantic_label,
        content_desc: n.content_desc,
        resource_id: n.resource_id,
        clickable: n.clickable,
        focusable: n.focusable,
        enabled: n.enabled,
        selected: n.selected,
        checked: n.checked,
        focused: n.focused,
        scrollable: n.scrollable,
        long_clickable: n.long_clickable,
    }
}

fn fingerprints(nodes: Vec<NormalizedUiNode>) -> (r: Vec<SemanticUiNodeFingerprint>)
    ensures
        r@.len() == nodes@.len(),
        forall|k: int| 0 <= k < nodes@.len() ==> #[trigger] r@[k] == fingerprint_of(nodes@[k]),
{
    let mut r: Vec<SemanticUiNodeFingerprint> = Vec::new();
    let mut i: usize = 0;
    while i < nodes.len()
        invariant
            i <= nodes@.len(),
            r@.len() == i,
            forall|k: int| 0 <= k < i ==> #[trigger] r@[k] == fingerprint_of(nodes@[k]),
        decreases nodes.len() - i,
    {
        let n = &nodes[i];
        r.push(
            SemanticUiNodeFingerprint {
                class_name: clone_opt(&n.class_name),
                package_name: clone_opt(&n.package_name),
                text: clone_opt(&n.text),
                semantic_label: clone_opt(&n.semantic_label),
                content_desc: clone_opt(&n.content_desc),
                resource_id: clone_opt(&n.resource_id),
                clickable: n.clickable,
                focusable: n.focusable,
                enabled: n.enabled,
                selected: n.selected,
                checked: n.checked,
                focused: n.focused,
                scrollable: n.scrollable,
                long_clickable: n.long_clickable,
            },
        );
        i = i + 1;
    }
    r
}

/// The fingerprints of the nodes relevant to a tap, in order.
pub fn semantic_relevant_selector_snapshot(
    nodes: &[NormalizedUiNode],
    tapped_selector: &UiSelector,
    wait_for_tracker: Option<&InternalNodeTracker>,
    wait_for_selector: Option<&UiSelector>,
) -> (r: Vec<SemanticUiNodeFingerprint>)
    ensures
        ({
            let rel = filter_nodes(
                nodes@,
                tap_relevant(*tapped_selector, unref(wait_for_tracker), unref(wait_for_selector)),
            );
            &&& r@.len() == rel.len()
            &&& forall|k: int| 0 <= k < rel.len() ==> #[trigger] r@[k] == fingerprint_of(rel[k])
        }),
{
    fingerprints(
        relevant_selector_snapshot(nodes, tapped_selector, wait_for_tracker, wait_for_selector),
    )
}

/// The fingerprints of the nodes relevant to a text entry, in order.
pub fn semantic_relevant_text_snapshot(
    nodes: &[NormalizedUiNode],
    target_tracker: Option<&InternalNodeTracker>,
    target_selector: Option<&UiSelector>,
    wait_for_selector: Option<&UiSelector>,
) -> (r: Vec<SemanticUiNodeFingerprint>)
    ensures
        ({
            let rel = filter_nodes(
                nodes@,
                text_relevant(unref(target_tracker), unref(target_selector), unref(wait_for_selector)),
            );
            &&& r@.len() == rel.len()
            &&& forall|k: int| 0 <= k < rel.len() ==> #[trigger] r@[k] == fingerprint_of(rel[k])
        }),
{
    fingerprints(
        relevant_text_snapshot(nodes, target_tracker, target_selector, wait_for_selector),
    )
}


/// One optional text field of a fingerprint's text: `-` when absent, else
/// its length, a colon, and the text itself.
pub open spec fn field_text(o: Option<Seq<char>>) -> Seq<char> {
    match o {
        None => seq!['-'],
        Some(t) => decimal(t.len()) + seq![':'] + t,
    }
}

pub open spec fn flag_text(b: bool) -> char {
    if b {
        '1'
    } else {
        '0'
    }
}

/// The six text fields of a fingerprint, in order.
pub open spec fn fields_text(f: SemanticUiNodeFingerprint) -> Seq<char> {
    field_text(opt_view(f.class_name)) + field_text(opt_view(f.package_name)) + field_text(
        opt_view(f.text),
    ) + field_text(opt_view(f.semantic_label)) + field_text(opt_view(f.content_desc))
        + field_text(opt_view(f.resource_id))
}

/// The eight flags of a fingerprint, in order.
pub open spec fn flags_text(f: SemanticUiNodeFingerprint) -> Seq<char> {
    seq![
        flag_text(f.clickable),
        flag_text(f.focusable),
        flag_text(f.enabled),
        flag_text(f.selected),
        flag_text(f.checked),
        flag_text(f.focused),
        flag_text(f.scrollable),
        flag_text(f.long_clickable),
    ]
}

/// The canonical text of a node fingerprint: its six text fields, then its
/// eight flags.
pub open spec fn fingerprint_text(f: SemanticUiNodeFingerprint) -> Seq<char> {
    fields_text(f) + flags_text(f)
}

/// The fingerprint of the relevant nodes of a capture: the canonical texts
/// of their fingerprints in ascending order, one per line. Their order in the
/// capture and their positions do not enter it.
pub open spec fn relevant_fingerprint(rel: Seq<NormalizedUiNode>) -> Seq<char> {
    join(sorted_names(rel.map_values(|n: NormalizedUiNode| fingerprint_text(fingerprint_of(n)))), seq!['\n'])
}

fn push_field_text(out: &mut Vec<char>, o: &Option<String>)
    ensures
        final(out)@ == old(out)@ + field_text(opt_view(*o)),
{
    match o {
        None => out.push('-'),
        Some(t) => {
            let v = chars_of(t.as_str());
            push_decimal(out, v.len() as u64);
            out.push(':');
            append_chars(out, v.as_slice());
        },
    }
    assert(final(out)@ =~= old(out)@ + field_text(opt_view(*o)));
}

fn flag_char(b: bool) -> (c: char)
    ensures
        c == flag_text(b),
{
    if b {
        '1'
    } else {
        '0'
    }
}

fn push_fields_text(out: &mut Vec<char>, f: &SemanticUiNodeFingerprint)
    ensures
        final(out)@ == old(out)@ + fields_text(*f),
{
    let ghost o = out@;
    push_field_text(out, &f.class_name);
    push_field_text(out, &f.package_name);
    push_field_text(out, &f.text);
    push_field_text(out, &f.semantic_label);
    push_field_text(out, &f.content_desc);
    push_field_text(out, &f.resource_id);
    assert(out@ =~= o + fields_text(*f));
}

fn push_flags_text(out: &mut Vec<char>, f: &SemanticUiNodeFingerprint)
    ensures
        final(out)@ == old(out)@ + flags_text(*f),
{
    let ghost o = out@;
    out.push(flag_char(f.clickable));
    out.push(flag_char(f.focusable));
    out.push(flag_char(f.enabled));
    out.push(flag_char(f.selected));
    out.push(flag_char(f.checked));
    out.push(flag_char(f.focused));
    out.push(flag_char(f.scrollable));
    out.push(flag_char(f.long_clickable));
    assert(out@ =~= o + flags_text(*f));
}

fn fingerprint_string(f: &SemanticUiNodeFingerprint) -> (r: String)
    ensures
        r@ == fingerprint_text(*f),
{
    let mut out: Vec<char> = Vec::new();
    push_fields_text(&mut out, f);
    push_flags_text(&mut out, f);
    assert(out@ =~= fingerprint_text(*f));
    string_of(out.as_slice())
}

/// The fingerprint text of fingerprints made from `rel`.
fn snapshot_fingerprint(snapshot: Vec<SemanticUiNodeFingerprint>, rel: Ghost<Seq<NormalizedUiNode>>) -> (r: String)
    requires
        snapshot@.len() == rel@.len(),
        forall|k: int| 0 <= k < rel@.len() ==> #[trigger] snapshot@[k] == fingerprint_of(rel@[k]),
    ensures
        r@ == relevant_fingerprint(rel@),
{
    let ghost texts = rel@.map_values(|n: NormalizedUiNode| fingerprint_text(fingerprint_of(n)));
    let mut lines: Vec<String> = Vec::new();
    let mut i: usize = 0;
    while i < snapshot.len()
        invariant
            i <= snapshot@.len(),
            snapshot@.len() == rel@.len(),
            forall|k: int| 0 <= k < rel@.len() ==> #[trigger] snapshot@[k] == fingerprint_of(rel@[k]),
            texts == rel@.map_values(|n: NormalizedUiNode| fingerprint_text(fingerprint_of(n))),
            lines@.len() == i,
            forall|k: int| 0 <= k < i ==> #[trigger] lines@[k]@ == texts[k],
        decreases snapshot.len() - i,
    {
        let line = fingerprint_string(&snapshot[i]);
        assert(texts[i as int] == fingerprint_text(snapshot@[i as int]));
        lines.push(line);
        i = i + 1;
    }
    assert(string_views(lines@) =~= texts);
    let sorted = sort_entry_names(lines);
    proof {
        lemma_sorted_names_of(texts, string_views(sorted@));
    }
    let mut keys: Vec<Vec<char>> = Vec::new();
    let mut j: usize = 0;
    while j < sorted.len()
        invariant
            j <= sorted@.len(),
            keys@.len() == j,
            forall|k: int| 0 <= k < j ==> #[trigger] keys@[k]@ == sorted@[k]@,
        decreases sorted.len() - j,
    {
        let key = chars_of(sorted[j].as_str());
        keys.push(key);
        j = j + 1;
    }
    assert(views(keys@) =~= string_views(sorted@));
    let joined = join_chars(&keys, &['\n']);
    proof {
        assert(['\n']@ =~= seq!['\n']);
    }
    string_of(joined.as_slice())
}

/// The fingerprint that decides whether the UI relevant to a tap has settled:
/// `relevant_fingerprint` of the nodes relevant to the tap.
pub fn tap_verification_fingerprint(
    nodes: &[NormalizedUiNode],
    tapped_selector: &UiSelector,
    wait_for_tracker: Option<&InternalNodeTracker>,
    wait_for_selector: Option<&UiSelector>,
) -> (r: String)
    ensures
        r@ == relevant_fingerprint(
            filter_nodes(
                nodes@,
                tap_relevant(*tapped_selector, unref(wait_for_tracker), unref(wait_for_selector)),
            ),
        ),
{
    let ghost rel = filter_nodes(
        nodes@,
        tap_relevant(*tapped_selector, unref(wait_for_tracker), unref(wait_for_selector)),
    );
    let snapshot = semantic_relevant_selector_snapshot(
        nodes,
        tapped_selector,
        wait_for_tracker,
        wait_for_selector,
    );
    snapshot_fingerprint(snapshot, Ghost(rel))
}

/// The fingerprint that decides whether the UI relevant to a text entry has
/// settled: `relevant_fingerprint` of the nodes relevant to the entry.
pub fn text_verification_fingerprint(
    nodes: &[NormalizedUiNode],
    target_tracker: Option<&InternalNodeTracker>,
    target_selector: Option<&UiSelector>,
    wait_for_selector: Option<&UiSelector>,
) -> (r: String)
    ensures
        r@ == relevant_fingerprint(
            filter_nodes(
                nodes@,
                text_relevant(unref(target_tracker), unref(target_selector), unref(wait_for_selector)),
            ),
        ),
{
    let ghost rel = filter_nodes(
        nodes@,
        text_relevant(unref(target_tracker), unref(target_selector), unref(wait_for_selector)),
    );
    let snapshot = semantic_relevant_text_snapshot(
        nodes,
        target_tracker,
        target_selector,
        wait_for_selector,
    );
    snapshot_fingerprint(snapshot, Ghost(rel))
}

/// Mapping every item keeps multiset equality.
proof fn lemma_map_to_multiset<A, B>(a: Seq<A>, b: Seq<A>, f: spec_fn(A) -> B)
    requires
        a.to_multiset() == b.to_multiset(),
    ensures
        a.map_values(f).to_multiset() == b.map_values(f).to_multiset(),
    decreases a.len(),
{
    vstd::seq_lib::to_multiset_len(a);
    vstd::seq_lib::to_multiset_len(b);
    if a.len() == 0 {
        assert(a.map_values(f) =~= b.map_values(f));
    } else {
        let last = a.len() - 1;
        let x = a[last];
        vstd::seq_lib::to_multiset_contains(a, x);
        vstd::seq_lib::to_multiset_contains(b, x);
        let k = choose|k: int| 0 <= k < b.len() && b[k] == x;
        vstd::seq_lib::to_multiset_remove(a, last);
        vstd::seq_lib::to_multiset_remove(b, k);
        lemma_map_to_multiset(a.remove(last), b.remove(k), f);
        assert(a.map_values(f) =~= a.remove(last).map_values(f).insert(last, f(x)));
        assert(b.map_values(f) =~= b.remove(k).map_values(f).insert(k, f(x)));
        vstd::seq_lib::to_multiset_insert(a.remove(last).map_values(f), last, f(x));
        vstd::seq_lib::to_multiset_insert(b.remove(k).map_values(f), k, f(x));
    }
}

/// What a fingerprint records of a node, as plain values: its six text
/// fields and its eight flags, in order.
pub open spec fn fingerprint_fields(f: SemanticUiNodeFingerprint) -> (Seq<Option<Seq<char>>>, Seq<bool>) {
    (
        seq![
            opt_view(f.class_name),
            opt_view(f.package_name),
            opt_view(f.text),
            opt_view(f.semantic_label),
            opt_view(f.content_desc),
            opt_view(f.resource_id),
        ],
        seq![
            f.clickable,
            f.focusable,
            f.enabled,
            f.selected,
            f.checked,
            f.focused,
            f.scrollable,
            f.long_clickable,
        ],
    )
}

/// All that the fingerprint of a capture records of one node: everything but
/// its bounds and center.
pub open spec fn node_fields(n: NormalizedUiNode) -> (Seq<Option<Seq<char>>>, Seq<bool>) {
    fingerprint_fields(fingerprint_of(n))
}

/// The fields of each node of a capture, in order.
pub open spec fn capture_fields(rel: Seq<NormalizedUiNode>) -> Seq<(Seq<Option<Seq<char>>>, Seq<bool>)> {
    rel.map_values(|n: NormalizedUiNode| node_fields(n))
}

spec fn capture_texts(rel: Seq<NormalizedUiNode>) -> Seq<Seq<char>> {
    rel.map_values(|n: NormalizedUiNode| fingerprint_text(fingerprint_of(n)))
}

spec fn encodings(fs: Seq<(Seq<Option<Seq<char>>>, Seq<bool>)>) -> Seq<Seq<char>> {
    fs.map_values(|v: (Seq<Option<Seq<char>>>, Seq<bool>)| encode_fields(v))
}

spec fn fields_wf(v: (Seq<Option<Seq<char>>>, Seq<bool>)) -> bool {
    v.0.len() == 6 && v.1.len() == 8
}

spec fn encode_fields(v: (Seq<Option<Seq<char>>>, Seq<bool>)) -> Seq<char> {
    field_text(v.0[0]) + field_text(v.0[1]) + field_text(v.0[2]) + field_text(v.0[3]) + field_text(
        v.0[4],
    ) + field_text(v.0[5]) + seq![
        flag_text(v.1[0]),
        flag_text(v.1[1]),
        flag_text(v.1[2]),
        flag_text(v.1[3]),
        flag_text(v.1[4]),
        flag_text(v.1[5]),
        flag_text(v.1[6]),
        flag_text(v.1[7]),
    ]
}

proof fn lemma_encode_fingerprint(f: SemanticUiNodeFingerprint)
    ensures
        fields_wf(fingerprint_fields(f)),
        encode_fields(fingerprint_fields(f)) == fingerprint_text(f),
{
    let v = fingerprint_fields(f);
    assert(v.0[0] == opt_view(f.class_name));
    assert(v.0[5] == opt_view(f.resource_id));
    assert(encode_fields(v) =~= fingerprint_text(f));
}

/// A text field's encoding is never a proper prefix of another's: it says
/// where it ends.
proof fn lemma_field_text_prefix_free(o1: Option<Seq<char>>, o2: Option<Seq<char>>, r1: Seq<char>, r2: Seq<char>)
    requires
        field_text(o1) + r1 == field_text(o2) + r2,
    ensures
        o1 == o2,
        r1 == r2,
{
    let s = field_text(o1) + r1;
    match (o1, o2) {
        (None, None) => {
            assert(r1 =~= s.subrange(1, s.len() as int));
            assert(r2 =~= (field_text(o2) + r2).subrange(1, s.len() as int));
        },
        (None, Some(t2)) => {
            lemma_decimal_digits(t2.len());
            assert(s[0] == '-');
            assert((field_text(o2) + r2)[0] == decimal(t2.len())[0]);
            assert(is_digit(decimal(t2.len())[0]));
        },
        (Some(t1), None) => {
            lemma_decimal_digits(t1.len());
            assert((field_text(o2) + r2)[0] == '-');
            assert(s[0] == decimal(t1.len())[0]);
            assert(is_digit(decimal(t1.len())[0]));
        },
        (Some(t1), Some(t2)) => {
            let d1 = decimal(t1.len());
            let d2 = decimal(t2.len());
            lemma_decimal_has_no(t1.len(), ':');
            lemma_decimal_has_no(t2.len(), ':');
            assert(s =~= d1.push(':') + (t1 + r1));
            assert(field_text(o2) + r2 =~= d2.push(':') + (t2 + r2));
            lemma_split_at_first(d1, t1 + r1, d2, t2 + r2, ':');
            lemma_decimal_injective(t1.len(), t2.len());
            assert(t1 =~= (t1 + r1).subrange(0, t1.len() as int));
            assert(t2 =~= (t2 + r2).subrange(0, t2.len() as int));
            assert(r1 =~= (t1 + r1).subrange(t1.len() as int, (t1 + r1).len() as int));
            assert(r2 =~= (t2 + r2).subrange(t2.len() as int, (t2 + r2).len() as int));
        },
    }
}

spec fn flags_of(v: (Seq<Option<Seq<char>>>, Seq<bool>)) -> Seq<char> {
    seq![
        flag_text(v.1[0]),
        flag_text(v.1[1]),
        flag_text(v.1[2]),
        flag_text(v.1[3]),
        flag_text(v.1[4]),
        flag_text(v.1[5]),
        flag_text(v.1[6]),
        flag_text(v.1[7]),
    ]
}

/// The encoding from field `k` on, followed by `r`.
spec fn encode_from(v: (Seq<Option<Seq<char>>>, Seq<bool>), k: int, r: Seq<char>) -> Seq<char>
    decreases 6 - k,
{
    if k >= 6 || k < 0 {
        flags_of(v) + r
    } else {
        field_text(v.0[k]) + encode_from(v, k + 1, r)
    }
}

proof fn lemma_encode_from_zero(v: (Seq<Option<Seq<char>>>, Seq<bool>), r: Seq<char>)
    ensures
        encode_fields(v) + r == encode_from(v, 0, r),
{
    let a0 = field_text(v.0[0]);
    let a1 = field_text(v.0[1]);
    let a2 = field_text(v.0[2]);
    let a3 = field_text(v.0[3]);
    let a4 = field_text(v.0[4]);
    let a5 = field_text(v.0[5]);
    let fl = flags_of(v);
    let s2 = a0 + a1;
    let s3 = s2 + a2;
    let s4 = s3 + a3;
    let s5 = s4 + a4;
    let s6 = s5 + a5;
    assert(encode_fields(v) == s6 + fl);
    let e6 = encode_from(v, 6, r);
    let e5 = encode_from(v, 5, r);
    let e4 = encode_from(v, 4, r);
    let e3 = encode_from(v, 3, r);
    let e2 = encode_from(v, 2, r);
    let e1 = encode_from(v, 1, r);
    assert(e6 == fl + r);
    assert(e5 == a5 + e6);
    assert(e4 == a4 + e5);
    assert(e3 == a3 + e4);
    assert(e2 == a2 + e3);
    assert(e1 == a1 + e2);
    assert(encode_from(v, 0, r) == a0 + e1);
    vstd::seq_lib::lemma_concat_associative(s6, fl, r);
    vstd::seq_lib::lemma_concat_associative(s5, a5, e6);
    vstd::seq_lib::lemma_concat_associative(s4, a4, e5);
    vstd::seq_lib::lemma_concat_associative(s3, a3, e4);
    vstd::seq_lib::lemma_concat_associative(s2, a2, e3);
    vstd::seq_lib::lemma_concat_associative(a0, a1, e2);
}

proof fn lemma_encode_from_prefix_free(
    v1: (Seq<Option<Seq<char>>>, Seq<bool>),
    v2: (Seq<Option<Seq<char>>>, Seq<bool>),
    k: int,
    r1: Seq<char>,
    r2: Seq<char>,
)
    requires
        fields_wf(v1),
        fields_wf(v2),
        0 <= k <= 6,
        encode_from(v1, k, r1) == encode_from(v2, k, r2),
    ensures
        forall|i: int| k <= i < 6 ==> v1.0[i] == v2.0[i],
        v1.1 == v2.1,
        r1 == r2,
    decreases 6 - k,
{
    if k < 6 {
        lemma_field_text_prefix_free(v1.0[k], v2.0[k], encode_from(v1, k + 1, r1), encode_from(v2, k + 1, r2));
        lemma_encode_from_prefix_free(v1, v2, k + 1, r1, r2);
    } else {
        let a = flags_of(v1) + r1;
        let b = flags_of(v2) + r2;
        assert(r1 =~= a.subrange(8, a.len() as int));
        assert(r2 =~= b.subrange(8, b.len() as int));
        assert forall|i: int| 0 <= i < 8 implies v1.1[i] == v2.1[i] by {
            assert(a[i] == flag_text(v1.1[i]));
            assert(b[i] == flag_text(v2.1[i]));
        }
        assert(v1.1 =~= v2.1);
    }
}

/// A fingerprint text is never a proper prefix of another: it says where it
/// ends, and it gives back the fields it was made from.
proof fn lemma_encode_prefix_free(
    v1: (Seq<Option<Seq<char>>>, Seq<bool>),
    v2: (Seq<Option<Seq<char>>>, Seq<bool>),
    r1: Seq<char>,
    r2: Seq<char>,
)
    requires
        fields_wf(v1),
        fields_wf(v2),
        encode_fields(v1) + r1 == encode_fields(v2) + r2,
    ensures
        v1 == v2,
        r1 == r2,
{
    lemma_encode_from_zero(v1, r1);
    lemma_encode_from_zero(v2, r2);
    lemma_encode_from_prefix_free(v1, v2, 0, r1, r2);
    assert(v1.0 =~= v2.0);
}

spec fn is_encoding(t: Seq<char>) -> bool {
    exists|v: (Seq<Option<Seq<char>>>, Seq<bool>)| fields_wf(v) && encode_fields(v) == t
}

proof fn lemma_encoding_prefix_free(t1: Seq<char>, t2: Seq<char>, r1: Seq<char>, r2: Seq<char>)
    requires
        is_encoding(t1),
        is_encoding(t2),
        t1 + r1 == t2 + r2,
    ensures
        t1 == t2,
        r1 == r2,
{
    let v1 = choose|v: (Seq<Option<Seq<char>>>, Seq<bool>)| fields_wf(v) && encode_fields(v) == t1;
    let v2 = choose|v: (Seq<Option<Seq<char>>>, Seq<bool>)| fields_wf(v) && encode_fields(v) == t2;
    lemma_encode_prefix_free(v1, v2, r1, r2);
}

proof fn lemma_encoding_not_empty(t: Seq<char>)
    requires
        is_encoding(t),
    ensures
        t.len() > 0,
{
    let v = choose|v: (Seq<Option<Seq<char>>>, Seq<bool>)| fields_wf(v) && encode_fields(v) == t;
    lemma_encode_from_zero(v, Seq::<char>::empty());
    assert(t =~= t + Seq::<char>::empty());
    assert(encode_from(v, 0, Seq::<char>::empty()).len() > 0) by {
        reveal_with_fuel(encode_from, 2);
        match v.0[0] {
            None => {},
            Some(x) => {
                lemma_decimal_digits(x.len());
            },
        }
    }
}

/// `join` read from the front.
proof fn lemma_join_front(ws: Seq<Seq<char>>, sep: Seq<char>)
    requires
        ws.len() >= 2,
    ensures
        join(ws, sep) == ws[0] + (sep + join(ws.drop_first(), sep)),
    decreases ws.len(),
{
    if ws.len() == 2 {
        assert(ws.drop_last().len() == 1);
        assert(join(ws.drop_last(), sep) == ws[0]);
        assert(ws.drop_first().len() == 1);
        assert(join(ws.drop_first(), sep) == ws[1]);
        vstd::seq_lib::lemma_concat_associative(ws[0], sep, ws[1]);
    } else {
        lemma_join_front(ws.drop_last(), sep);
        assert(ws.drop_last().drop_first() =~= ws.drop_first().drop_last());
        assert(ws.drop_first().last() == ws.last());
        let j = join(ws.drop_last().drop_first(), sep);
        vstd::seq_lib::lemma_concat_associative(ws[0], sep + j, sep + ws.last());
        vstd::seq_lib::lemma_concat_associative(ws[0] + (sep + j), sep, ws.last());
        vstd::seq_lib::lemma_concat_associative(sep, j, sep);
        vstd::seq_lib::lemma_concat_associative(sep + j, sep, ws.last());
        vstd::seq_lib::lemma_concat_associative(sep, j + sep, ws.last());
        vstd::seq_lib::lemma_concat_associative(j, sep, ws.last());
        assert(join(ws.drop_first(), sep) == j + sep + ws.last());
    }
}

/// Lines that are all fingerprint texts can be told apart again after
/// being joined.
proof fn lemma_join_encodings_injective(w1: Seq<Seq<char>>, w2: Seq<Seq<char>>)
    requires
        forall|i: int| 0 <= i < w1.len() ==> is_encoding(#[trigger] w1[i]),
        forall|i: int| 0 <= i < w2.len() ==> is_encoding(#[trigger] w2[i]),
        join(w1, seq!['\n']) == join(w2, seq!['\n']),
    ensures
        w1 == w2,
    decreases w1.len(),
{
    let nl = seq!['\n'];
    if w1.len() == 0 && w2.len() == 0 {
        assert(w1 =~= w2);
    } else if w1.len() == 0 {
        lemma_encoding_not_empty(w2[0]);
        if w2.len() == 1 {
        } else {
            lemma_join_front(w2, nl);
        }
    } else if w2.len() == 0 {
        lemma_encoding_not_empty(w1[0]);
        if w1.len() == 1 {
        } else {
            lemma_join_front(w1, nl);
        }
    } else {
        let r1 = if w1.len() == 1 {
            Seq::<char>::empty()
        } else {
            nl + join(w1.drop_first(), nl)
        };
        let r2 = if w2.len() == 1 {
            Seq::<char>::empty()
        } else {
            nl + join(w2.drop_first(), nl)
        };
        if w1.len() == 1 {
            assert(join(w1, nl) =~= w1[0] + r1);
        } else {
            lemma_join_front(w1, nl);
        }
        if w2.len() == 1 {
            assert(join(w2, nl) =~= w2[0] + r2);
        } else {
            lemma_join_front(w2, nl);
        }
        lemma_encoding_prefix_free(w1[0], w2[0], r1, r2);
        if w1.len() == 1 && w2.len() == 1 {
            assert(w1 =~= w2);
        } else if w1.len() == 1 {
            assert(r2.len() > 0);
        } else if w2.len() == 1 {
            assert(r1.len() > 0);
        } else {
            let j1 = join(w1.drop_first(), nl);
            let j2 = join(w2.drop_first(), nl);
            assert(j1 =~= r1.subrange(1, r1.len() as int));
            assert(j2 =~= r2.subrange(1, r2.len() as int));
            assert forall|i: int| 0 <= i < w1.drop_first().len() implies is_encoding(
                #[trigger] w1.drop_first()[i],
            ) by {
                assert(w1.drop_first()[i] == w1[i + 1]);
            }
            assert forall|i: int| 0 <= i < w2.drop_first().len() implies is_encoding(
                #[trigger] w2.drop_first()[i],
            ) by {
                assert(w2.drop_first()[i] == w2[i + 1]);
            }
            lemma_join_encodings_injective(w1.drop_first(), w2.drop_first());
            assert(w1 =~= seq![w1[0]] + w1.drop_first());
            assert(w2 =~= seq![w2[0]] + w2.drop_first());
        }
    }
}

/// Where the encoding tells well-formed field values apart, equal multisets
/// of encodings come from equal multisets of field values.
proof fn lemma_encoded_multiset_injective(
    a: Seq<(Seq<Option<Seq<char>>>, Seq<bool>)>,
    b: Seq<(Seq<Option<Seq<char>>>, Seq<bool>)>,
)
    requires
        forall|i: int| 0 <= i < a.len() ==> fields_wf(#[trigger] a[i]),
        forall|i: int| 0 <= i < b.len() ==> fields_wf(#[trigger] b[i]),
        encodings(a).to_multiset() == encodings(b).to_multiset(),
    ensures
        a.to_multiset() == b.to_multiset(),
    decreases a.len(),
{
    let ma = encodings(a);
    let mb = encodings(b);
    vstd::seq_lib::to_multiset_len(ma);
    vstd::seq_lib::to_multiset_len(mb);
    vstd::seq_lib::to_multiset_len(a);
    vstd::seq_lib::to_multiset_len(b);
    if a.len() == 0 {
        assert(b.len() == 0);
        assert(a =~= b);
    } else {
        let last = a.len() - 1;
        let x = a[last];
        assert(ma[last] == encode_fields(x));
        vstd::seq_lib::to_multiset_contains(ma, encode_fields(x));
        vstd::seq_lib::to_multiset_contains(mb, encode_fields(x));
        let k = choose|k: int| 0 <= k < mb.len() && mb[k] == encode_fields(x);
        assert(mb[k] == encode_fields(b[k]));
        assert(encode_fields(b[k]) + Seq::<char>::empty() == encode_fields(x) + Seq::<char>::empty());
        lemma_encode_prefix_free(b[k], x, Seq::<char>::empty(), Seq::<char>::empty());
        vstd::seq_lib::to_multiset_remove(ma, last);
        vstd::seq_lib::to_multiset_remove(mb, k);
        assert(ma.remove(last) =~= encodings(a.remove(last)));
        assert(mb.remove(k) =~= encodings(b.remove(k)));
        assert forall|i: int| 0 <= i < a.remove(last).len() implies fields_wf(
            #[trigger] a.remove(last)[i],
        ) by {
            assert(a.remove(last)[i] == a[i]);
        }
        assert forall|i: int| 0 <= i < b.remove(k).len() implies fields_wf(#[trigger] b.remove(k)[i]) by {
            if i < k {
                assert(b.remove(k)[i] == b[i]);
            } else {
                assert(b.remove(k)[i] == b[i + 1]);
            }
        }
        lemma_encoded_multiset_injective(a.remove(last), b.remove(k));
        vstd::seq_lib::to_multiset_remove(a, last);
        vstd::seq_lib::to_multiset_remove(b, k);
        vstd::seq_lib::to_multiset_contains(a, x);
        vstd::seq_lib::to_multiset_contains(b, x);
        assert(a.to_multiset() =~= a.remove(last).to_multiset().insert(x));
        assert(b.to_multiset() =~= b.remove(k).to_multiset().insert(x));
    }
}

/// The fingerprint texts of a capture's relevant nodes are the encodings
/// of the nodes' fields.
proof fn lemma_texts_are_encodings(rel: Seq<NormalizedUiNode>)
    ensures
        capture_texts(rel) == encodings(capture_fields(rel)),
        forall|i: int| 0 <= i < rel.len() ==> fields_wf(#[trigger] capture_fields(rel)[i]),
{
    let texts = capture_texts(rel);
    let fields = capture_fields(rel);
    let enc = encodings(fields);
    assert forall|i: int| 0 <= i < rel.len() implies texts[i] == enc[i] && fields_wf(fields[i]) by {
        lemma_encode_fingerprint(fingerprint_of(rel[i]));
    }
    assert(texts =~= enc);
}

/// Exactly the changes that matter change a capture's fingerprint: two
/// captures have the same fingerprint if and only if their relevant nodes
/// carry the same fields, bounds and center aside, counted with repetition
/// `n` shows `e` in its text, semantic label or content description,
/// ignoring ASCII case.
pub open spec fn node_shows(n: NormalizedUiNode, e: Seq<char>) -> bool {
    ||| n.text matches Some(t) && lower(t@) == lower(e)
    ||| n.semantic_label matches Some(t) && lower(t@) == lower(e)
    ||| n.content_desc matches Some(t) && lower(t@) == lower(e)
}

/// When the text target is present and a text is expected, a text entry is
/// satisfied only if a target node shows that text (ignoring ASCII case): a
/// change of the UI alone never satisfies it. Where a target node shows it,
/// the status reports that the text matches.
pub proof fn lemma_text_entry_needs_expected_text(
    pre: Seq<NormalizedUiNode>,
    ns: Seq<NormalizedUiNode>,
    tracker: Option<InternalNodeTracker>,
    target: Option<UiSelector>,
    expected: Seq<char>,
    sel: Option<UiSelector>,
)
    requires
        tracker is Some || target is Some,
        spec_text_status(pre, ns, tracker, target, Some(expected), sel).target_present == Some(true),
    ensures
        spec_text_status(pre, ns, tracker, target, Some(expected), sel).satisfied ==> exists|n: NormalizedUiNode|
            target_nodes(ns, tracker, target)->0.contains(n) && #[trigger] node_shows(n, expected),
        spec_text_status(pre, ns, tracker, target, Some(expected), sel).target_text_matches_requested
            == Some(exists|n: NormalizedUiNode|
            target_nodes(ns, tracker, target)->0.contains(n) && #[trigger] node_shows(n, expected)),
{
    let m = target_nodes(ns, tracker, target)->0;
    assert(target_nodes(ns, tracker, target) is Some);
    if any_node(m, text_pred(expected)) {
        let k = choose|k: int| 0 <= k < m.len() && text_pred(expected)(#[trigger] m[k]);
        assert(m.contains(m[k]));
        assert(node_shows(m[k], expected));
    }
    if exists|n: NormalizedUiNode| m.contains(n) && #[trigger] node_shows(n, expected) {
        let n = choose|n: NormalizedUiNode| m.contains(n) && #[trigger] node_shows(n, expected);
        let k = choose|k: int| 0 <= k < m.len() && m[k] == n;
        assert(text_pred(expected)(m[k]));
    }
}

/// What a satisfied text entry implies, and when one is owed: a follow-up
/// selector must match a node of the capture; a target that is asked for
/// but absent is accepted only with a follow-up selector and a change of the
/// relevant UI; a present target that shows the expected text, with no
/// follow-up selector, is satisfied; without an expected text, a present
/// target is satisfied (with no follow-up selector) exactly when the relevant
/// UI changed.
pub proof fn lemma_text_entry_requirements(
    pre: Seq<NormalizedUiNode>,
    ns: Seq<NormalizedUiNode>,
    tracker: Option<InternalNodeTracker>,
    target: Option<UiSelector>,
    expected: Option<Seq<char>>,
    sel: Option<UiSelector>,
)
    ensures
        ({
            let st = spec_text_status(pre, ns, tracker, target, expected, sel);
            &&& (st.satisfied && sel is Some ==> exists|n: NormalizedUiNode|
                ns.contains(n) && #[trigger] spec_selector_matches(n, sel->0))
            &&& ((tracker is Some || target is Some) && st.target_present != Some(true) && st.satisfied
                ==> sel is Some && st.ui_changed_from_pre_text == Some(true))
            &&& ((tracker is Some || target is Some) && st.target_present == Some(true) && sel is None
                && expected is Some && (exists|n: NormalizedUiNode|
                target_nodes(ns, tracker, target)->0.contains(n) && #[trigger] node_shows(n, expected->0))
                ==> st.satisfied)
            &&& ((tracker is Some || target is Some) && st.target_present == Some(true) && sel is None
                && expected is None ==> (st.satisfied <==> st.ui_changed_from_pre_text == Some(true)))
        }),
{
    let st = spec_text_status(pre, ns, tracker, target, expected, sel);
    if st.satisfied && sel is Some {
        let s0 = sel->0;
        assert(any_node(ns, selector_pred(s0)));
        let k = choose|k: int| 0 <= k < ns.len() && selector_pred(s0)(#[trigger] ns[k]);
        assert(ns.contains(ns[k]));
        assert(spec_selector_matches(ns[k], s0));
    }
    if (tracker is Some || target is Some) && st.target_present == Some(true) && expected is Some {
        lemma_text_entry_needs_expected_text(pre, ns, tracker, target, expected->0, sel);
    }
}

/// and in any order.
pub proof fn lemma_relevant_fingerprint_exact(a: Seq<NormalizedUiNode>, b: Seq<NormalizedUiNode>)
    ensures
        relevant_fingerprint(a) == relevant_fingerprint(b) <==> capture_fields(a).to_multiset()
            == capture_fields(b).to_multiset(),
{
    let enc = |v: (Seq<Option<Seq<char>>>, Seq<bool>)| encode_fields(v);
    let fa = capture_fields(a);
    let fb = capture_fields(b);
    let ta = capture_texts(a);
    let tb = capture_texts(b);
    lemma_texts_are_encodings(a);
    lemma_texts_are_encodings(b);
    assert(encodings(fa) == fa.map_values(enc));
    assert(encodings(fb) == fb.map_values(enc));
    lemma_sorted_names(ta);
    lemma_sorted_names(tb);
    let sa = sorted_names(ta);
    let sb = sorted_names(tb);
    assert(relevant_fingerprint(a) == join(sa, seq!['\n']));
    assert(relevant_fingerprint(b) == join(sb, seq!['\n']));
    if fa.to_multiset() == fb.to_multiset() {
        lemma_map_to_multiset(fa, fb, enc);
        lemma_sorted_names_of(tb, sa);
    }
    if relevant_fingerprint(a) == relevant_fingerprint(b) {
        assert forall|i: int| 0 <= i < sa.len() implies is_encoding(#[trigger] sa[i]) by {
            vstd::seq_lib::to_multiset_contains(sa, sa[i]);
            vstd::seq_lib::to_multiset_contains(ta, sa[i]);
            let j = choose|j: int| 0 <= j < ta.len() && ta[j] == sa[i];
            assert(ta[j] == encode_fields(fa[j]));
            assert(fields_wf(fa[j]));
        }
        assert forall|i: int| 0 <= i < sb.len() implies is_encoding(#[trigger] sb[i]) by {
            vstd::seq_lib::to_multiset_contains(sb, sb[i]);
            vstd::seq_lib::to_multiset_contains(tb, sb[i]);
            let j = choose|j: int| 0 <= j < tb.len() && tb[j] == sb[i];
            assert(tb[j] == encode_fields(fb[j]));
            assert(fields_wf(fb[j]));
        }
        lemma_join_encodings_injective(sa, sb);
        lemma_encoded_multiset_injective(fa, fb);
    }
}

/// An identity tracker that asks for a focus state finds only nodes in that
/// state, whatever else matches.
pub proof fn lemma_tracker_respects_focus(n: NormalizedUiNode, t: InternalNodeTracker)
    requires
        t matches InternalNodeTracker::Identity { focused: Some(_), .. },
        spec_tracker_matches(n, t),
    ensures
        n.focused == t->focused.unwrap(),
{
}

} // verus!
