//! UI selectors and normalized Android accessibility-tree nodes.
//!
//! A selector names a UI element by text, label, description, resource id
//! and interaction flags; the matching rules and the tie-breaking between
//! several matches are stated as spec functions below.
use vstd::prelude::*;
use crate::error::{ErrorKind, McpError, owned};
use crate::text::{digit_char, after_last, after_last_chars, append_chars, append_str, chars_eq, chars_of, collapse_white, collapse_white_chars, contains, contains_chars, contains_str, decimal, find_first_occurrence, first_occurrence, is_blank, join, join_chars, lower, lower_chars, lower_str, occurs_at_exec, parse_u32, parse_unsigned, push_decimal, slice_range, split_once_char, split_once_chars, starts_with, str_eq, str_eq_chars, string_of, trim, trim_chars, trim_end, trim_end_chars, trim_in, trim_in_chars, trimmed, views};




verus! {

/// Longest text field kept verbatim in tool output.
pub const UI_OUTPUT_TEXT_CHAR_LIMIT: usize = 240;
/// Longest visible label kept verbatim in the visible-UI digest.
pub const UI_VISIBLE_LABEL_CHAR_LIMIT: usize = 96;
/// Most nodes returned in the visible-UI digest.
pub const UI_VISIBLE_NODE_LIMIT: usize = 120;

/// The view of an optional string.
pub open spec fn opt_view(o: Option<String>) -> Option<Seq<char>> {
    match o {
        Some(s) => Some(s@),
        None => None,
    }
}

/// A copy of an optional string.
pub fn clone_opt(o: &Option<String>) -> (r: Option<String>)
    ensures
        r == *o,
{
    match o {
        Some(s) => Some(s.clone()),
        None => None,
    }
}

/// Whether two optional strings have equal views.
pub fn opt_eq(a: &Option<String>, b: &Option<String>) -> (r: bool)
    ensures
        r == (opt_view(*a) == opt_view(*b)),
{
    match (a, b) {
        (Some(x), Some(y)) => str_eq(x.as_str(), y.as_str()),
        (None, None) => true,
        _ => false,
    }
}

/// Defines the criteria for selecting a UI element in the Android accessibility tree.
#[derive(Debug, Clone, PartialEq, Eq)]
pub struct UiSelector {
    /// Text content of the element.
    pub text: Option<String>,
    /// Whether the text match must be exact.
    pub text_exact: Option<bool>,
    /// Logical label of the element.
    pub label: Option<String>,
    /// Whether the label match must be exact.
    pub label_exact: Option<bool>,
    /// Content description attribute.
    pub content_desc: Option<String>,
    /// Resource ID of the element.
    pub resource_id: Option<String>,
    /// Filter by clickability.
    pub clickable: Option<bool>,
    /// Filter by focusability.
    pub focusable: Option<bool>,
    /// Filter by enabled state.
    pub enabled: Option<bool>,
    /// Filter by selection state.
    pub selected: Option<bool>,
    /// Filter by checked state.
    pub checked: Option<bool>,
    /// Filter by focused state.
    pub focused: Option<bool>,
    /// Filter by scrollability.
    pub scrollable: Option<bool>,
    /// Filter by long-clickability.
    pub long_clickable: Option<bool>,
}

/// The selector with no criteria.
pub open spec fn empty_selector() -> UiSelector {
    UiSelector {
        text: None,
        text_exact: None,
        label: None,
        label_exact: None,
        content_desc: None,
        resource_id: None,
        clickable: None,
        focusable: None,
        enabled: None,
        selected: None,
        checked: None,
        focused: None,
        scrollable: None,
        long_clickable: None,
    }
}

impl Default for UiSelector {
    fn default() -> (s: Self)
        ensures
            s == empty_selector(),
    {
        UiSelector {
            text: None,
            text_exact: None,
            label: None,
            label_exact: None,
            content_desc: None,
            resource_id: None,
            clickable: None,
            focusable: None,
            enabled: None,
            selected: None,
            checked: None,
            focused: None,
            scrollable: None,
            long_clickable: None,
        }
    }
}

impl UiSelector {
    /// A copy of this selector.
    pub fn duplicate(&self) -> (r: Self)
        ensures
            r == *self,
    {
        UiSelector {
            text: clone_opt(&self.text),
            text_exact: self.text_exact,
            label: clone_opt(&self.label),
            label_exact: self.label_exact,
            content_desc: clone_opt(&self.content_desc),
            resource_id: clone_opt(&self.resource_id),
            clickable: self.clickable,
            focusable: self.focusable,
            enabled: self.enabled,
            selected: self.selected,
            checked: self.checked,
            focused: self.focused,
            scrollable: self.scrollable,
            long_clickable: self.long_clickable,
        }
    }
}

/// Allows either a fully defined selector or a text-based shorthand.
#[derive(Debug, Clone)]
pub enum UiSelectorInput {
    /// A structured selector definition.
    Selector(UiSelector),
    /// Text shorthand for common selector patterns.
    Text(String),
}

/// A screen rectangle in device pixels.
#[derive(Debug, Clone, Copy, PartialEq, Eq, Structural)]
pub struct UiBounds {
    pub left: u32,
    pub top: u32,
    pub right: u32,
    pub bottom: u32,
}

/// `a - b`, or zero when `b > a`.
pub open spec fn sat_sub(a: int, b: int) -> int {
    if a >= b {
        a - b
    } else {
        0
    }
}

pub open spec fn min_int(a: int, b: int) -> int {
    if a <= b {
        a
    } else {
        b
    }
}

pub open spec fn max_int(a: int, b: int) -> int {
    if a >= b {
        a
    } else {
        b
    }
}

impl UiBounds {
    pub open spec fn spec_area(self) -> int {
        sat_sub(self.right as int, self.left as int) * sat_sub(self.bottom as int, self.top as int)
    }

    pub open spec fn spec_intersection_area(self, other: UiBounds) -> int {
        let left = max_int(self.left as int, other.left as int);
        let top = max_int(self.top as int, other.top as int);
        let right = min_int(self.right as int, other.right as int);
        let bottom = min_int(self.bottom as int, other.bottom as int);
        if right <= left || bottom <= top {
            0
        } else {
            (right - left) * (bottom - top)
        }
    }

    pub open spec fn spec_contains(self, other: UiBounds) -> bool {
        self.left <= other.left && self.top <= other.top && self.right >= other.right
            && self.bottom >= other.bottom
    }

    pub open spec fn spec_center(self) -> (u32, u32) {
        (
            ((self.left as int + self.right as int) / 2) as u32,
            ((self.top as int + self.bottom as int) / 2) as u32,
        )
    }

    /// The midpoint of the rectangle, rounded down.
    pub fn center(self) -> (c: (u32, u32))
        ensures
            c == self.spec_center(),
            c.0 as int == (self.left as int + self.right as int) / 2,
            c.1 as int == (self.top as int + self.bottom as int) / 2,
    {
        let x = ((self.left as u64 + self.right as u64) / 2) as u32;
        let y = ((self.top as u64 + self.bottom as u64) / 2) as u32;
        (x, y)
    }

    /// Width times height, with a negative extent counted as zero.
    pub fn area(self) -> (a: u64)
        ensures
            a as int == self.spec_area(),
    {
        let w: u64 = if self.right >= self.left {
            (self.right - self.left) as u64
        } else {
            0
        };
        let h: u64 = if self.bottom >= self.top {
            (self.bottom - self.top) as u64
        } else {
            0
        };
        assert(w * h <= u32::MAX as int * u32::MAX as int) by (nonlinear_arith)
            requires
                w <= u32::MAX,
                h <= u32::MAX,
        ;
        w * h
    }

    /// The area that two rectangles share.
    pub fn intersection_area(self, other: UiBounds) -> (a: u64)
        ensures
            a as int == self.spec_intersection_area(other),
    {
        let left = if self.left >= other.left {
            self.left
        } else {
            other.left
        };
        let top = if self.top >= other.top {
            self.top
        } else {
            other.top
        };
        let right = if self.right <= other.right {
            self.right
        } else {
            other.right
        };
        let bottom = if self.bottom <= other.bottom {
            self.bottom
        } else {
            other.bottom
        };
        if right <= left || bottom <= top {
            return 0;
        }
        let w = (right - left) as u64;
        let h = (bottom - top) as u64;
        assert(w * h <= u32::MAX as int * u32::MAX as int) by (nonlinear_arith)
            requires
                w <= u32::MAX,
                h <= u32::MAX,
        ;
        w * h
    }

    /// Whether `other` lies inside this rectangle.
    pub fn contains(self, other: UiBounds) -> (r: bool)
        ensures
            r == self.spec_contains(other),
    {
        self.left <= other.left && self.top <= other.top && self.right >= other.right
            && self.bottom >= other.bottom
    }
}

/// A UI node with the attributes that selectors and digests read.
#[derive(Debug, Clone, PartialEq, Eq)]
pub struct NormalizedUiNode {
    pub class_name: Option<String>,
    pub package_name: Option<String>,
    pub text: Option<String>,
    pub semantic_label: Option<String>,
    pub content_desc: Option<String>,
    pub resource_id: Option<String>,
    pub clickable: bool,
    pub focusable: bool,
    pub enabled: bool,
    pub selected: bool,
    pub checked: bool,
    pub focused: bool,
    pub scrollable: bool,
    pub long_clickable: bool,
    pub bounds: Option<UiBounds>,
    pub center: Option<(u32, u32)>,
}

impl NormalizedUiNode {
    /// A copy of this node.
    pub fn duplicate(&self) -> (r: Self)
        ensures
            r == *self,
    {
        NormalizedUiNode {
            class_name: clone_opt(&self.class_name),
            package_name: clone_opt(&self.package_name),
            text: clone_opt(&self.text),
            semantic_label: clone_opt(&self.semantic_label),
            content_desc: clone_opt(&self.content_desc),
            resource_id: clone_opt(&self.resource_id),
            clickable: self.clickable,
            focusable: self.focusable,
            enabled: self.enabled,
            selected: self.selected,
            checked: self.checked,
            focused: self.focused,
            scrollable: self.scrollable,
            long_clickable: self.long_clickable,
            bounds: self.bounds,
            center: self.center,
        }
    }
}

/// Whether `node` and `other` carry the same attributes.
pub open spec fn same_node(a: NormalizedUiNode, b: NormalizedUiNode) -> bool {
    &&& opt_view(a.class_name) == opt_view(b.class_name)
    &&& opt_view(a.package_name) == opt_view(b.package_name)
    &&& opt_view(a.text) == opt_view(b.text)
    &&& opt_view(a.semantic_label) == opt_view(b.semantic_label)
    &&& opt_view(a.content_desc) == opt_view(b.content_desc)
    &&& opt_view(a.resource_id) == opt_view(b.resource_id)
    &&& a.clickable == b.clickable
    &&& a.focusable == b.focusable
    &&& a.enabled == b.enabled
    &&& a.selected == b.selected
    &&& a.checked == b.checked
    &&& a.focused == b.focused
    &&& a.scrollable == b.scrollable
    &&& a.long_clickable == b.long_clickable
    &&& a.bounds == b.bounds
    &&& a.center == b.center
}

pub fn nodes_same(a: &NormalizedUiNode, b: &NormalizedUiNode) -> (r: bool)
    ensures
        r == same_node(*a, *b),
{
    opt_eq(&a.class_name, &b.class_name) && opt_eq(&a.package_name, &b.package_name) && opt_eq(
        &a.text,
        &b.text,
    ) && opt_eq(&a.semantic_label, &b.semantic_label) && opt_eq(
        &a.content_desc,
        &b.content_desc,
    ) && opt_eq(&a.resource_id, &b.resource_id) && a.clickable == b.clickable && a.focusable
        == b.focusable && a.enabled == b.enabled && a.selected == b.selected && a.checked
        == b.checked && a.focused == b.focused && a.scrollable == b.scrollable && a.long_clickable
        == b.long_clickable && a.bounds == b.bounds && a.center == b.center
}

/// Whether two node lists agree element by element.
pub open spec fn same_nodes(a: Seq<NormalizedUiNode>, b: Seq<NormalizedUiNode>) -> bool {
    a.len() == b.len() && forall|i: int| 0 <= i < a.len() ==> same_node(#[trigger] a[i], b[i])
}

pub fn node_lists_same(a: &Vec<NormalizedUiNode>, b: &Vec<NormalizedUiNode>) -> (r: bool)
    ensures
        r == same_nodes(a@, b@),
{
    if a.len() != b.len() {
        return false;
    }
    let mut i: usize = 0;
    while i < a.len()
        invariant
            a@.len() == b@.len(),
            i <= a@.len(),
            forall|k: int| 0 <= k < i ==> same_node(#[trigger] a@[k], b@[k]),
        decreases a.len() - i,
    {
        if !nodes_same(&a[i], &b[i]) {
            return false;
        }
        i = i + 1;
    }
    true
}

// ---------------------------------------------------------------------------
// Text matching.
// ---------------------------------------------------------------------------

/// Case-insensitive (ASCII) comparison of an optional value with `wanted`:
/// equality when `exact`, containment otherwise; an absent value never
/// matches.
pub open spec fn text_matches(value: Option<Seq<char>>, wanted: Seq<char>, exact: bool) -> bool {
    match value {
        Some(candidate) => if exact {
            lower(candidate) == lower(wanted)
        } else {
            contains(lower(candidate), lower(wanted))
        },
        None => false,
    }
}

pub fn matches_text(value: Option<&String>, wanted: &[char], exact: bool) -> (r: bool)
    ensures
        r == text_matches(
            match value {
                Some(s) => Some(s@),
                None => None,
            },
            wanted@,
            exact,
        ),
{
    match value {
        Some(candidate) => {
            let c = lower_str(candidate.as_str());
            let w = lower_chars(wanted);
            if exact {
                chars_eq(c.as_slice(), w.as_slice())
            } else {
                contains_chars(c.as_slice(), w.as_slice())
            }
        },
        None => false,
    }
}

/// An interaction flag of the selector is absent or equals the node's flag.
pub open spec fn flag_ok(wanted: Option<bool>, actual: bool) -> bool {
    match wanted {
        Some(w) => w == actual,
        None => true,
    }
}

/// The text criterion: the trimmed wanted text is non-empty and matches the
/// node's text or content description.
pub open spec fn text_criterion(node: NormalizedUiNode, sel: UiSelector) -> bool {
    match sel.text {
        Some(t) => {
            let w = trim(t@);
            let exact = sel.text_exact == Some(true);
            w.len() > 0 && (text_matches(opt_view(node.text), w, exact) || text_matches(
                opt_view(node.content_desc),
                w,
                exact,
            ))
        },
        None => true,
    }
}

/// The label criterion: the trimmed wanted label is non-empty and matches
/// the node's semantic label.
pub open spec fn label_criterion(node: NormalizedUiNode, sel: UiSelector) -> bool {
    match sel.label {
        Some(t) => {
            let w = trim(t@);
            w.len() > 0 && text_matches(
                opt_view(node.semantic_label),
                w,
                sel.label_exact == Some(true),
            )
        },
        None => true,
    }
}

/// The content-description criterion: containment, ignoring ASCII case.
pub open spec fn desc_criterion(node: NormalizedUiNode, sel: UiSelector) -> bool {
    match sel.content_desc {
        Some(t) => {
            let w = trim(t@);
            w.len() > 0 && text_matches(opt_view(node.content_desc), w, false)
        },
        None => true,
    }
}

/// The resource-id criterion: exact equality with the trimmed wanted id.
pub open spec fn resource_criterion(node: NormalizedUiNode, sel: UiSelector) -> bool {
    match sel.resource_id {
        Some(t) => {
            let w = trim(t@);
            w.len() > 0 && opt_view(node.resource_id) == Some(w)
        },
        None => true,
    }
}

/// All interaction flags that the selector names agree with the node.
pub open spec fn flags_criterion(node: NormalizedUiNode, sel: UiSelector) -> bool {
    &&& flag_ok(sel.clickable, node.clickable)
    &&& flag_ok(sel.focusable, node.focusable)
    &&& flag_ok(sel.enabled, node.enabled)
    &&& flag_ok(sel.selected, node.selected)
    &&& flag_ok(sel.checked, node.checked)
    &&& flag_ok(sel.focused, node.focused)
    &&& flag_ok(sel.scrollable, node.scrollable)
    &&& flag_ok(sel.long_clickable, node.long_clickable)
}

/// `node` satisfies every criterion that `sel` names.
pub open spec fn spec_selector_matches(node: NormalizedUiNode, sel: UiSelector) -> bool {
    &&& text_criterion(node, sel)
    &&& label_criterion(node, sel)
    &&& desc_criterion(node, sel)
    &&& resource_criterion(node, sel)
    &&& flags_criterion(node, sel)
}

fn flag_ok_exec(wanted: Option<bool>, actual: bool) -> (r: bool)
    ensures
        r == flag_ok(wanted, actual),
{
    match wanted {
        Some(w) => w == actual,
        None => true,
    }
}

/// Whether `node` satisfies every criterion of `selector`.
pub fn selector_matches(node: &NormalizedUiNode, selector: &UiSelector) -> (r: bool)
    ensures
        r == spec_selector_matches(*node, *selector),
{
    if let Some(text) = &selector.text {
        let wanted = trimmed(text.as_str());
        let exact = selector.text_exact == Some(true);
        if wanted.len() == 0 || !(matches_text(node.text.as_ref(), wanted.as_slice(), exact)
            || matches_text(node.content_desc.as_ref(), wanted.as_slice(), exact)) {
            return false;
        }
    }
    if let Some(label) = &selector.label {
        let wanted = trimmed(label.as_str());
        if wanted.len() == 0 || !matches_text(
            node.semantic_label.as_ref(),
            wanted.as_slice(),
            selector.label_exact == Some(true),
        ) {
            return false;
        }
    }
    if let Some(content_desc) = &selector.content_desc {
        let wanted = trimmed(content_desc.as_str());
        if wanted.len() == 0 || !matches_text(
            node.content_desc.as_ref(),
            wanted.as_slice(),
            false,
        ) {
            return false;
        }
    }
    if let Some(resource_id) = &selector.resource_id {
        let wanted = trimmed(resource_id.as_str());
        let same = match &node.resource_id {
            Some(id) => str_eq_chars(id.as_str(), wanted.as_slice()),
            None => false,
        };
        if wanted.len() == 0 || !same {
            return false;
        }
    }
    flag_ok_exec(selector.clickable, node.clickable) && flag_ok_exec(
        selector.focusable,
        node.focusable,
    ) && flag_ok_exec(selector.enabled, node.enabled) && flag_ok_exec(
        selector.selected,
        node.selected,
    ) && flag_ok_exec(selector.checked, node.checked) && flag_ok_exec(
        selector.focused,
        node.focused,
    ) && flag_ok_exec(selector.scrollable, node.scrollable) && flag_ok_exec(
        selector.long_clickable,
        node.long_clickable,
    )
}

/// A text field that holds something other than whitespace.
pub open spec fn has_text(o: Option<String>) -> bool {
    match o {
        Some(s) => trim(s@).len() > 0,
        None => false,
    }
}

/// A selector is meaningful when it names a non-blank text criterion or any
/// interaction flag.
pub open spec fn selector_is_meaningful(s: UiSelector) -> bool {
    ||| has_text(s.text)
    ||| has_text(s.label)
    ||| has_text(s.content_desc)
    ||| has_text(s.resource_id)
    ||| s.clickable is Some
    ||| s.focusable is Some
    ||| s.enabled is Some
    ||| s.selected is Some
    ||| s.checked is Some
    ||| s.focused is Some
    ||| s.scrollable is Some
    ||| s.long_clickable is Some
}

fn has_text_exec(o: &Option<String>) -> (r: bool)
    ensures
        r == has_text(*o),
{
    match o {
        Some(s) => !is_blank(s.as_str()),
        None => false,
    }
}

/// Rejects a selector that names no criterion at all.
pub fn ensure_selector_not_empty(selector: &UiSelector) -> (r: Result<(), McpError>)
    ensures
        r is Ok <==> selector_is_meaningful(*selector),
        r matches Err(e) ==> e.kind == ErrorKind::InvalidParams && e.message@
            == "selector must include at least one field"@,
{
    let meaningful = has_text_exec(&selector.text) || has_text_exec(&selector.label)
        || has_text_exec(&selector.content_desc) || has_text_exec(&selector.resource_id)
        || selector.clickable.is_some() || selector.focusable.is_some()
        || selector.enabled.is_some() || selector.selected.is_some() || selector.checked.is_some()
        || selector.focused.is_some() || selector.scrollable.is_some()
        || selector.long_clickable.is_some();
    if meaningful {
        Ok(())
    } else {
        Err(McpError::invalid_params(owned("selector must include at least one field")))
    }
}

// ---------------------------------------------------------------------------
// Bounds attribute.
// ---------------------------------------------------------------------------

/// `a,b` with both numbers parsed as `u32::from_str` does.
pub open spec fn spec_parse_pair(s: Seq<char>) -> Option<(u32, u32)> {
    match split_once_char(s, ',') {
        Some((a, b)) => match (parse_unsigned(a, u32::MAX as nat), parse_unsigned(b, u32::MAX as nat)) {
            (Some(x), Some(y)) => Some((x as u32, y as u32)),
            _ => None,
        },
        None => None,
    }
}

fn parse_pair(s: &[char]) -> (r: Option<(u32, u32)>)
    ensures
        r == spec_parse_pair(s@),
{
    let (a, b) = match split_once_chars(s, ',') {
        Some(p) => p,
        None => {
            return None;
        },
    };
    match (parse_u32(a.as_slice()), parse_u32(b.as_slice())) {
        (Some(x), Some(y)) => Some((x, y)),
        _ => None,
    }
}

/// The numbers of a `[left,top][right,bottom]` attribute.
pub open spec fn spec_parse_bounds(raw: Seq<char>) -> Option<UiBounds> {
    let t = trim(raw);
    if !(t.len() > 0 && t[0] == '[') {
        None
    } else {
        let body = t.drop_first();
        match first_occurrence(body, seq![']', '[']) {
            Some(k) => {
                let second = body.subrange(k + 2, body.len() as int);
                if !(second.len() > 0 && second.last() == ']') {
                    None
                } else {
                    match (spec_parse_pair(body.subrange(0, k)), spec_parse_pair(second.drop_last())) {
                        (Some((l, tp)), Some((r, b))) => Some(
                            UiBounds { left: l, top: tp, right: r, bottom: b },
                        ),
                        _ => None,
                    }
                }
            },
            None => None,
        }
    }
}

/// Parses a `[left,top][right,bottom]` bounds attribute.
pub fn parse_bounds(raw: &str) -> (r: Option<UiBounds>)
    ensures
        r == spec_parse_bounds(raw@),
{
    let t = trimmed(raw);
    if !(t.len() > 0 && t[0] == '[') {
        return None;
    }
    let body = slice_range(t.as_slice(), 1, t.len());
    assert(body@ =~= t@.drop_first());
    let sep: Vec<char> = vec![']', '['];
    assert(sep@ =~= seq![']', '[']);
    let k = match find_first_occurrence(body.as_slice(), sep.as_slice()) {
        Some(k) => k,
        None => {
            return None;
        },
    };
    let first = slice_range(body.as_slice(), 0, k);
    let second_full = slice_range(body.as_slice(), k + 2, body.len());
    let n2 = second_full.len();
    if !(n2 > 0 && second_full[n2 - 1] == ']') {
        return None;
    }
    let second = slice_range(second_full.as_slice(), 0, n2 - 1);
    assert(second@ =~= second_full@.drop_last());
    match (parse_pair(first.as_slice()), parse_pair(second.as_slice())) {
        (Some((l, tp)), Some((r, b))) => Some(UiBounds { left: l, top: tp, right: r, bottom: b }),
        _ => None,
    }
}

// ---------------------------------------------------------------------------
// Selectors derived from a node.
// ---------------------------------------------------------------------------

/// `Some(true)` when `flag` holds, `None` otherwise (`bool::then_some`).
pub open spec fn some_if(flag: bool) -> Option<bool> {
    if flag {
        Some(true)
    } else {
        None
    }
}

fn some_if_exec(flag: bool) -> (r: Option<bool>)
    ensures
        r == some_if(flag),
{
    if flag {
        Some(true)
    } else {
        None
    }
}

/// A selector that tracks a text field by identity and interaction flags
/// only, so that it still matches after the field's text changes.
pub fn text_verification_target_selector(node: &NormalizedUiNode) -> (s: UiSelector)
    ensures
        s == (UiSelector {
            resource_id: node.resource_id,
            clickable: some_if(node.clickable),
            focusable: some_if(node.focusable),
            long_clickable: some_if(node.long_clickable),
            ..empty_selector()
        }),
{
    UiSelector {
        resource_id: clone_opt(&node.resource_id),
        clickable: some_if_exec(node.clickable),
        focusable: some_if_exec(node.focusable),
        long_clickable: some_if_exec(node.long_clickable),
        ..UiSelector::default()
    }
}

/// A selector that is satisfied once `node` holds focus.
pub fn focus_verification_target_selector(node: &NormalizedUiNode) -> (s: UiSelector)
    ensures
        s == (UiSelector {
            text: node.text,
            content_desc: node.content_desc,
            resource_id: node.resource_id,
            focusable: some_if(node.focusable),
            focused: Some(true),
            ..empty_selector()
        }),
{
    UiSelector {
        text: clone_opt(&node.text),
        content_desc: clone_opt(&node.content_desc),
        resource_id: clone_opt(&node.resource_id),
        focusable: some_if_exec(node.focusable),
        focused: Some(true),
        ..UiSelector::default()
    }
}


// ---------------------------------------------------------------------------
// Matching and resolving a selection.
// ---------------------------------------------------------------------------

/// The nodes of `ns` that `sel` matches, in order.
pub open spec fn matching(ns: Seq<NormalizedUiNode>, sel: UiSelector) -> Seq<NormalizedUiNode>
    decreases ns.len(),
{
    if ns.len() == 0 {
        ns
    } else if spec_selector_matches(ns.last(), sel) {
        matching(ns.drop_last(), sel).push(ns.last())
    } else {
        matching(ns.drop_last(), sel)
    }
}

/// The nodes that matched a selector.
#[derive(Debug, Clone)]
pub struct MatchCandidates {
    pub matches: Vec<NormalizedUiNode>,
}

/// The nodes of `nodes` that `selector` matches, in order.
pub fn matching_nodes(nodes: &[NormalizedUiNode], selector: &UiSelector) -> (r: MatchCandidates)
    ensures
        r.matches@ == matching(nodes@, *selector),
{
    let mut matches: Vec<NormalizedUiNode> = Vec::new();
    let mut i: usize = 0;
    while i < nodes.len()
        invariant
            i <= nodes@.len(),
            matches@ == matching(nodes@.subrange(0, i as int), *selector),
        decreases nodes.len() - i,
    {
        let ghost pre = nodes@.subrange(0, i as int);
        let ghost next = nodes@.subrange(0, i + 1);
        assert(next.drop_last() =~= pre);
        if selector_matches(&nodes[i], selector) {
            matches.push(nodes[i].duplicate());
        }
        i = i + 1;
    }
    assert(nodes@.subrange(0, nodes@.len() as int) =~= nodes@);
    MatchCandidates { matches }
}

/// A short description of one candidate match.
#[derive(Debug, Clone, PartialEq, Eq)]
pub struct SelectorCandidateSummary {
    pub index: usize,
    pub text: Option<String>,
    pub semantic_label: Option<String>,
    pub content_desc: Option<String>,
    pub resource_id: Option<String>,
    pub clickable: bool,
    pub focused: bool,
    pub scrollable: bool,
    pub long_clickable: bool,
    pub bounds: Option<UiBounds>,
}

/// The summary of the candidate at `index`.
pub open spec fn summary_of(index: usize, node: NormalizedUiNode) -> SelectorCandidateSummary {
    SelectorCandidateSummary {
        index,
        text: node.text,
        semantic_label: node.semantic_label,
        content_desc: node.content_desc,
        resource_id: node.resource_id,
        clickable: node.clickable,
        focused: node.focused,
        scrollable: node.scrollable,
        long_clickable: node.long_clickable,
        bounds: node.bounds,
    }
}

/// The summaries of the first five candidates.
pub open spec fn summaries(ms: Seq<NormalizedUiNode>) -> Seq<SelectorCandidateSummary> {
    Seq::new(min_int(ms.len() as int, 5) as nat, |i: int| summary_of(i as usize, ms[i]))
}

/// Summaries of up to five candidates, with their positions.
pub fn selector_candidate_summary(matches: &[NormalizedUiNode]) -> (r: Vec<SelectorCandidateSummary>)
    ensures
        r@ == summaries(matches@),
{
    let mut r: Vec<SelectorCandidateSummary> = Vec::new();
    let mut i: usize = 0;
    while i < matches.len() && i < 5
        invariant
            i <= matches@.len(),
            i <= 5,
            r@ == summaries(matches@.subrange(0, i as int)),
        decreases matches.len() - i,
    {
        let node = &matches[i];
        let summary = SelectorCandidateSummary {
            index: i,
            text: clone_opt(&node.text),
            semantic_label: clone_opt(&node.semantic_label),
            content_desc: clone_opt(&node.content_desc),
            resource_id: clone_opt(&node.resource_id),
            clickable: node.clickable,
            focused: node.focused,
            scrollable: node.scrollable,
            long_clickable: node.long_clickable,
            bounds: node.bounds,
        };
        r.push(summary);
        proof {
            assert(r@ =~= summaries(matches@.subrange(0, i + 1)));
        }
        i = i + 1;
    }
    proof {
        assert(summaries(matches@.subrange(0, i as int)) =~= summaries(matches@));
    }
    r
}

/// How actionable a node looks: clickable, focusable, long-clickable, has a
/// resource id, has a center, compared in that order.
pub open spec fn actionability(n: NormalizedUiNode) -> int {
    (if n.clickable {
        16int
    } else {
        0
    }) + (if n.focusable {
        8int
    } else {
        0
    }) + (if n.long_clickable {
        4int
    } else {
        0
    }) + (if n.resource_id is Some {
        2int
    } else {
        0
    }) + (if n.center is Some {
        1int
    } else {
        0
    })
}

fn actionability_exec(n: &NormalizedUiNode) -> (r: u8)
    ensures
        r as int == actionability(*n),
{
    let a: u8 = if n.clickable {
        16
    } else {
        0
    };
    let b: u8 = if n.focusable {
        8
    } else {
        0
    };
    let c: u8 = if n.long_clickable {
        4
    } else {
        0
    };
    let d: u8 = if n.resource_id.is_some() {
        2
    } else {
        0
    };
    let e: u8 = if n.center.is_some() {
        1
    } else {
        0
    };
    a + b + c + d + e
}

/// `i` is the one candidate that is strictly more actionable than every
/// other, and is actionable at all.
pub open spec fn uniquely_most_actionable(ms: Seq<NormalizedUiNode>, i: int) -> bool {
    &&& 0 <= i < ms.len()
    &&& actionability(ms[i]) > 0
    &&& forall|j: int| 0 <= j < ms.len() && j != i ==> actionability(ms[j]) < actionability(ms[i])
}

/// Among two or more candidates, the one that is uniquely most actionable.
pub fn auto_resolve_match_index(matches: &[NormalizedUiNode]) -> (r: Option<usize>)
    ensures
        match r {
            Some(i) => matches@.len() >= 2 && uniquely_most_actionable(matches@, i as int),
            None => matches@.len() < 2 || forall|i: int| !uniquely_most_actionable(matches@, i),
        },
{
    if matches.len() < 2 {
        return None;
    }
    let n = matches.len();
    let mut best: u8 = 0;
    let mut i: usize = 0;
    while i < n
        invariant
            n == matches@.len(),
            i <= n,
            forall|j: int| 0 <= j < i ==> actionability(matches@[j]) <= best,
            best == 0 || exists|j: int| 0 <= j < i && actionability(matches@[j]) == best,
        decreases n - i,
    {
        let score = actionability_exec(&matches[i]);
        if score > best {
            best = score;
        }
        i = i + 1;
    }
    if best == 0 {
        assert forall|k: int| !uniquely_most_actionable(matches@, k) by {
            if 0 <= k < n {
                assert(actionability(matches@[k]) <= 0);
            }
        }
        return None;
    }
    let mut found: Option<usize> = None;
    let mut k: usize = 0;
    while k < n
        invariant
            n == matches@.len(),
            k <= n,
            best > 0,
            forall|j: int| 0 <= j < n ==> actionability(matches@[j]) <= best,
            exists|j: int| 0 <= j < n && actionability(matches@[j]) == best,
            match found {
                Some(f) => f < k && actionability(matches@[f as int]) == best && forall|j: int|
                    0 <= j < k && j != f ==> actionability(matches@[j]) != best,
                None => forall|j: int| 0 <= j < k ==> actionability(matches@[j]) != best,
            },
        decreases n - k,
    {
        let score = actionability_exec(&matches[k]);
        if score == best {
            match found {
                Some(f) => {
                    assert forall|x: int| !uniquely_most_actionable(matches@, x) by {
                        if 0 <= x < n {
                            if x != f as int {
                                assert(actionability(matches@[f as int]) == best);
                            } else {
                                assert(actionability(matches@[k as int]) == best);
                            }
                        }
                    }
                    return None;
                },
                None => {
                    found = Some(k);
                },
            }
        }
        k = k + 1;
    }
    match found {
        Some(f) => {
            assert forall|j: int| 0 <= j < n && j != f implies actionability(matches@[j])
                < actionability(matches@[f as int]) by {
                assert(actionability(matches@[j]) <= best);
                assert(actionability(matches@[j]) != best);
            }
            Some(f)
        },
        None => {
            proof {
                let j = choose|j: int| 0 <= j < n && actionability(matches@[j]) == best;
                assert(actionability(matches@[j]) != best);
            }
            None
        },
    }
}

/// A selection that resolved to exactly one node.
#[derive(Debug, Clone)]
pub struct ResolvedNodeSelection {
    pub node: NormalizedUiNode,
    pub match_count: usize,
    pub selected_match_index: usize,
    pub candidates: Vec<SelectorCandidateSummary>,
}

/// Why a selection did not resolve to one node.
#[derive(Debug, Clone)]
pub enum SelectionFailure {
    NoMatches,
    Ambiguous { match_count: usize, candidates: Vec<SelectorCandidateSummary> },
    MatchIndexOutOfRange {
        requested_match_index: usize,
        match_count: usize,
        candidates: Vec<SelectorCandidateSummary>,
    },
}

/// The index that a selection resolves to, if any: the requested index when
/// it is in range, the only candidate, or the uniquely most actionable one.
pub open spec fn resolved_index(ms: Seq<NormalizedUiNode>, match_index: Option<usize>) -> Option<
    int,
> {
    if ms.len() == 0 {
        None
    } else {
        match match_index {
            Some(i) => if i < ms.len() {
                Some(i as int)
            } else {
                None
            },
            None => if ms.len() == 1 {
                Some(0)
            } else if exists|i: int| uniquely_most_actionable(ms, i) {
                Some(choose|i: int| uniquely_most_actionable(ms, i))
            } else {
                None
            },
        }
    }
}

/// At most one match is the unique most actionable one.
pub proof fn lemma_unique_most_actionable(ms: Seq<NormalizedUiNode>, i: int, j: int)
    requires
        uniquely_most_actionable(ms, i),
        uniquely_most_actionable(ms, j),
    ensures
        i == j,
{
}

/// `a` ranks above `b` when their flags are compared in order (clickable,
/// focusable, long-clickable, has a resource id, has a center) and the first
/// one that differs is set on `a`.
pub open spec fn lex_more_actionable(a: NormalizedUiNode, b: NormalizedUiNode) -> bool {
    if a.clickable != b.clickable {
        a.clickable
    } else if a.focusable != b.focusable {
        a.focusable
    } else if a.long_clickable != b.long_clickable {
        a.long_clickable
    } else if (a.resource_id is Some) != (b.resource_id is Some) {
        a.resource_id is Some
    } else {
        a.center is Some && b.center is None
    }
}

/// At least one of the ranked flags is set.
pub open spec fn has_action_flag(a: NormalizedUiNode) -> bool {
    a.clickable || a.focusable || a.long_clickable || a.resource_id is Some || a.center is Some
}

proof fn lemma_actionability_ranks_lexicographically(a: NormalizedUiNode, b: NormalizedUiNode)
    ensures
        actionability(a) > actionability(b) <==> lex_more_actionable(a, b),
        actionability(a) > 0 <==> has_action_flag(a),
{
}

/// Without a requested index, two or more matches resolve to the one that
/// ranks above every other by its flags compared in order (clickable,
/// focusable, long-clickable, resource id, center) and has one of them set;
/// in particular a clickable match wins over every match that is not.
pub proof fn lemma_auto_resolution_is_lexicographic(ms: Seq<NormalizedUiNode>, i: int)
    requires
        ms.len() >= 2,
    ensures
        resolved_index(ms, None) == Some(i) <==> {
            &&& 0 <= i < ms.len()
            &&& has_action_flag(ms[i])
            &&& forall|j: int| 0 <= j < ms.len() && j != i ==> lex_more_actionable(ms[i], #[trigger] ms[j])
        },
{
    if 0 <= i < ms.len() {
        lemma_actionability_ranks_lexicographically(ms[i], ms[i]);
        assert forall|j: int| 0 <= j < ms.len() && j != i implies (lex_more_actionable(ms[i], #[trigger] ms[j])
            <==> actionability(ms[j]) < actionability(ms[i])) by {
            lemma_actionability_ranks_lexicographically(ms[i], ms[j]);
        }
    }
    if resolved_index(ms, None) == Some(i) {
        let c = choose|c: int| uniquely_most_actionable(ms, c);
        assert(uniquely_most_actionable(ms, c));
        assert(c == i);
    }
    if 0 <= i < ms.len() && has_action_flag(ms[i]) && forall|j: int|
        0 <= j < ms.len() && j != i ==> lex_more_actionable(ms[i], #[trigger] ms[j]) {
        assert(uniquely_most_actionable(ms, i));
        let c = choose|c: int| uniquely_most_actionable(ms, c);
        lemma_unique_most_actionable(ms, c, i);
    }
}

/// The content-description criterion keeps exactly the nodes whose content
/// description contains the trimmed wanted text, ignoring ASCII case: a
/// selector with it matches a node exactly when the same selector without it
/// does and that containment holds.
pub proof fn lemma_content_desc_matches_by_containment(node: NormalizedUiNode, sel: UiSelector)
    requires
        sel.content_desc is Some,
    ensures
        spec_selector_matches(node, sel) <==> {
            &&& spec_selector_matches(node, UiSelector { content_desc: None, ..sel })
            &&& trim(sel.content_desc->0@).len() > 0
            &&& node.content_desc is Some
            &&& contains(lower(node.content_desc->0@), lower(trim(sel.content_desc->0@)))
        },
{
}

/// `candidate` shows `wanted` ignoring ASCII case: equal to it when `exact`,
/// else containing it.
pub open spec fn shows_ignoring_case(candidate: Option<String>, wanted: Seq<char>, exact: bool) -> bool {
    candidate is Some && if exact {
        lower(candidate->0@) == lower(wanted)
    } else {
        contains(lower(candidate->0@), lower(wanted))
    }
}

/// The text criterion keeps exactly the nodes whose text or content
/// description shows the trimmed wanted text (equal to it when the selector
/// asks for an exact match, else containing it), ignoring ASCII case.
pub proof fn lemma_text_matches_text_or_description(node: NormalizedUiNode, sel: UiSelector)
    requires
        sel.text is Some,
    ensures
        spec_selector_matches(node, sel) <==> {
            &&& spec_selector_matches(node, UiSelector { text: None, ..sel })
            &&& trim(sel.text->0@).len() > 0
            &&& (shows_ignoring_case(node.text, trim(sel.text->0@), sel.text_exact == Some(true))
                || shows_ignoring_case(node.content_desc, trim(sel.text->0@), sel.text_exact == Some(true)))
        },
{
}

/// The label criterion keeps exactly the nodes whose semantic label shows
/// the trimmed wanted label (equal to it when the selector asks for an
/// exact match, else containing it), ignoring ASCII case.
pub proof fn lemma_label_matches_semantic_label(node: NormalizedUiNode, sel: UiSelector)
    requires
        sel.label is Some,
    ensures
        spec_selector_matches(node, sel) <==> {
            &&& spec_selector_matches(node, UiSelector { label: None, ..sel })
            &&& trim(sel.label->0@).len() > 0
            &&& shows_ignoring_case(node.semantic_label, trim(sel.label->0@), sel.label_exact == Some(true))
        },
{
}

/// The resource-id criterion keeps exactly the nodes whose resource id is
/// the trimmed wanted id, character for character.
pub proof fn lemma_resource_id_matches_exactly(node: NormalizedUiNode, sel: UiSelector)
    requires
        sel.resource_id is Some,
    ensures
        spec_selector_matches(node, sel) <==> {
            &&& spec_selector_matches(node, UiSelector { resource_id: None, ..sel })
            &&& trim(sel.resource_id->0@).len() > 0
            &&& node.resource_id is Some
            &&& node.resource_id->0@ == trim(sel.resource_id->0@)
        },
{
}

/// A selector that names no criterion matches every node, and each flag it
/// names must equal the node's flag.
pub proof fn lemma_flag_criteria(node: NormalizedUiNode, sel: UiSelector)
    ensures
        sel.clickable matches Some(b) ==> (spec_selector_matches(node, sel) <==> spec_selector_matches(
            node,
            UiSelector { clickable: None, ..sel },
        ) && node.clickable == b),
        sel.focusable matches Some(b) ==> (spec_selector_matches(node, sel) <==> spec_selector_matches(
            node,
            UiSelector { focusable: None, ..sel },
        ) && node.focusable == b),
        sel.enabled matches Some(b) ==> (spec_selector_matches(node, sel) <==> spec_selector_matches(
            node,
            UiSelector { enabled: None, ..sel },
        ) && node.enabled == b),
        sel.selected matches Some(b) ==> (spec_selector_matches(node, sel) <==> spec_selector_matches(
            node,
            UiSelector { selected: None, ..sel },
        ) && node.selected == b),
        sel.checked matches Some(b) ==> (spec_selector_matches(node, sel) <==> spec_selector_matches(
            node,
            UiSelector { checked: None, ..sel },
        ) && node.checked == b),
        sel.focused matches Some(b) ==> (spec_selector_matches(node, sel) <==> spec_selector_matches(
            node,
            UiSelector { focused: None, ..sel },
        ) && node.focused == b),
        sel.scrollable matches Some(b) ==> (spec_selector_matches(node, sel) <==> spec_selector_matches(
            node,
            UiSelector { scrollable: None, ..sel },
        ) && node.scrollable == b),
        sel.long_clickable matches Some(b) ==> (spec_selector_matches(node, sel) <==> spec_selector_matches(
            node,
            UiSelector { long_clickable: None, ..sel },
        ) && node.long_clickable == b),
        spec_selector_matches(node, empty_selector()),
{
}

/// Why matches that do not resolve to one node failed: an index beyond
/// them, or several matches and no way to choose; with the number of
/// matches and their summaries.
pub open spec fn selection_failure_for(ms: Seq<NormalizedUiNode>, match_index: Option<usize>, f: SelectionFailure) -> bool {
    match f {
        SelectionFailure::NoMatches => ms.len() == 0,
        SelectionFailure::MatchIndexOutOfRange { requested_match_index, match_count, candidates } => {
            &&& ms.len() > 0
            &&& match_index == Some(requested_match_index)
            &&& requested_match_index >= ms.len()
            &&& match_count == ms.len()
            &&& candidates@ == summaries(ms)
        },
        SelectionFailure::Ambiguous { match_count, candidates } => {
            &&& ms.len() > 1
            &&& match_index is None
            &&& resolved_index(ms, match_index) is None
            &&& match_count == ms.len()
            &&& candidates@ == summaries(ms)
        },
    }
}

/// Resolves a list of candidates to one node: by the requested index, by
/// being the only candidate, or by being uniquely most actionable.
pub fn resolve_node_selection(matches: Vec<NormalizedUiNode>, match_index: Option<usize>) -> (r:
    Result<ResolvedNodeSelection, SelectionFailure>)
    ensures
        match r {
            Ok(sel) => {
                &&& resolved_index(matches@, match_index) == Some(sel.selected_match_index as int)
                &&& sel.node == matches@[sel.selected_match_index as int]
                &&& sel.match_count == matches@.len()
                &&& sel.candidates@ == summaries(matches@)
            },
            Err(SelectionFailure::NoMatches) => matches@.len() == 0,
            Err(
                SelectionFailure::MatchIndexOutOfRange {
                    requested_match_index,
                    match_count,
                    candidates,
                },
            ) => {
                &&& matches@.len() > 0
                &&& match_index == Some(requested_match_index)
                &&& requested_match_index >= matches@.len()
                &&& match_count == matches@.len()
                &&& candidates@ == summaries(matches@)
            },
            Err(SelectionFailure::Ambiguous { match_count, candidates }) => {
                &&& matches@.len() > 1
                &&& match_index is None
                &&& resolved_index(matches@, match_index) is None
                &&& match_count == matches@.len()
                &&& candidates@ == summaries(matches@)
            },
        },
{
    let match_count = matches.len();
    let candidates = selector_candidate_summary(matches.as_slice());
    if matches.len() == 0 {
        return Err(SelectionFailure::NoMatches);
    }
    let selected_match_index = match match_index {
        Some(index) => {
            if index >= match_count {
                return Err(
                    SelectionFailure::MatchIndexOutOfRange {
                        requested_match_index: index,
                        match_count,
                        candidates,
                    },
                );
            }
            index
        },
        None => {
            if match_count == 1 {
                0
            } else {
                match auto_resolve_match_index(matches.as_slice()) {
                    Some(index) => {
                        proof {
                            let c = choose|i: int| uniquely_most_actionable(matches@, i);
                            lemma_unique_most_actionable(matches@, c, index as int);
                        }
                        index
                    },
                    None => {
                        return Err(SelectionFailure::Ambiguous { match_count, candidates });
                    },
                }
            }
        },
    };
    let node = matches[selected_match_index].duplicate();
    Ok(ResolvedNodeSelection { node, match_count, selected_match_index, candidates })
}

/// The text that the `Debug` impl which `derive` wrote for `UiSelector`
/// gives for a selector with these optional texts (text, label, content
/// description, resource id) and optional flags (text exact, label exact,
/// clickable, focusable, enabled, selected, checked, focused, scrollable,
/// long-clickable).
pub uninterp spec fn selector_debug_text(texts: Seq<Option<Seq<char>>>, flags: Seq<Option<bool>>) -> Seq<char>;

/// The optional texts of a selector, in field order.
pub open spec fn selector_texts(s: UiSelector) -> Seq<Option<Seq<char>>> {
    seq![opt_view(s.text), opt_view(s.label), opt_view(s.content_desc), opt_view(s.resource_id)]
}

/// The optional flags of a selector, in field order.
pub open spec fn selector_flags(s: UiSelector) -> Seq<Option<bool>> {
    seq![
        s.text_exact,
        s.label_exact,
        s.clickable,
        s.focusable,
        s.enabled,
        s.selected,
        s.checked,
        s.focused,
        s.scrollable,
        s.long_clickable,
    ]
}

/// `format!("{:?}", selector)`. Claimed: the text is a function of the
/// selector's fields, named `selector_debug_text`.
#[verifier::external_body]
pub(crate) fn selector_debug(selector: &UiSelector) -> (r: String)
    ensures
        r@ == selector_debug_text(selector_texts(*selector), selector_flags(*selector)),
{
    format!("{:?}", selector)
}

/// The tap point of a matched node; an error when nothing matched or the
/// match has no bounds.
pub fn actionable_center(node: &Option<NormalizedUiNode>, selector: &UiSelector, action: &str) -> (r:
    Result<(u32, u32), McpError>)
    ensures
        match node {
            Some(n) => match n.center {
                Some(c) => r == Ok::<(u32, u32), McpError>(c),
                None => r matches Err(e) && e.kind == ErrorKind::InternalError && e.message@
                    == "matched selector "@ + selector_debug_text(
                    selector_texts(*selector),
                    selector_flags(*selector),
                ) + " for "@ + action@ + ", but no actionable bounds were available"@,
            },
            None => r matches Err(e) && e.kind == ErrorKind::InternalError && e.message@
                == "no UI element matched selector "@ + selector_debug_text(
                selector_texts(*selector),
                selector_flags(*selector),
            ) + " for "@ + action@,
        },
{
    match node {
        Some(n) => match n.center {
            Some(c) => Ok(c),
            None => {
                let d = selector_debug(selector);
                let mut v = chars_of("matched selector ");
                append_str(&mut v, d.as_str());
                append_str(&mut v, " for ");
                append_str(&mut v, action);
                append_str(&mut v, ", but no actionable bounds were available");
                let e = McpError::internal_error(string_of(v.as_slice()));
                assert(e.message@ == "matched selector "@ + d@ + " for "@ + action@
                    + ", but no actionable bounds were available"@);
                Err(e)
            },
        },
        None => {
            let d = selector_debug(selector);
            let mut v = chars_of("no UI element matched selector ");
            append_str(&mut v, d.as_str());
            append_str(&mut v, " for ");
            append_str(&mut v, action);
            let e = McpError::internal_error(string_of(v.as_slice()));
            assert(e.message@ == "no UI element matched selector "@ + d@ + " for "@ + action@);
            Err(e)
        },
    }
}


// ---------------------------------------------------------------------------
// Text shorthand for selectors.
// ---------------------------------------------------------------------------

pub open spec fn quote_chars() -> Seq<char> {
    seq!['"', '\'']
}

/// The label that follows prefix `p` in `raw`: trimmed, stripped of quotes,
/// trimmed again.
pub open spec fn label_after(raw: Seq<char>, p: Seq<char>) -> Seq<char> {
    trim(trim_in(trim(raw.skip(p.len() as int)), quote_chars()))
}

/// The label after the first prefix in `prefixes` that `raw` starts with
/// (ignoring ASCII case) and that leaves a non-empty label.
pub open spec fn spec_extract_labeled_phrase(raw: Seq<char>, prefixes: Seq<Seq<char>>) -> Option<
    Seq<char>,
>
    decreases prefixes.len(),
{
    if prefixes.len() == 0 {
        None
    } else if starts_with(lower(raw), prefixes[0]) && label_after(raw, prefixes[0]).len() > 0 {
        Some(label_after(raw, prefixes[0]))
    } else {
        spec_extract_labeled_phrase(raw, prefixes.drop_first())
    }
}

/// The label after the first matching prefix.
pub fn extract_labeled_phrase(raw: &[char], prefixes: &Vec<Vec<char>>) -> (r: Option<Vec<char>>)
    ensures
        match r {
            Some(l) => spec_extract_labeled_phrase(raw@, views(prefixes@)) == Some(l@),
            None => spec_extract_labeled_phrase(raw@, views(prefixes@)) is None,
        },
{
    let lowered = lower_chars(raw);
    let quotes: Vec<char> = vec!['"', '\''];
    assert(quotes@ =~= quote_chars());
    let mut i: usize = 0;
    let ghost all = views(prefixes@);
    assert(all.skip(0) =~= all);
    while i < prefixes.len()
        invariant
            i <= prefixes@.len(),
            all == views(prefixes@),
            lowered@ == lower(raw@),
            quotes@ == quote_chars(),
            spec_extract_labeled_phrase(raw@, all) == spec_extract_labeled_phrase(
                raw@,
                all.skip(i as int),
            ),
        decreases prefixes.len() - i,
    {
        let ghost rest = all.skip(i as int);
        assert(rest[0] == prefixes@[i as int]@);
        assert(rest.drop_first() =~= all.skip(i + 1));
        let prefix = &prefixes[i];
        if occurs_at_exec(lowered.as_slice(), prefix.as_slice(), 0) {
            let after = slice_range(raw, prefix.len(), raw.len());
            assert(after@ =~= raw@.skip(prefix@.len() as int));
            let t1 = trim_chars(after.as_slice());
            let t2 = trim_in_chars(t1.as_slice(), quotes.as_slice());
            let label = trim_chars(t2.as_slice());
            if label.len() > 0 {
                return Some(label);
            }
        }
        i = i + 1;
    }
    None
}

pub open spec fn button_prefixes() -> Seq<Seq<char>> {
    seq![
        "button labeled "@,
        "button labelled "@,
        "button named "@,
        "button with text "@,
        "button "@,
    ]
}

pub open spec fn field_prefixes() -> Seq<Seq<char>> {
    seq![
        "text field labeled "@,
        "text field labelled "@,
        "text field named "@,
        "text field with text "@,
        "input field labeled "@,
        "input field labelled "@,
        "input field named "@,
        "text input labeled "@,
        "text input labelled "@,
        "text input named "@,
        "field labeled "@,
        "field labelled "@,
        "field named "@,
        "input labeled "@,
        "input labelled "@,
        "input named "@,
    ]
}

pub open spec fn field_words() -> Seq<Seq<char>> {
    seq!["text field"@, "input field"@, "text input"@, "field"@, "input"@]
}

pub open spec fn scroll_words() -> Seq<Seq<char>> {
    seq!["scroll view"@, "scrollable view"@, "list view"@, "list"@, "scrollable"@]
}

fn char_lists(items: &[&str]) -> (r: Vec<Vec<char>>)
    ensures
        r@.len() == items@.len(),
        forall|i: int| 0 <= i < items@.len() ==> #[trigger] r@[i]@ == items@[i]@,
{
    let mut r: Vec<Vec<char>> = Vec::new();
    let mut i: usize = 0;
    while i < items.len()
        invariant
            i <= items@.len(),
            r@.len() == i,
            forall|k: int| 0 <= k < i ==> #[trigger] r@[k]@ == items@[k]@,
        decreases items.len() - i,
    {
        r.push(chars_of(items[i]));
        i = i + 1;
    }
    r
}

fn button_prefix_list() -> (r: Vec<Vec<char>>)
    ensures
        views(r@) == button_prefixes(),
{
    let items: [&str; 5] = [
        "button labeled ",
        "button labelled ",
        "button named ",
        "button with text ",
        "button ",
    ];
    let r = char_lists(&items);
    assert(views(r@) =~= button_prefixes());
    r
}

fn field_prefix_list() -> (r: Vec<Vec<char>>)
    ensures
        views(r@) == field_prefixes(),
{
    let items: [&str; 16] = [
        "text field labeled ",
        "text field labelled ",
        "text field named ",
        "text field with text ",
        "input field labeled ",
        "input field labelled ",
        "input field named ",
        "text input labeled ",
        "text input labelled ",
        "text input named ",
        "field labeled ",
        "field labelled ",
        "field named ",
        "input labeled ",
        "input labelled ",
        "input named ",
    ];
    let r = char_lists(&items);
    assert(views(r@) =~= field_prefixes());
    r
}

fn in_word_list(w: &[char], items: &[&str]) -> (r: bool)
    ensures
        r == exists|i: int| 0 <= i < items@.len() && items@[i]@ == w@,
{
    let mut i: usize = 0;
    while i < items.len()
        invariant
            i <= items@.len(),
            forall|k: int| 0 <= k < i ==> items@[k]@ != w@,
        decreases items.len() - i,
    {
        if str_eq_chars(items[i], w) {
            return true;
        }
        i = i + 1;
    }
    false
}

/// What a selector phrase asks for.
pub enum PhraseKind {
    /// A clickable control whose label is exactly this text.
    Button(Seq<char>),
    /// A focusable control whose label is exactly this text.
    Field(Seq<char>),
    /// Any focusable control.
    AnyField,
    /// Any scrollable container.
    AnyScrollable,
}

/// The phrase that `raw` spells, if it is one: a button or field prefix with
/// a label, or one of the bare words for fields and scroll containers.
pub open spec fn phrase_kind(raw: Seq<char>) -> Option<PhraseKind> {
    let t = trim(raw);
    if t.len() == 0 {
        None
    } else {
        match spec_extract_labeled_phrase(t, button_prefixes()) {
            Some(l) => Some(PhraseKind::Button(l)),
            None => match spec_extract_labeled_phrase(t, field_prefixes()) {
                Some(l) => Some(PhraseKind::Field(l)),
                None => if field_words().contains(lower(t)) {
                    Some(PhraseKind::AnyField)
                } else if scroll_words().contains(lower(t)) {
                    Some(PhraseKind::AnyScrollable)
                } else {
                    None
                },
            },
        }
    }
}

/// The selector that `selector` is for a phrase kind, its label aside.
pub open spec fn phrase_selector_ok(kind: PhraseKind, sel: UiSelector) -> bool {
    match kind {
        PhraseKind::Button(l) => sel == (UiSelector {
            label: sel.label,
            label_exact: Some(true),
            clickable: Some(true),
            ..empty_selector()
        }) && opt_view(sel.label) == Some(l),
        PhraseKind::Field(l) => sel == (UiSelector {
            label: sel.label,
            label_exact: Some(true),
            focusable: Some(true),
            ..empty_selector()
        }) && opt_view(sel.label) == Some(l),
        PhraseKind::AnyField => sel == (UiSelector { focusable: Some(true), ..empty_selector() }),
        PhraseKind::AnyScrollable => sel == (UiSelector {
            scrollable: Some(true),
            ..empty_selector()
        }),
    }
}

/// Reads a natural-language selector phrase such as `button labelled Search`
/// or `text field`.
pub fn parse_semantic_selector_phrase(raw: &str) -> (r: Option<UiSelector>)
    ensures
        match phrase_kind(raw@) {
            Some(kind) => r matches Some(sel) && phrase_selector_ok(kind, sel),
            None => r is None,
        },
{
    let t = trimmed(raw);
    if t.len() == 0 {
        return None;
    }
    let buttons = button_prefix_list();
    if let Some(label) = extract_labeled_phrase(t.as_slice(), &buttons) {
        return Some(
            UiSelector {
                label: Some(string_of(label.as_slice())),
                label_exact: Some(true),
                clickable: Some(true),
                ..UiSelector::default()
            },
        );
    }
    let fields = field_prefix_list();
    if let Some(label) = extract_labeled_phrase(t.as_slice(), &fields) {
        return Some(
            UiSelector {
                label: Some(string_of(label.as_slice())),
                label_exact: Some(true),
                focusable: Some(true),
                ..UiSelector::default()
            },
        );
    }
    let lt = lower_chars(t.as_slice());
    let field_items: [&str; 5] = ["text field", "input field", "text input", "field", "input"];
    let scroll_items: [&str; 5] = ["scroll view", "scrollable view", "list view", "list", "scrollable"];
    proof {
        assert(field_words() =~= field_items@.map_values(|x: &str| x@));
        assert(scroll_words() =~= scroll_items@.map_values(|x: &str| x@));
    }
    if in_word_list(lt.as_slice(), &field_items) {
        proof {
            let i = choose|i: int| 0 <= i < field_items@.len() && field_items@[i]@ == lt@;
            assert(field_words()[i] == lt@);
        }
        return Some(UiSelector { focusable: Some(true), ..UiSelector::default() });
    }
    if in_word_list(lt.as_slice(), &scroll_items) {
        proof {
            let i = choose|i: int| 0 <= i < scroll_items@.len() && scroll_items@[i]@ == lt@;
            assert(scroll_words()[i] == lt@);
            assert(!field_words().contains(lt@)) by {
                if field_words().contains(lt@) {
                    let j = choose|j: int| 0 <= j < field_words().len() && field_words()[j] == lt@;
                    assert(field_items@[j]@ == lt@);
                }
            }
        }
        return Some(UiSelector { scrollable: Some(true), ..UiSelector::default() });
    }
    proof {
        assert(!field_words().contains(lt@)) by {
            if field_words().contains(lt@) {
                let j = choose|j: int| 0 <= j < field_words().len() && field_words()[j] == lt@;
                assert(field_items@[j]@ == lt@);
            }
        }
        assert(!scroll_words().contains(lt@)) by {
            if scroll_words().contains(lt@) {
                let j = choose|j: int| 0 <= j < scroll_words().len() && scroll_words()[j] == lt@;
                assert(scroll_items@[j]@ == lt@);
            }
        }
    }
    None
}

/// The selector that a text shorthand stands for: a recognised phrase, or a
/// text match on the trimmed input when it is not blank.
pub open spec fn shorthand_ok(raw: Seq<char>, sel: UiSelector) -> bool {
    match phrase_kind(raw) {
        Some(kind) => phrase_selector_ok(kind, sel),
        None => sel == (UiSelector { text: sel.text, ..empty_selector() }) && if trim(raw).len()
            > 0 {
            opt_view(sel.text) == Some(trim(raw))
        } else {
            sel.text is None
        },
    }
}

/// The selector that a text shorthand stands for.
pub fn selector_from_text_shorthand(raw: &str) -> (sel: UiSelector)
    ensures
        shorthand_ok(raw@, sel),
{
    match parse_semantic_selector_phrase(raw) {
        Some(sel) => sel,
        None => {
            let t = trimmed(raw);
            let text = if t.len() > 0 {
                Some(string_of(t.as_slice()))
            } else {
                None
            };
            UiSelector { text, ..UiSelector::default() }
        },
    }
}

/// What a selector input stands for.
pub open spec fn input_ok(input: UiSelectorInput, sel: UiSelector) -> bool {
    match input {
        UiSelectorInput::Selector(s) => sel == s,
        UiSelectorInput::Text(t) => shorthand_ok(t@, sel),
    }
}

/// A structured selector passes through; text shorthand is interpreted.
pub fn normalize_selector_input(input: UiSelectorInput) -> (sel: UiSelector)
    ensures
        input_ok(input, sel),
{
    match input {
        UiSelectorInput::Selector(selector) => selector,
        UiSelectorInput::Text(text) => selector_from_text_shorthand(text.as_str()),
    }
}

/// `normalize_selector_input` on a present input.
pub fn normalize_optional_selector_input(input: Option<UiSelectorInput>) -> (r: Option<UiSelector>)
    ensures
        match input {
            Some(i) => r matches Some(sel) && input_ok(i, sel),
            None => r is None,
        },
{
    match input {
        Some(i) => Some(normalize_selector_input(i)),
        None => None,
    }
}


// ---------------------------------------------------------------------------
// Labels and compaction for tool output.
// ---------------------------------------------------------------------------

/// The views of a list of strings.
pub open spec fn strs_view(v: Seq<String>) -> Seq<Seq<char>> {
    v.map_values(|x: String| x@)
}

/// The first candidate that is not blank, trimmed.
pub open spec fn first_label(cands: Seq<Option<Seq<char>>>) -> Option<Seq<char>>
    decreases cands.len(),
{
    if cands.len() == 0 {
        None
    } else {
        match cands[0] {
            Some(c) => if trim(c).len() > 0 {
                Some(trim(c))
            } else {
                first_label(cands.drop_first())
            },
            None => first_label(cands.drop_first()),
        }
    }
}

/// The last `/`-separated segment of the resource id.
pub open spec fn resource_tail(n: NormalizedUiNode) -> Option<Seq<char>> {
    match n.resource_id {
        Some(r) => Some(after_last(r@, '/')),
        None => None,
    }
}

/// The label shown for a node: its semantic label, text, content
/// description or resource-id tail, whichever comes first and is not blank.
pub open spec fn spec_visible_label(n: NormalizedUiNode) -> Option<Seq<char>> {
    first_label(
        seq![opt_view(n.semantic_label), opt_view(n.text), opt_view(n.content_desc), resource_tail(n)],
    )
}

/// The label a node shows by itself: text, content description or
/// resource-id tail.
pub open spec fn spec_direct_visible_label(n: NormalizedUiNode) -> Option<Seq<char>> {
    first_label(seq![opt_view(n.text), opt_view(n.content_desc), resource_tail(n)])
}

fn opt_chars(o: &Option<String>) -> (r: Option<Vec<char>>)
    ensures
        match r {
            Some(v) => opt_view(*o) == Some(v@),
            None => o is None,
        },
{
    match o {
        Some(s) => Some(chars_of(s.as_str())),
        None => None,
    }
}

fn resource_tail_exec(n: &NormalizedUiNode) -> (r: Option<Vec<char>>)
    ensures
        match r {
            Some(v) => resource_tail(*n) == Some(v@),
            None => resource_tail(*n) is None,
        },
{
    match &n.resource_id {
        Some(id) => {
            let v = chars_of(id.as_str());
            Some(after_last_chars(v.as_slice(), '/'))
        },
        None => None,
    }
}

/// The first non-blank candidate, trimmed, as an owned string.
fn first_label_exec(cands: Vec<Option<Vec<char>>>) -> (r: Option<String>)
    ensures
        opt_view(r) == first_label(
            cands@.map_values(
                |o: Option<Vec<char>>|
                    match o {
                        Some(v) => Some(v@),
                        None => None,
                    },
            ),
        ),
{
    let ghost all = cands@.map_values(
        |o: Option<Vec<char>>|
            match o {
                Some(v) => Some(v@),
                None => None,
            },
    );
    let mut i: usize = 0;
    assert(all.skip(0) =~= all);
    while i < cands.len()
        invariant
            i <= cands@.len(),
            all == cands@.map_values(
                |o: Option<Vec<char>>|
                    match o {
                        Some(v) => Some(v@),
                        None => None,
                    },
            ),
            first_label(all) == first_label(all.skip(i as int)),
        decreases cands.len() - i,
    {
        let ghost rest = all.skip(i as int);
        assert(rest.drop_first() =~= all.skip(i + 1));
        match &cands[i] {
            Some(c) => {
                let t = trim_chars(c.as_slice());
                if t.len() > 0 {
                    return Some(string_of(t.as_slice()));
                }
            },
            None => {},
        }
        i = i + 1;
    }
    None
}

/// The label shown for a node in the visible-UI digest.
pub fn visible_label_for_node(node: &NormalizedUiNode) -> (r: Option<String>)
    ensures
        opt_view(r) == spec_visible_label(*node),
{
    let mut cands: Vec<Option<Vec<char>>> = Vec::new();
    cands.push(opt_chars(&node.semantic_label));
    cands.push(opt_chars(&node.text));
    cands.push(opt_chars(&node.content_desc));
    cands.push(resource_tail_exec(node));
    let r = first_label_exec(cands);
    proof {
        let m = cands@.map_values(
            |o: Option<Vec<char>>|
                match o {
                    Some(v) => Some(v@),
                    None => None,
                },
        );
        assert(m =~= seq![
            opt_view(node.semantic_label),
            opt_view(node.text),
            opt_view(node.content_desc),
            resource_tail(*node),
        ]);
    }
    r
}

/// The label a node shows by itself.
pub fn direct_visible_label_for_node(node: &NormalizedUiNode) -> (r: Option<String>)
    ensures
        opt_view(r) == spec_direct_visible_label(*node),
{
    let mut cands: Vec<Option<Vec<char>>> = Vec::new();
    cands.push(opt_chars(&node.text));
    cands.push(opt_chars(&node.content_desc));
    cands.push(resource_tail_exec(node));
    let r = first_label_exec(cands);
    proof {
        let m = cands@.map_values(
            |o: Option<Vec<char>>|
                match o {
                    Some(v) => Some(v@),
                    None => None,
                },
        );
        assert(m =~= seq![opt_view(node.text), opt_view(node.content_desc), resource_tail(*node)]);
    }
    r
}

/// The generic label of a scrollable container, by its class name; none
/// for a container that fills the viewport.
pub open spec fn spec_scrollable_label(
    n: NormalizedUiNode,
    bounds: UiBounds,
    viewport: Option<UiBounds>,
) -> Option<Seq<char>> {
    if !n.scrollable || viewport == Some(bounds) {
        None
    } else {
        let class = lower(
            match n.class_name {
                Some(c) => c@,
                None => Seq::<char>::empty(),
            },
        );
        if contains(class, "recyclerview"@) || contains(class, "listview"@) {
            Some("Scrollable list"@)
        } else if contains(class, "viewpager"@) {
            Some("Scrollable pages"@)
        } else if contains(class, "scrollview"@) {
            Some("Scrollable view"@)
        } else {
            Some("Scrollable region"@)
        }
    }
}

pub fn scrollable_visible_label_for_node(
    node: &NormalizedUiNode,
    bounds: UiBounds,
    viewport: Option<UiBounds>,
) -> (r: Option<String>)
    ensures
        opt_view(r) == spec_scrollable_label(*node, bounds, viewport),
{
    if !node.scrollable || viewport == Some(bounds) {
        return None;
    }
    let class = match &node.class_name {
        Some(c) => lower_str(c.as_str()),
        None => Vec::new(),
    };
    proof {
        if node.class_name is None {
            assert(class@ =~= lower(Seq::<char>::empty()));
        }
    }
    let label = if contains_str(class.as_slice(), "recyclerview") || contains_str(
        class.as_slice(),
        "listview",
    ) {
        owned("Scrollable list")
    } else if contains_str(class.as_slice(), "viewpager") {
        owned("Scrollable pages")
    } else if contains_str(class.as_slice(), "scrollview") {
        owned("Scrollable view")
    } else {
        owned("Scrollable region")
    };
    Some(label)
}

/// `value` with whitespace runs collapsed.
pub fn visible_label_key(value: &str) -> (r: String)
    ensures
        r@ == collapse_white(value@),
{
    let v = chars_of(value);
    let c = collapse_white_chars(v.as_slice());
    string_of(c.as_slice())
}

/// `node` shows the same label as a larger interactive node around it (or
/// at the same bounds), so listing it again would repeat that label.
pub open spec fn spec_nested_duplicate(
    node: NormalizedUiNode,
    bounds: UiBounds,
    label: Seq<char>,
    nodes: Seq<NormalizedUiNode>,
) -> bool {
    &&& !(node.clickable || node.focusable || node.long_clickable || node.scrollable)
    &&& collapse_white(label).len() > 0
    &&& exists|i: int|
        0 <= i < nodes.len() && #[trigger] covers_with_label(nodes[i], bounds, collapse_white(label))
}

/// `candidate` is an interactive, non-scrolling node at or around `bounds`
/// whose visible label collapses to `key`.
pub open spec fn covers_with_label(candidate: NormalizedUiNode, bounds: UiBounds, key: Seq<char>) -> bool {
    match candidate.bounds {
        Some(cb) => {
            &&& !candidate.scrollable
            &&& (candidate.clickable || candidate.focusable || candidate.long_clickable)
            &&& (cb == bounds || (cb.spec_contains(bounds) && cb.spec_area() > bounds.spec_area()))
            &&& match spec_visible_label(candidate) {
                Some(l) => collapse_white(l) == key,
                None => false,
            }
        },
        None => false,
    }
}

fn covers_with_label_exec(candidate: &NormalizedUiNode, bounds: UiBounds, key: &[char]) -> (r: bool)
    ensures
        r == covers_with_label(*candidate, bounds, key@),
{
    let cb = match candidate.bounds {
        Some(cb) => cb,
        None => {
            return false;
        },
    };
    if candidate.scrollable || !(candidate.clickable || candidate.focusable
        || candidate.long_clickable) {
        return false;
    }
    if !(cb == bounds || (cb.contains(bounds) && cb.area() > bounds.area())) {
        return false;
    }
    match visible_label_for_node(candidate) {
        Some(l) => {
            let lv = chars_of(l.as_str());
            let k = collapse_white_chars(lv.as_slice());
            chars_eq(k.as_slice(), key)
        },
        None => false,
    }
}

pub fn is_nested_duplicate_visible_label(
    node: &NormalizedUiNode,
    bounds: UiBounds,
    label: &str,
    nodes: &[NormalizedUiNode],
) -> (r: bool)
    ensures
        r == spec_nested_duplicate(*node, bounds, label@, nodes@),
{
    if node.clickable || node.focusable || node.long_clickable || node.scrollable {
        return false;
    }
    let lv = chars_of(label);
    let key = collapse_white_chars(lv.as_slice());
    if key.len() == 0 {
        return false;
    }
    let mut i: usize = 0;
    while i < nodes.len()
        invariant
            i <= nodes@.len(),
            key@ == collapse_white(label@),
            key@.len() > 0,
            !(node.clickable || node.focusable || node.long_clickable || node.scrollable),
            forall|k: int| 0 <= k < i ==> !covers_with_label(#[trigger] nodes@[k], bounds, key@),
        decreases nodes.len() - i,
    {
        if covers_with_label_exec(&nodes[i], bounds, key.as_slice()) {
            assert(covers_with_label(nodes@[i as int], bounds, collapse_white(label@)));
            return true;
        }
        i = i + 1;
    }
    false
}

/// A label is a nested duplicate exactly when its node is not interactive,
/// the label has a visible word, and some interactive, non-scrolling node of
/// the list sits at the same bounds or strictly encloses them with a larger
/// area, and shows a visible label with the same words.
pub proof fn lemma_nested_duplicate_iff(
    node: NormalizedUiNode,
    bounds: UiBounds,
    label: Seq<char>,
    nodes: Seq<NormalizedUiNode>,
)
    ensures
        spec_nested_duplicate(node, bounds, label, nodes) <==> {
            &&& !(node.clickable || node.focusable || node.long_clickable || node.scrollable)
            &&& collapse_white(label) != Seq::<char>::empty()
            &&& exists|c: NormalizedUiNode|
                #[trigger] nodes.contains(c) && c.bounds is Some && !c.scrollable && (c.clickable
                    || c.focusable || c.long_clickable) && (c.bounds->0 == bounds || (
                c.bounds->0.spec_contains(bounds) && c.bounds->0.spec_area() > bounds.spec_area()))
                    && spec_visible_label(c) is Some && collapse_white(spec_visible_label(c)->0)
                    == collapse_white(label)
        },
{
    let key = collapse_white(label);
    if spec_nested_duplicate(node, bounds, label, nodes) {
        let i = choose|i: int| 0 <= i < nodes.len() && #[trigger] covers_with_label(nodes[i], bounds, key);
        assert(nodes.contains(nodes[i]));
        assert(key.len() > 0);
        assert(key != Seq::<char>::empty());
    }
    if {
        &&& !(node.clickable || node.focusable || node.long_clickable || node.scrollable)
        &&& key != Seq::<char>::empty()
        &&& exists|c: NormalizedUiNode|
            #[trigger] nodes.contains(c) && c.bounds is Some && !c.scrollable && (c.clickable
                || c.focusable || c.long_clickable) && (c.bounds->0 == bounds || (
            c.bounds->0.spec_contains(bounds) && c.bounds->0.spec_area() > bounds.spec_area()))
                && spec_visible_label(c) is Some && collapse_white(spec_visible_label(c)->0) == key
    } {
        let c = choose|c: NormalizedUiNode|
            #[trigger] nodes.contains(c) && c.bounds is Some && !c.scrollable && (c.clickable
                || c.focusable || c.long_clickable) && (c.bounds->0 == bounds || (
            c.bounds->0.spec_contains(bounds) && c.bounds->0.spec_area() > bounds.spec_area()))
                && spec_visible_label(c) is Some && collapse_white(spec_visible_label(c)->0) == key;
        let i = choose|i: int| 0 <= i < nodes.len() && nodes[i] == c;
        assert(covers_with_label(nodes[i], bounds, key));
        assert(key.len() > 0) by {
            if key.len() == 0 {
                assert(key =~= Seq::<char>::empty());
            }
        }
    }
}

/// How much of a node lies inside the viewport.
#[derive(Debug)]
pub struct ViewportVisibility {
    pub clipped: bool,
    pub clip_edges: Vec<String>,
    pub visible_fraction_percent: u8,
}

impl ViewportVisibility {
    /// Fully visible and not clipped.
    pub fn unclipped() -> (v: Self)
        ensures
            !v.clipped,
            v.clip_edges@.len() == 0,
            v.visible_fraction_percent == 100,
    {
        ViewportVisibility { clipped: false, clip_edges: Vec::new(), visible_fraction_percent: 100 }
    }
}

/// The viewport edges that `b` crosses, in the order left, top, right, bottom.
pub open spec fn spec_clip_edges(b: UiBounds, vp: UiBounds) -> Seq<Seq<char>> {
    let e0: Seq<Seq<char>> = if b.left < vp.left {
        seq!["left"@]
    } else {
        seq![]
    };
    let e1: Seq<Seq<char>> = if b.top < vp.top {
        seq!["top"@]
    } else {
        seq![]
    };
    let e2: Seq<Seq<char>> = if b.right > vp.right {
        seq!["right"@]
    } else {
        seq![]
    };
    let e3: Seq<Seq<char>> = if b.bottom > vp.bottom {
        seq!["bottom"@]
    } else {
        seq![]
    };
    e0 + e1 + e2 + e3
}

/// The visible share of `b` inside `vp` in percent, rounded to nearest and
/// capped at 100; zero for an empty node.
pub open spec fn spec_visible_percent(b: UiBounds, vp: UiBounds) -> int {
    let area = b.spec_area();
    let visible = b.spec_intersection_area(vp);
    if area == 0 {
        0
    } else {
        min_int((min_int(visible * 100, u64::MAX as int) + area / 2) / area, 100)
    }
}

/// Which edges of the viewport clip `bounds`, and how much of it shows.
pub fn visibility_within_viewport(bounds: UiBounds, viewport: UiBounds) -> (v: ViewportVisibility)
    ensures
        strs_view(v.clip_edges@) == spec_clip_edges(bounds, viewport),
        v.visible_fraction_percent as int == spec_visible_percent(bounds, viewport),
        v.clipped == (spec_clip_edges(bounds, viewport).len() > 0 || spec_visible_percent(
            bounds,
            viewport,
        ) < 100),
{
    let mut clip_edges: Vec<String> = Vec::new();
    if bounds.left < viewport.left {
        clip_edges.push(owned("left"));
    }
    if bounds.top < viewport.top {
        clip_edges.push(owned("top"));
    }
    if bounds.right > viewport.right {
        clip_edges.push(owned("right"));
    }
    if bounds.bottom > viewport.bottom {
        clip_edges.push(owned("bottom"));
    }
    assert(strs_view(clip_edges@) =~= spec_clip_edges(bounds, viewport));
    let node_area = bounds.area();
    let visible_area = bounds.intersection_area(viewport);
    let percent: u8 = if node_area == 0 {
        0
    } else {
        let scaled: u64 = if visible_area > u64::MAX / 100 {
            u64::MAX
        } else {
            visible_area * 100
        };
        let half = node_area / 2;
        let sum: u128 = scaled as u128 + half as u128;
        let q: u128 = sum / (node_area as u128);
        if q > 100 {
            100
        } else {
            q as u8
        }
    };
    let clipped = clip_edges.len() > 0 || percent < 100;
    ViewportVisibility { clipped, clip_edges, visible_fraction_percent: percent }
}

/// The area of the largest bounds among `ns` (only those at the origin when
/// `origin_only`); on ties the later node wins, as `max_by_key` picks.
pub open spec fn largest_bounds(ns: Seq<NormalizedUiNode>, origin_only: bool) -> Option<UiBounds>
    decreases ns.len(),
{
    if ns.len() == 0 {
        None
    } else {
        let prev = largest_bounds(ns.drop_last(), origin_only);
        match ns.last().bounds {
            Some(b) => if !origin_only || (b.left == 0 && b.top == 0) {
                match prev {
                    Some(p) => if p.spec_area() > b.spec_area() {
                        Some(p)
                    } else {
                        Some(b)
                    },
                    None => Some(b),
                }
            } else {
                prev
            },
            None => prev,
        }
    }
}

/// The viewport: the largest bounds anchored at the origin, else the
/// largest bounds of all.
pub open spec fn spec_viewport(ns: Seq<NormalizedUiNode>) -> Option<UiBounds> {
    match largest_bounds(ns, true) {
        Some(b) => Some(b),
        None => largest_bounds(ns, false),
    }
}

fn largest_bounds_exec(nodes: &[NormalizedUiNode], origin_only: bool) -> (r: Option<UiBounds>)
    ensures
        r == largest_bounds(nodes@, origin_only),
{
    let mut best: Option<UiBounds> = None;
    let mut i: usize = 0;
    while i < nodes.len()
        invariant
            i <= nodes@.len(),
            best == largest_bounds(nodes@.subrange(0, i as int), origin_only),
        decreases nodes.len() - i,
    {
        let ghost pre = nodes@.subrange(0, i as int);
        let ghost next = nodes@.subrange(0, i + 1);
        assert(next.drop_last() =~= pre);
        if let Some(b) = nodes[i].bounds {
            if !origin_only || (b.left == 0 && b.top == 0) {
                best = match best {
                    Some(p) => if p.area() > b.area() {
                        Some(p)
                    } else {
                        Some(b)
                    },
                    None => Some(b),
                };
            }
        }
        i = i + 1;
    }
    assert(nodes@.subrange(0, nodes@.len() as int) =~= nodes@);
    best
}

/// The viewport that the nodes suggest.
pub fn infer_viewport_bounds(nodes: &[NormalizedUiNode]) -> (r: Option<UiBounds>)
    ensures
        r == spec_viewport(nodes@),
{
    match largest_bounds_exec(nodes, true) {
        Some(b) => Some(b),
        None => largest_bounds_exec(nodes, false),
    }
}

/// The marker that replaces a truncated tail.
pub open spec fn truncation_marker(original_chars: nat) -> Seq<char> {
    "... [truncated; original_chars="@ + decimal(original_chars) + "]"@
}

fn truncation_marker_exec(original_chars: usize) -> (r: Vec<char>)
    ensures
        r@ == truncation_marker(original_chars as nat),
{
    let mut r = chars_of("... [truncated; original_chars=");
    push_decimal(&mut r, original_chars as u64);
    append_str(&mut r, "]");
    r
}

/// A text field kept verbatim up to the output limit, else cut to the limit
/// with a marker that states the original length.
pub open spec fn spec_compact_output_text(v: Seq<char>) -> Seq<char> {
    if v.len() <= UI_OUTPUT_TEXT_CHAR_LIMIT {
        v
    } else {
        v.take(UI_OUTPUT_TEXT_CHAR_LIMIT as int) + truncation_marker(v.len())
    }
}

pub fn compact_output_text(value: Option<String>) -> (r: Option<String>)
    ensures
        match value {
            Some(v) => opt_view(r) == Some(spec_compact_output_text(v@)),
            None => r is None,
        },
{
    match value {
        Some(v) => {
            let chars = chars_of(v.as_str());
            if chars.len() <= UI_OUTPUT_TEXT_CHAR_LIMIT {
                return Some(v);
            }
            let mut out = slice_range(chars.as_slice(), 0, UI_OUTPUT_TEXT_CHAR_LIMIT);
            let marker = truncation_marker_exec(chars.len());
            append_chars(&mut out, marker.as_slice());
            Some(string_of(out.as_slice()))
        },
        None => None,
    }
}

/// A label with whitespace collapsed, cut to the label limit with a marker
/// when longer.
pub open spec fn spec_compact_visible_label(v: Seq<char>) -> Seq<char> {
    let norm = collapse_white(v);
    if norm.len() <= UI_VISIBLE_LABEL_CHAR_LIMIT {
        norm
    } else {
        trim_end(norm.take(UI_VISIBLE_LABEL_CHAR_LIMIT as int)) + truncation_marker(norm.len())
    }
}

fn compact_visible_label_chars(value: &[char]) -> (r: Vec<char>)
    ensures
        r@ == spec_compact_visible_label(value@),
{
    let norm = collapse_white_chars(value);
    if norm.len() <= UI_VISIBLE_LABEL_CHAR_LIMIT {
        return norm;
    }
    let prefix = slice_range(norm.as_slice(), 0, UI_VISIBLE_LABEL_CHAR_LIMIT);
    let kept = trim_end_chars(prefix.as_slice());
    let mut out = kept;
    let marker = truncation_marker_exec(norm.len());
    append_chars(&mut out, marker.as_slice());
    out
}

pub fn compact_visible_label(value: &str) -> (r: String)
    ensures
        r@ == spec_compact_visible_label(value@),
{
    let v = chars_of(value);
    let c = compact_visible_label_chars(v.as_slice());
    string_of(c.as_slice())
}


// ---------------------------------------------------------------------------
// The visible-UI digest.
// ---------------------------------------------------------------------------

/// Clipping of a node: whether it is clipped, the edges that clip it, and
/// the visible percentage.
pub open spec fn spec_visibility(b: UiBounds, vp: Option<UiBounds>) -> (bool, Seq<Seq<char>>, int) {
    match vp {
        Some(v) => (
            spec_clip_edges(b, v).len() > 0 || spec_visible_percent(b, v) < 100,
            spec_clip_edges(b, v),
            spec_visible_percent(b, v),
        ),
        None => (false, Seq::<Seq<char>>::empty(), 100),
    }
}

/// The tag that describes how a node is clipped.
pub open spec fn clipped_tag(edges: Seq<Seq<char>>, percent: int) -> Seq<char> {
    "clipped"@ + (if edges.len() > 0 {
        " "@ + join(edges, "/"@)
    } else {
        Seq::<char>::empty()
    }) + (if percent < 100 {
        " "@ + decimal(percent as nat) + "%"@
    } else {
        Seq::<char>::empty()
    })
}

/// The state tags of a digest entry: disabled, scrollable (unless the
/// label says so already), clipped.
pub open spec fn state_tags(
    label: Seq<char>,
    n: NormalizedUiNode,
    clipped: bool,
    edges: Seq<Seq<char>>,
    percent: int,
) -> Seq<Seq<char>> {
    let t0: Seq<Seq<char>> = if !n.enabled {
        seq!["disabled"@]
    } else {
        seq![]
    };
    let t1: Seq<Seq<char>> = if n.scrollable && !contains(lower(label), "scrollable"@) {
        seq!["scrollable"@]
    } else {
        seq![]
    };
    let t2: Seq<Seq<char>> = if clipped {
        seq![clipped_tag(edges, percent)]
    } else {
        seq![]
    };
    t0 + t1 + t2
}

/// ` [tag; tag]`, or nothing when there is no tag.
pub open spec fn spec_state_suffix(
    label: Seq<char>,
    n: NormalizedUiNode,
    clipped: bool,
    edges: Seq<Seq<char>>,
    percent: int,
) -> Option<Seq<char>> {
    let tags = state_tags(label, n, clipped, edges, percent);
    if tags.len() == 0 {
        None
    } else {
        Some(" ["@ + join(tags, "; "@) + "]"@)
    }
}

fn strings_to_chars(v: &Vec<String>) -> (r: Vec<Vec<char>>)
    ensures
        views(r@) == strs_view(v@),
{
    let mut r: Vec<Vec<char>> = Vec::new();
    let mut i: usize = 0;
    while i < v.len()
        invariant
            i <= v@.len(),
            views(r@) == strs_view(v@.subrange(0, i as int)),
        decreases v.len() - i,
    {
        let ghost old_r = r@;
        let c = chars_of(v[i].as_str());
        r.push(c);
        assert(views(r@) =~= views(old_r).push(c@));
        assert(strs_view(v@.subrange(0, i + 1)) =~= strs_view(v@.subrange(0, i as int)).push(v@[i as int]@));
        i = i + 1;
    }
    assert(v@.subrange(0, v@.len() as int) =~= v@);
    r
}

pub fn visible_label_state_suffix(label: &str, node: &NormalizedUiNode, visibility: &ViewportVisibility) -> (r:
    Option<String>)
    ensures
        opt_view(r) == spec_state_suffix(
            label@,
            *node,
            visibility.clipped,
            strs_view(visibility.clip_edges@),
            visibility.visible_fraction_percent as int,
        ),
{
    let mut tags: Vec<Vec<char>> = Vec::new();
    let ghost edges = strs_view(visibility.clip_edges@);
    let ghost pct = visibility.visible_fraction_percent as int;
    let ghost t0: Seq<Seq<char>> = if !node.enabled {
        seq!["disabled"@]
    } else {
        seq![]
    };
    let ghost t1: Seq<Seq<char>> = if node.scrollable && !contains(lower(label@), "scrollable"@) {
        seq!["scrollable"@]
    } else {
        seq![]
    };
    if !node.enabled {
        tags.push(chars_of("disabled"));
    }
    assert(views(tags@) =~= t0);
    let lower_label = lower_str(label);
    if node.scrollable && !contains_str(lower_label.as_slice(), "scrollable") {
        tags.push(chars_of("scrollable"));
    }
    assert(views(tags@) =~= t0 + t1);
    if visibility.clipped {
        let mut clipped = chars_of("clipped");
        if visibility.clip_edges.len() > 0 {
            clipped.push(' ');
            let edge_chars = strings_to_chars(&visibility.clip_edges);
            let slash: Vec<char> = vec!['/'];
            assert(slash@ =~= "/"@) by {
                reveal_strlit("/");
            }
            let joined = join_chars(&edge_chars, slash.as_slice());
            append_chars(&mut clipped, joined.as_slice());
            assert(seq![' '] =~= " "@) by {
                reveal_strlit(" ");
            }
        }
        if visibility.visible_fraction_percent < 100 {
            let ghost before = clipped@;
            clipped.push(' ');
            push_decimal(&mut clipped, visibility.visible_fraction_percent as u64);
            append_str(&mut clipped, "%");
            assert(seq![' '] =~= " "@) by {
                reveal_strlit(" ");
            }
            assert(clipped@ =~= before + " "@ + decimal(pct as nat) + "%"@);
        }
        assert(clipped@ =~= clipped_tag(edges, pct));
        tags.push(clipped);
    }
    assert(views(tags@) =~= state_tags(label@, *node, visibility.clipped, edges, pct));
    if tags.len() == 0 {
        None
    } else {
        let mut out = chars_of(" [");
        let sep = chars_of("; ");
        let joined = join_chars(&tags, sep.as_slice());
        append_chars(&mut out, joined.as_slice());
        append_str(&mut out, "]");
        Some(string_of(out.as_slice()))
    }
}

/// The digest label of a node with its state tags, cut to the label limit.
pub open spec fn spec_compact_with_state(
    value: Seq<char>,
    n: NormalizedUiNode,
    clipped: bool,
    edges: Seq<Seq<char>>,
    percent: int,
) -> Seq<char> {
    match spec_state_suffix(value, n, clipped, edges, percent) {
        None => spec_compact_visible_label(value),
        Some(suffix) => {
            let norm = collapse_white(value);
            if norm.len() + suffix.len() <= UI_VISIBLE_LABEL_CHAR_LIMIT {
                norm + suffix
            } else {
                let marker = truncation_marker(norm.len()) + suffix;
                if marker.len() >= UI_VISIBLE_LABEL_CHAR_LIMIT {
                    spec_compact_visible_label(norm + suffix)
                } else {
                    trim_end(norm.take(UI_VISIBLE_LABEL_CHAR_LIMIT - marker.len()))
                        + marker
                }
            }
        },
    }
}

pub fn compact_visible_label_with_state(
    value: &str,
    node: &NormalizedUiNode,
    visibility: &ViewportVisibility,
) -> (r: String)
    ensures
        r@ == spec_compact_with_state(
            value@,
            *node,
            visibility.clipped,
            strs_view(visibility.clip_edges@),
            visibility.visible_fraction_percent as int,
        ),
{
    let suffix = visible_label_state_suffix(value, node, visibility);
    let suffix = match suffix {
        Some(sfx) => sfx,
        None => {
            return compact_visible_label(value);
        },
    };
    let v = chars_of(value);
    let normalized = collapse_white_chars(v.as_slice());
    let sfx = chars_of(suffix.as_str());
    let original_chars = normalized.len();
    if original_chars <= UI_VISIBLE_LABEL_CHAR_LIMIT && sfx.len() <= UI_VISIBLE_LABEL_CHAR_LIMIT
        - original_chars {
        let mut out = normalized;
        append_chars(&mut out, sfx.as_slice());
        return string_of(out.as_slice());
    }
    let mut marker = truncation_marker_exec(original_chars);
    append_chars(&mut marker, sfx.as_slice());
    if marker.len() >= UI_VISIBLE_LABEL_CHAR_LIMIT {
        let mut joined = normalized;
        append_chars(&mut joined, sfx.as_slice());
        let c = compact_visible_label_chars(joined.as_slice());
        return string_of(c.as_slice());
    }
    let prefix_chars = UI_VISIBLE_LABEL_CHAR_LIMIT - marker.len();
    let prefix = if prefix_chars <= normalized.len() {
        slice_range(normalized.as_slice(), 0, prefix_chars)
    } else {
        slice_range(normalized.as_slice(), 0, normalized.len())
    };
    assert(prefix@ =~= normalized@.take(prefix_chars as int));
    let mut out = trim_end_chars(prefix.as_slice());
    append_chars(&mut out, marker.as_slice());
    string_of(out.as_slice())
}

/// One entry of the visible-UI digest.
#[derive(Debug, PartialEq, Eq)]
pub struct VisibleUiNode {
    pub label: String,
    pub bounds: UiBounds,
    pub resource_id: Option<String>,
    pub class_name: Option<String>,
    pub enabled: bool,
    pub interactive: bool,
    pub scrollable: bool,
    pub clipped: bool,
    pub clip_edges: Vec<String>,
    pub visible_fraction_percent: u8,
}

/// The visible-UI digest of a hierarchy.
#[derive(Debug)]
pub struct VisibleUiForOutput {
    pub nodes: Vec<VisibleUiNode>,
    pub total_labeled_count: usize,
    pub returned_count: usize,
    pub label_char_limit: usize,
    pub viewport: Option<UiBounds>,
    pub clipped_node_count: usize,
    pub scrollable_node_count: usize,
}

/// The label a node contributes to the digest, before state tags; none for
/// a node without bounds or label, or one that repeats an enclosing label.
pub open spec fn digest_label(n: NormalizedUiNode, ns: Seq<NormalizedUiNode>, vp: Option<UiBounds>) -> Option<
    Seq<char>,
> {
    match n.bounds {
        None => None,
        Some(b) => {
            let label = if n.scrollable {
                match spec_direct_visible_label(n) {
                    Some(l) => Some(l),
                    None => match spec_scrollable_label(n, b, vp) {
                        Some(l) => Some(l),
                        None => spec_visible_label(n),
                    },
                }
            } else {
                spec_visible_label(n)
            };
            match label {
                Some(l) => if spec_nested_duplicate(n, b, l, ns) {
                    None
                } else {
                    Some(l)
                },
                None => None,
            }
        },
    }
}

/// The positions among the first `k` nodes that contribute to the digest.
pub open spec fn digest_indices(ns: Seq<NormalizedUiNode>, vp: Option<UiBounds>, k: int) -> Seq<int>
    decreases k,
{
    if k <= 0 {
        Seq::<int>::empty()
    } else if digest_label(ns[k - 1], ns, vp) is Some {
        digest_indices(ns, vp, k - 1).push(k - 1)
    } else {
        digest_indices(ns, vp, k - 1)
    }
}

/// The number of scrollable nodes among the first `k`.
pub open spec fn count_scrollable(ns: Seq<NormalizedUiNode>, k: int) -> nat
    decreases k,
{
    if k <= 0 {
        0
    } else {
        count_scrollable(ns, k - 1) + if ns[k - 1].scrollable {
            1nat
        } else {
            0nat
        }
    }
}

/// The number of clipped entries among the first `k`.
pub open spec fn count_clipped(es: Seq<VisibleUiNode>, k: int) -> nat
    decreases k,
{
    if k <= 0 {
        0
    } else {
        count_clipped(es, k - 1) + if es[k - 1].clipped {
            1nat
        } else {
            0nat
        }
    }
}

/// Entry `e` is the digest entry of node `n` with label `label`.
pub open spec fn entry_ok(e: VisibleUiNode, n: NormalizedUiNode, label: Seq<char>, vp: Option<UiBounds>) -> bool {
    match n.bounds {
        Some(b) => {
            let (clipped, edges, percent) = spec_visibility(b, vp);
            &&& e.label@ == spec_compact_with_state(label, n, clipped, edges, percent)
            &&& e.bounds == b
            &&& e.resource_id == n.resource_id
            &&& e.class_name == n.class_name
            &&& e.enabled == n.enabled
            &&& e.interactive == (n.clickable || n.focusable || n.long_clickable || n.scrollable)
            &&& e.scrollable == n.scrollable
            &&& e.clipped == clipped
            &&& strs_view(e.clip_edges@) == edges
            &&& e.visible_fraction_percent as int == percent
        },
        None => false,
    }
}

fn digest_label_exec(
    node: &NormalizedUiNode,
    nodes: &[NormalizedUiNode],
    viewport: Option<UiBounds>,
) -> (r: Option<String>)
    ensures
        opt_view(r) == digest_label(*node, nodes@, viewport),
{
    let bounds = match node.bounds {
        Some(b) => b,
        None => {
            return None;
        },
    };
    let label = if node.scrollable {
        match direct_visible_label_for_node(node) {
            Some(l) => Some(l),
            None => match scrollable_visible_label_for_node(node, bounds, viewport) {
                Some(l) => Some(l),
                None => visible_label_for_node(node),
            },
        }
    } else {
        visible_label_for_node(node)
    };
    match label {
        Some(l) => {
            if is_nested_duplicate_visible_label(node, bounds, l.as_str(), nodes) {
                None
            } else {
                Some(l)
            }
        },
        None => None,
    }
}

/// Entry `e` is the digest entry of node `n` of the hierarchy `ns`.
pub open spec fn digest_entry_ok(
    e: VisibleUiNode,
    n: NormalizedUiNode,
    ns: Seq<NormalizedUiNode>,
    vp: Option<UiBounds>,
) -> bool {
    match digest_label(n, ns, vp) {
        Some(l) => entry_ok(e, n, l, vp),
        None => false,
    }
}

proof fn lemma_digest_indices_bounds(ns: Seq<NormalizedUiNode>, vp: Option<UiBounds>, i: int)
    requires
        0 <= i,
    ensures
        digest_indices(ns, vp, i).len() <= i,
        forall|k: int|
            0 <= k < digest_indices(ns, vp, i).len() ==> 0 <= #[trigger] digest_indices(ns, vp, i)[k]
                < i,
    decreases i,
{
    if i > 0 {
        lemma_digest_indices_bounds(ns, vp, i - 1);
    }
}

/// The visible-UI digest: one compact, state-annotated label per labeled
/// node, at most `UI_VISIBLE_NODE_LIMIT` of them, with counts.
pub fn visible_ui_for_tool_output(nodes: &[NormalizedUiNode]) -> (out: VisibleUiForOutput)
    ensures
        out.viewport == spec_viewport(nodes@),
        out.total_labeled_count == digest_indices(nodes@, spec_viewport(nodes@), nodes@.len() as int).len(),
        out.nodes@.len() == min_int(
            digest_indices(nodes@, spec_viewport(nodes@), nodes@.len() as int).len() as int,
            UI_VISIBLE_NODE_LIMIT as int,
        ),
        out.returned_count == out.nodes@.len(),
        out.label_char_limit == UI_VISIBLE_LABEL_CHAR_LIMIT,
        out.scrollable_node_count == count_scrollable(nodes@, nodes@.len() as int),
        out.clipped_node_count == count_clipped(out.nodes@, out.nodes@.len() as int),
        forall|k: int|
            0 <= k < out.nodes@.len() ==> 0 <= digest_indices(
                nodes@,
                spec_viewport(nodes@),
                nodes@.len() as int,
            )[k] < nodes@.len() && digest_entry_ok(
                #[trigger] out.nodes@[k],
                nodes@[digest_indices(nodes@, spec_viewport(nodes@), nodes@.len() as int)[k]],
                nodes@,
                spec_viewport(nodes@),
            ),
{
    let viewport = infer_viewport_bounds(nodes);
    let ghost vp = spec_viewport(nodes@);
    let mut visible: Vec<VisibleUiNode> = Vec::new();
    let mut total_labeled_count: usize = 0;
    let mut clipped_node_count: usize = 0;
    let mut scrollable_node_count: usize = 0;
    let mut i: usize = 0;
    while i < nodes.len()
        invariant
            i <= nodes@.len(),
            viewport == vp,
            vp == spec_viewport(nodes@),
            total_labeled_count == digest_indices(nodes@, vp, i as int).len(),
            visible@.len() == min_int(total_labeled_count as int, UI_VISIBLE_NODE_LIMIT as int),
            scrollable_node_count == count_scrollable(nodes@, i as int),
            clipped_node_count == count_clipped(visible@, visible@.len() as int),
            total_labeled_count <= i,
            scrollable_node_count <= i,
            clipped_node_count <= visible@.len(),
            forall|k: int|
                0 <= k < visible@.len() ==> digest_entry_ok(
                    #[trigger] visible@[k],
                    nodes@[digest_indices(nodes@, vp, i as int)[k]],
                    nodes@,
                    vp,
                ),
        decreases nodes.len() - i,
    {
        proof {
            lemma_digest_indices_bounds(nodes@, vp, i as int);
        }
        let node = &nodes[i];
        if node.scrollable {
            scrollable_node_count = scrollable_node_count + 1;
        }
        let ghost prev_idx = digest_indices(nodes@, vp, i as int);
        let ghost old_visible = visible@;
        let label = digest_label_exec(node, nodes, viewport);
        match label {
            None => {
                assert(digest_indices(nodes@, vp, i + 1) == prev_idx);
            },
            Some(label) => {
                let bounds = node.bounds.unwrap();
                assert(digest_label(nodes@[i as int], nodes@, vp) == Some(label@));
                assert(digest_indices(nodes@, vp, i + 1) == prev_idx.push(i as int));
                total_labeled_count = total_labeled_count + 1;
                if visible.len() < UI_VISIBLE_NODE_LIMIT {
                    let visibility = match viewport {
                        Some(v) => visibility_within_viewport(bounds, v),
                        None => ViewportVisibility::unclipped(),
                    };
                    proof {
                        if viewport is None {
                            assert(strs_view(visibility.clip_edges@) =~= Seq::<Seq<char>>::empty());
                        }
                    }
                    if visibility.clipped {
                        clipped_node_count = clipped_node_count + 1;
                    }
                    let entry = VisibleUiNode {
                        label: compact_visible_label_with_state(label.as_str(), node, &visibility),
                        bounds,
                        resource_id: clone_opt(&node.resource_id),
                        class_name: clone_opt(&node.class_name),
                        enabled: node.enabled,
                        interactive: node.clickable || node.focusable || node.long_clickable
                            || node.scrollable,
                        scrollable: node.scrollable,
                        clipped: visibility.clipped,
                        clip_edges: visibility.clip_edges,
                        visible_fraction_percent: visibility.visible_fraction_percent,
                    };
                    assert(entry_ok(entry, nodes@[i as int], label@, vp));
                    assert(digest_entry_ok(entry, nodes@[i as int], nodes@, vp));
                    visible.push(entry);
                    proof {
                        assert(visible@.drop_last() =~= old_visible);
                        assert(count_clipped(visible@, (visible@.len() - 1) as int) == count_clipped(
                            old_visible,
                            old_visible.len() as int,
                        )) by {
                            lemma_count_clipped_prefix(visible@, old_visible);
                        }
                        assert forall|k: int| 0 <= k < visible@.len() implies digest_entry_ok(
                            #[trigger] visible@[k],
                            nodes@[digest_indices(nodes@, vp, i + 1)[k]],
                            nodes@,
                            vp,
                        ) by {
                            if k < old_visible.len() {
                                assert(visible@[k] == old_visible[k]);
                                assert(digest_indices(nodes@, vp, i + 1)[k] == prev_idx[k]);
                            } else {
                                assert(digest_indices(nodes@, vp, i + 1)[k] == i as int);
                            }
                        }
                    }
                } else {
                    proof {
                        assert forall|k: int| 0 <= k < visible@.len() implies digest_entry_ok(
                            #[trigger] visible@[k],
                            nodes@[digest_indices(nodes@, vp, i + 1)[k]],
                            nodes@,
                            vp,
                        ) by {
                            assert(visible@[k] == old_visible[k]);
                            assert(digest_indices(nodes@, vp, i + 1)[k] == prev_idx[k]);
                        }
                    }
                }
            },
        }
        proof {
            assert(count_scrollable(nodes@, i + 1) == count_scrollable(nodes@, i as int) + if nodes@[i as int].scrollable {
                1nat
            } else {
                0nat
            });
        }
        i = i + 1;
    }
    proof {
        lemma_digest_indices_bounds(nodes@, vp, nodes@.len() as int);
    }
    let returned_count = visible.len();
    VisibleUiForOutput {
        nodes: visible,
        total_labeled_count,
        returned_count,
        label_char_limit: UI_VISIBLE_LABEL_CHAR_LIMIT,
        viewport,
        clipped_node_count,
        scrollable_node_count,
    }
}

proof fn lemma_count_clipped_prefix(es: Seq<VisibleUiNode>, pre: Seq<VisibleUiNode>)
    requires
        es.len() == pre.len() + 1,
        forall|k: int| 0 <= k < pre.len() ==> es[k] == pre[k],
    ensures
        count_clipped(es, pre.len() as int) == count_clipped(pre, pre.len() as int),
{
    lemma_count_clipped_agree(es, pre, pre.len() as int);
}

proof fn lemma_count_clipped_agree(a: Seq<VisibleUiNode>, b: Seq<VisibleUiNode>, k: int)
    requires
        0 <= k <= a.len(),
        k <= b.len(),
        forall|j: int| 0 <= j < k ==> a[j] == b[j],
    ensures
        count_clipped(a, k) == count_clipped(b, k),
    decreases k,
{
    if k > 0 {
        lemma_count_clipped_agree(a, b, k - 1);
    }
}


// ---------------------------------------------------------------------------
// The node list for tool output.
// ---------------------------------------------------------------------------

/// The node list of a hierarchy, with long text fields cut.
#[derive(Debug)]
pub struct UiNodesForOutput {
    pub nodes: Vec<NormalizedUiNode>,
    pub total_count: usize,
    pub returned_count: usize,
    pub compacted_text_fields: usize,
    pub text_char_limit: usize,
}

/// An optional text, cut as `compact_output_text` cuts it.
pub open spec fn compact_opt(o: Option<Seq<char>>) -> Option<Seq<char>> {
    match o {
        Some(v) => Some(spec_compact_output_text(v)),
        None => None,
    }
}

/// 1 when cutting changes the field, else 0.
pub open spec fn field_changed(o: Option<String>) -> nat {
    match o {
        Some(v) => if spec_compact_output_text(v@) != v@ {
            1nat
        } else {
            0nat
        },
        None => 0nat,
    }
}

/// How many of a node's text fields cutting changes.
pub open spec fn node_fields_changed(n: NormalizedUiNode) -> nat {
    field_changed(n.text) + field_changed(n.semantic_label) + field_changed(n.content_desc)
}

/// How many text fields of the first `k` nodes cutting changes.
pub open spec fn count_fields_changed(ns: Seq<NormalizedUiNode>, k: int) -> nat
    decreases k,
{
    if k <= 0 {
        0
    } else {
        count_fields_changed(ns, k - 1) + node_fields_changed(ns[k - 1])
    }
}

/// `r` is `n` with its text, semantic label and content description cut.
pub open spec fn compacted_node(r: NormalizedUiNode, n: NormalizedUiNode) -> bool {
    &&& opt_view(r.text) == compact_opt(opt_view(n.text))
    &&& opt_view(r.semantic_label) == compact_opt(opt_view(n.semantic_label))
    &&& opt_view(r.content_desc) == compact_opt(opt_view(n.content_desc))
    &&& r.class_name == n.class_name
    &&& r.package_name == n.package_name
    &&& r.resource_id == n.resource_id
    &&& r.clickable == n.clickable
    &&& r.focusable == n.focusable
    &&& r.enabled == n.enabled
    &&& r.selected == n.selected
    &&& r.checked == n.checked
    &&& r.focused == n.focused
    &&& r.scrollable == n.scrollable
    &&& r.long_clickable == n.long_clickable
    &&& r.bounds == n.bounds
    &&& r.center == n.center
}

/// A text of exactly the length that cutting gives, ending in the very
/// marker that cutting would append: cutting leaves it as it is though it is
/// over the limit.
pub open spec fn marker_fixed_point(v: Seq<char>) -> bool {
    v.len() == 275 && v.subrange(240, 275) == truncation_marker(275)
}

/// 1 when the field is longer than the output limit, else 0.
pub open spec fn field_over_limit(o: Option<String>) -> nat {
    match o {
        Some(v) => if v@.len() > UI_OUTPUT_TEXT_CHAR_LIMIT {
            1nat
        } else {
            0nat
        },
        None => 0nat,
    }
}

/// How many text fields of the first `k` nodes are longer than the limit.
pub open spec fn count_fields_over(ns: Seq<NormalizedUiNode>, k: int) -> nat
    decreases k,
{
    if k <= 0 {
        0
    } else {
        count_fields_over(ns, k - 1) + field_over_limit(ns[k - 1].text) + field_over_limit(
            ns[k - 1].semantic_label,
        ) + field_over_limit(ns[k - 1].content_desc)
    }
}

/// No text field of the node is a marker fixed point.
pub open spec fn no_fixed_point_field(n: NormalizedUiNode) -> bool {
    &&& (n.text matches Some(v) ==> !marker_fixed_point(v@))
    &&& (n.semantic_label matches Some(v) ==> !marker_fixed_point(v@))
    &&& (n.content_desc matches Some(v) ==> !marker_fixed_point(v@))
}

proof fn lemma_decimal_len_bound(n: nat)
    requires
        n >= 100,
    ensures
        n < 1000 ==> decimal(n).len() == 3,
        decimal(n).len() <= n / 100 + 3,
    decreases n,
{
    assert(decimal(n) == decimal(n / 10).push(digit_char(n % 10)));
    if n < 1000 {
        assert(10 <= n / 10 < 100);
        assert(decimal(n / 10) == decimal(n / 100).push(digit_char((n / 10) % 10)));
        assert(n / 10 / 10 == n / 100);
        assert(1 <= n / 100 < 10);
        assert(decimal(n / 100).len() == 1);
    } else {
        lemma_decimal_len_bound(n / 10);
        assert(n / 10 / 100 + 1 <= n / 100) by (nonlinear_arith)
            requires
                n >= 1000,
        ;
    }
}

/// Cutting changes a text exactly when it is longer than the output limit,
/// except for a marker fixed point.
proof fn lemma_cut_changes_iff_over(v: Seq<char>)
    requires
        !marker_fixed_point(v),
    ensures
        (spec_compact_output_text(v) != v) <==> v.len() > UI_OUTPUT_TEXT_CHAR_LIMIT,
{
    if v.len() > UI_OUTPUT_TEXT_CHAR_LIMIT {
        let n = v.len();
        let cut = spec_compact_output_text(v);
        reveal_strlit("... [truncated; original_chars=");
        reveal_strlit("]");
        lemma_decimal_len_bound(n);
        assert(cut.len() == 240 + 31 + decimal(n).len() + 1);
        if cut == v {
            if n < 1000 {
                assert(n == 275);
                assert(v.subrange(240, 275) =~= cut.subrange(240, 275));
                assert(cut.subrange(240, 275) =~= truncation_marker(275));
            } else {
                assert(n / 100 + 3 + 272 < n) by (nonlinear_arith)
                    requires
                        n >= 1000,
                ;
            }
        }
    }
}

/// The number of text fields that tool output cuts is the number of text
/// fields longer than the output limit, for nodes with no marker fixed point
/// among their fields (on such a field, cutting changes nothing though it is
/// over the limit).
pub proof fn lemma_cut_count_is_fields_over_limit(ns: Seq<NormalizedUiNode>, k: int)
    requires
        0 <= k <= ns.len(),
        forall|m: int| 0 <= m < k ==> no_fixed_point_field(#[trigger] ns[m]),
    ensures
        count_fields_changed(ns, k) == count_fields_over(ns, k),
    decreases k,
{
    if k > 0 {
        lemma_cut_count_is_fields_over_limit(ns, k - 1);
        let n = ns[k - 1];
        assert(no_fixed_point_field(n));
        match n.text {
            Some(v) => lemma_cut_changes_iff_over(v@),
            None => {},
        }
        match n.semantic_label {
            Some(v) => lemma_cut_changes_iff_over(v@),
            None => {},
        }
        match n.content_desc {
            Some(v) => lemma_cut_changes_iff_over(v@),
            None => {},
        }
    }
}

fn compact_field(o: &Option<String>) -> (r: (Option<String>, bool))
    ensures
        opt_view(r.0) == compact_opt(opt_view(*o)),
        r.1 == (field_changed(*o) == 1),
{
    match o {
        Some(v) => {
            let c = compact_output_text(Some(v.clone()));
            let changed = match &c {
                Some(cv) => !str_eq(cv.as_str(), v.as_str()),
                None => false,
            };
            (c, changed)
        },
        None => (None, false),
    }
}

/// The node list with each text field cut to `UI_OUTPUT_TEXT_CHAR_LIMIT`
/// characters, and the number of fields that were cut.
pub fn ui_nodes_for_tool_output(nodes: &[NormalizedUiNode]) -> (out: UiNodesForOutput)
    requires
        nodes@.len() * 3 <= usize::MAX,
    ensures
        out.total_count == nodes@.len(),
        out.returned_count == nodes@.len(),
        out.nodes@.len() == nodes@.len(),
        out.text_char_limit == UI_OUTPUT_TEXT_CHAR_LIMIT,
        out.compacted_text_fields == count_fields_changed(nodes@, nodes@.len() as int),
        forall|k: int| 0 <= k < nodes@.len() ==> compacted_node(#[trigger] out.nodes@[k], nodes@[k]),
{
    let mut compacted: Vec<NormalizedUiNode> = Vec::new();
    let mut count: usize = 0;
    let mut i: usize = 0;
    while i < nodes.len()
        invariant
            i <= nodes@.len(),
            nodes@.len() * 3 <= usize::MAX,
            compacted@.len() == i,
            count == count_fields_changed(nodes@, i as int),
            count <= 3 * i,
            forall|k: int| 0 <= k < i ==> compacted_node(#[trigger] compacted@[k], nodes@[k]),
        decreases nodes.len() - i,
    {
        let node = &nodes[i];
        let (text, c1) = compact_field(&node.text);
        let (semantic_label, c2) = compact_field(&node.semantic_label);
        let (content_desc, c3) = compact_field(&node.content_desc);
        if c1 {
            count = count + 1;
        }
        if c2 {
            count = count + 1;
        }
        if c3 {
            count = count + 1;
        }
        let r = NormalizedUiNode {
            class_name: clone_opt(&node.class_name),
            package_name: clone_opt(&node.package_name),
            text,
            semantic_label,
            content_desc,
            resource_id: clone_opt(&node.resource_id),
            clickable: node.clickable,
            focusable: node.focusable,
            enabled: node.enabled,
            selected: node.selected,
            checked: node.checked,
            focused: node.focused,
            scrollable: node.scrollable,
            long_clickable: node.long_clickable,
            bounds: node.bounds,
            center: node.center,
        };
        compacted.push(r);
        i = i + 1;
    }
    let n = compacted.len();
    UiNodesForOutput {
        nodes: compacted,
        total_count: nodes.len(),
        returned_count: n,
        compacted_text_fields: count,
        text_char_limit: UI_OUTPUT_TEXT_CHAR_LIMIT,
    }
}

} // verus!
