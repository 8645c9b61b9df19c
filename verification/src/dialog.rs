//! Recognising system dialogs (an app not responding, a permission prompt,
//! a crash) from the labels on screen.
use vstd::prelude::*;
use crate::error::{owned};
use crate::text::{append_str, chars_eq, chars_of, contains, contains_chars, lower, lower_chars, lower_str, slice_range, starts_with, starts_with_str, str_eq, string_of, trim, trimmed};
use crate::ui::{NormalizedUiNode, UiSelector, clone_opt, empty_selector, matching, matching_nodes, opt_view, selector_matches, spec_selector_matches, strs_view};

verus! {

/// The trimmed, non-blank labels of a node: text, semantic label, content
/// description.
pub open spec fn node_label_list(n: NormalizedUiNode) -> Seq<Seq<char>> {
    label_of(n.text) + label_of(n.semantic_label) + label_of(n.content_desc)
}

/// The trimmed label, when it is not blank.
pub open spec fn label_of(o: Option<String>) -> Seq<Seq<char>> {
    match o {
        Some(t) => if trim(t@).len() > 0 {
            seq![trim(t@)]
        } else {
            seq![]
        },
        None => seq![],
    }
}

/// Every label is kept unless one equal to it up to ASCII case came before.
pub open spec fn add_label(acc: Seq<Seq<char>>, l: Seq<char>) -> Seq<Seq<char>> {
    if exists|k: int| 0 <= k < acc.len() && lower(#[trigger] acc[k]) == lower(l) {
        acc
    } else {
        acc.push(l)
    }
}

/// `add_label` over a list of labels, in order.
pub open spec fn add_labels(acc: Seq<Seq<char>>, ls: Seq<Seq<char>>) -> Seq<Seq<char>>
    decreases ls.len(),
{
    if ls.len() == 0 {
        acc
    } else {
        add_labels(add_label(acc, ls[0]), ls.drop_first())
    }
}

/// The distinct labels of the first `k` nodes, up to ASCII case, in the
/// order first seen.
pub open spec fn spec_labels(ns: Seq<NormalizedUiNode>, k: int) -> Seq<Seq<char>>
    decreases k,
{
    if k <= 0 {
        Seq::<Seq<char>>::empty()
    } else {
        add_labels(spec_labels(ns, k - 1), node_label_list(ns[k - 1]))
    }
}

/// No two labels are equal up to ASCII case.
pub open spec fn distinct_up_to_case(ls: Seq<Seq<char>>) -> bool {
    forall|i: int, j: int| 0 <= i < j < ls.len() ==> lower(#[trigger] ls[i]) != lower(#[trigger] ls[j])
}

/// `ls` has a label equal to `v` up to ASCII case.
pub open spec fn covers(ls: Seq<Seq<char>>, v: Seq<char>) -> bool {
    exists|k: int| 0 <= k < ls.len() && lower(#[trigger] ls[k]) == lower(v)
}

proof fn lemma_add_label(acc: Seq<Seq<char>>, l: Seq<char>)
    requires
        distinct_up_to_case(acc),
    ensures
        distinct_up_to_case(add_label(acc, l)),
        covers(add_label(acc, l), l),
        forall|v: Seq<char>| covers(acc, v) ==> #[trigger] covers(add_label(acc, l), v),
{
    let out = add_label(acc, l);
    if !(exists|k: int| 0 <= k < acc.len() && lower(#[trigger] acc[k]) == lower(l)) {
        assert(out == acc.push(l));
        assert forall|i: int, j: int| 0 <= i < j < out.len() implies lower(#[trigger] out[i]) != lower(
            #[trigger] out[j],
        ) by {
            assert(out[i] == acc[i]);
            if j < acc.len() {
                assert(out[j] == acc[j]);
            }
        }
        assert(out[out.len() - 1] == l);
        assert forall|v: Seq<char>| covers(acc, v) implies #[trigger] covers(out, v) by {
            let k = choose|k: int| 0 <= k < acc.len() && lower(#[trigger] acc[k]) == lower(v);
            assert(out[k] == acc[k]);
        }
    }
}

proof fn lemma_add_labels(acc: Seq<Seq<char>>, ls: Seq<Seq<char>>)
    requires
        distinct_up_to_case(acc),
    ensures
        distinct_up_to_case(add_labels(acc, ls)),
        forall|i: int| 0 <= i < ls.len() ==> covers(add_labels(acc, ls), #[trigger] ls[i]),
        forall|v: Seq<char>| covers(acc, v) ==> #[trigger] covers(add_labels(acc, ls), v),
    decreases ls.len(),
{
    if ls.len() > 0 {
        let next = add_label(acc, ls[0]);
        lemma_add_label(acc, ls[0]);
        lemma_add_labels(next, ls.drop_first());
        assert forall|i: int| 0 <= i < ls.len() implies covers(add_labels(acc, ls), #[trigger] ls[i]) by {
            if i > 0 {
                assert(ls.drop_first()[i - 1] == ls[i]);
            }
        }
    }
}

/// The labels of the first `k` nodes name every trimmed, non-blank text,
/// semantic label and content description of those nodes, up to ASCII case,
/// and no two of them are equal up to ASCII case.
pub proof fn lemma_labels_distinct_and_complete(ns: Seq<NormalizedUiNode>, k: int)
    ensures
        distinct_up_to_case(spec_labels(ns, k)),
        forall|m: int, i: int|
            0 <= m < k && 0 <= i < node_label_list(ns[m]).len() ==> covers(
                spec_labels(ns, k),
                #[trigger] node_label_list(ns[m])[i],
            ),
    decreases k,
{
    if k > 0 {
        lemma_labels_distinct_and_complete(ns, k - 1);
        lemma_add_labels(spec_labels(ns, k - 1), node_label_list(ns[k - 1]));
    }
}

fn push_label(labels: &mut Vec<String>, value: &Option<String>)
    ensures
        strs_view(final(labels)@) == match value {
            Some(t) => if trim(t@).len() > 0 {
                add_label(strs_view(old(labels)@), trim(t@))
            } else {
                strs_view(old(labels)@)
            },
            None => strs_view(old(labels)@),
        },
{
    let v = match value {
        Some(t) => t,
        None => {
            return;
        },
    };
    let t = trimmed(v.as_str());
    if t.len() == 0 {
        return;
    }
    let ghost acc = strs_view(labels@);
    let lt = lower_chars(t.as_slice());
    let mut k: usize = 0;
    while k < labels.len()
        invariant
            k <= labels@.len(),
            acc == strs_view(labels@),
            labels@ == old(labels)@,
            *value == Some(*v),
            t@ == trim(v@),
            t@.len() > 0,
            lt@ == lower(t@),
            forall|j: int| 0 <= j < k ==> lower(#[trigger] acc[j]) != lower(t@),
        decreases labels.len() - k,
    {
        let l = lower_str(labels[k].as_str());
        assert(acc[k as int] == labels@[k as int]@);
        if chars_eq(l.as_slice(), lt.as_slice()) {
            assert(lower(acc[k as int]) == lower(t@));
            return;
        }
        k = k + 1;
    }
    labels.push(string_of(t.as_slice()));
    assert(strs_view(labels@) =~= acc.push(t@));
}

proof fn lemma_add_labels_push(acc: Seq<Seq<char>>, ls: Seq<Seq<char>>, l: Seq<char>)
    ensures
        add_labels(acc, ls.push(l)) == add_label(add_labels(acc, ls), l),
    decreases ls.len(),
{
    if ls.len() == 0 {
        assert(ls.push(l) =~= seq![l]);
        assert(ls.push(l)[0] == l);
        assert(ls.push(l).drop_first() =~= Seq::<Seq<char>>::empty());
        assert(add_labels(add_label(acc, l), Seq::<Seq<char>>::empty()) == add_label(acc, l));
    } else {
        assert(ls.push(l)[0] == ls[0]);
        assert(ls.push(l).drop_first() =~= ls.drop_first().push(l));
        lemma_add_labels_push(add_label(acc, ls[0]), ls.drop_first(), l);
    }
}

/// The labels on screen, each once up to ASCII case, in the order seen.
pub fn labels_from_nodes(nodes: &[NormalizedUiNode]) -> (r: Vec<String>)
    ensures
        strs_view(r@) == spec_labels(nodes@, nodes@.len() as int),
{
    let mut labels: Vec<String> = Vec::new();
    let mut i: usize = 0;
    while i < nodes.len()
        invariant
            i <= nodes@.len(),
            strs_view(labels@) == spec_labels(nodes@, i as int),
        decreases nodes.len() - i,
    {
        let n = &nodes[i];
        let ghost acc = strs_view(labels@);
        let ghost ta = label_of(n.text);
        let ghost tb = label_of(n.semantic_label);
        let ghost tc = label_of(n.content_desc);
        push_label(&mut labels, &n.text);
        proof {
            if ta.len() > 0 {
                lemma_add_labels_push(acc, Seq::<Seq<char>>::empty(), ta[0]);
                assert(Seq::<Seq<char>>::empty().push(ta[0]) =~= ta);
            }
            assert(strs_view(labels@) == add_labels(acc, ta));
        }
        let ghost acc_a = strs_view(labels@);
        push_label(&mut labels, &n.semantic_label);
        proof {
            if tb.len() > 0 {
                lemma_add_labels_push(acc, ta, tb[0]);
                assert(ta.push(tb[0]) =~= ta + tb);
            } else {
                assert(ta + tb =~= ta);
            }
            assert(strs_view(labels@) == add_labels(acc, ta + tb));
        }
        push_label(&mut labels, &n.content_desc);
        proof {
            if tc.len() > 0 {
                lemma_add_labels_push(acc, ta + tb, tc[0]);
                assert((ta + tb).push(tc[0]) =~= ta + tb + tc);
            } else {
                assert(ta + tb + tc =~= ta + tb);
            }
            assert(node_label_list(nodes@[i as int]) == ta + tb + tc);
        }
        i = i + 1;
    }
    labels
}

/// A label equals `wanted` or contains it, ignoring ASCII case.
pub open spec fn spec_has_label(labels: Seq<Seq<char>>, wanted: Seq<char>) -> bool {
    exists|k: int|
        0 <= k < labels.len() && (lower(#[trigger] labels[k]) == lower(wanted) || contains(
            lower(labels[k]),
            lower(wanted),
        ))
}

pub fn has_label(labels: &[String], wanted: &str) -> (r: bool)
    ensures
        r == spec_has_label(strs_view(labels@), wanted@),
{
    let ghost lv = strs_view(labels@);
    let w = lower_str(wanted);
    let mut k: usize = 0;
    while k < labels.len()
        invariant
            k <= labels@.len(),
            lv == strs_view(labels@),
            w@ == lower(wanted@),
            forall|j: int|
                0 <= j < k ==> !(lower(#[trigger] lv[j]) == lower(wanted@) || contains(
                    lower(lv[j]),
                    lower(wanted@),
                )),
        decreases labels.len() - k,
    {
        let c = lower_str(labels[k].as_str());
        assert(lv[k as int] == labels@[k as int]@);
        if chars_eq(c.as_slice(), w.as_slice()) || contains_chars(c.as_slice(), w.as_slice()) {
            return true;
        }
        k = k + 1;
    }
    false
}

/// What kind of system dialog is on screen, and the button to press.
#[derive(Debug, Clone, Copy, PartialEq, Eq)]
pub struct SystemDialogPlan {
    pub kind: &'static str,
    pub action_label: Option<&'static str>,
}

/// The permission buttons, safest first.
pub open spec fn permission_actions() -> Seq<Seq<char>> {
    seq!["While using the app"@, "Allow only while using the app"@, "Only this time"@, "Allow"@]
}

/// The first permission button on screen.
pub open spec fn permission_action(labels: Seq<Seq<char>>) -> Option<Seq<char>> {
    if spec_has_label(labels, permission_actions()[0]) {
        Some(permission_actions()[0])
    } else if spec_has_label(labels, permission_actions()[1]) {
        Some(permission_actions()[1])
    } else if spec_has_label(labels, permission_actions()[2]) {
        Some(permission_actions()[2])
    } else if spec_has_label(labels, permission_actions()[3]) {
        Some(permission_actions()[3])
    } else {
        None
    }
}

/// The dialog the labels show, as (kind, button): a dialog of an app that
/// is not responding is answered with Wait; a permission prompt (a
/// permission button beside a refusal or permission wording) with the
/// safest permission button; a crash dialog with nothing.
pub open spec fn spec_classify_dialog(labels: Seq<Seq<char>>) -> Option<(Seq<char>, Option<Seq<char>>)> {
    if spec_has_label(labels, "isn't responding"@) {
        Some(("anr"@, Some("Wait"@)))
    } else if permission_action(labels) is Some && (spec_has_label(labels, "don't allow"@)
        || spec_has_label(labels, "deny"@) || spec_has_label(labels, "permission"@)
        || spec_has_label(labels, "while using the app"@)) {
        Some(("permission"@, permission_action(labels)))
    } else if spec_has_label(labels, "keeps stopping"@) || spec_has_label(labels, "Close app"@) {
        Some(("crash"@, None))
    } else {
        None
    }
}

pub fn classify_system_dialog(labels: &[String]) -> (r: Option<SystemDialogPlan>)
    ensures
        match spec_classify_dialog(strs_view(labels@)) {
            Some((kind, action)) => r matches Some(p) && p.kind@ == kind && match action {
                Some(a) => p.action_label matches Some(l) && l@ == a,
                None => p.action_label is None,
            },
            None => r is None,
        },
{
    if has_label(labels, "isn't responding") {
        return Some(SystemDialogPlan { kind: "anr", action_label: Some("Wait") });
    }
    let action: Option<&'static str> = if has_label(labels, "While using the app") {
        Some("While using the app")
    } else if has_label(labels, "Allow only while using the app") {
        Some("Allow only while using the app")
    } else if has_label(labels, "Only this time") {
        Some("Only this time")
    } else if has_label(labels, "Allow") {
        Some("Allow")
    } else {
        None
    };
    assert(match permission_action(strs_view(labels@)) {
        Some(a) => action matches Some(l) && l@ == a,
        None => action is None,
    });
    if action.is_some() && (has_label(labels, "don't allow") || has_label(labels, "deny")
        || has_label(labels, "permission") || has_label(labels, "while using the app")) {
        return Some(SystemDialogPlan { kind: "permission", action_label: action });
    }
    if has_label(labels, "keeps stopping") || has_label(labels, "Close app") {
        return Some(SystemDialogPlan { kind: "crash", action_label: None });
    }
    None
}

/// What was found and done about a system dialog.
#[derive(Debug, Clone, PartialEq, Eq)]
pub struct SystemDialogReport {
    pub detected: bool,
    pub kind: String,
    pub labels: Vec<String>,
    pub action_taken: Option<String>,
    pub action_label: Option<String>,
    pub action_resource_id: Option<String>,
    pub artifact_path: String,
}

/// The button that was (or is to be) pressed: the report's action label,
/// else what follows `tap:` in the action taken.
pub open spec fn report_action_label(report: SystemDialogReport) -> Option<Seq<char>> {
    match report.action_label {
        Some(l) => Some(l@),
        None => match report.action_taken {
            Some(t) => if starts_with(t@, "tap:"@) {
                Some(t@.skip(4))
            } else {
                None
            },
            None => None,
        },
    }
}

/// The button node a dialog report stands for.
pub open spec fn synthetic_button(label: Seq<char>, resource_id: Option<String>, n: NormalizedUiNode) -> bool {
    &&& opt_view(n.class_name) == Some("android.widget.Button"@)
    &&& opt_view(n.package_name) == Some("android"@)
    &&& opt_view(n.text) == Some(label)
    &&& opt_view(n.semantic_label) == Some(label)
    &&& opt_view(n.content_desc) == Some(label)
    &&& n.resource_id == resource_id
    &&& n.clickable && n.focusable && n.enabled
    &&& !n.selected && !n.checked && !n.focused && !n.scrollable && !n.long_clickable
    &&& n.bounds is None && n.center is None
}

/// Whether `selector` designates the dialog button the report handled.
pub fn system_dialog_action_matches_selector(selector: &UiSelector, report: &SystemDialogReport) -> (r:
    bool)
    ensures
        match report_action_label(*report) {
            Some(l) => exists|n: NormalizedUiNode|
                synthetic_button(l, report.action_resource_id, n) && r == spec_selector_matches(
                    n,
                    *selector,
                ),
            None => !r,
        },
{
    let label: Vec<char> = match &report.action_label {
        Some(l) => chars_of(l.as_str()),
        None => match &report.action_taken {
            Some(t) => {
                let tv = chars_of(t.as_str());
                proof {
                    reveal_strlit("tap:");
                }
                if starts_with_str(tv.as_slice(), "tap:") {
                    let rest = slice_range(tv.as_slice(), 4, tv.len());
                    assert(rest@ =~= t@.skip(4));
                    rest
                } else {
                    return false;
                }
            },
            None => {
                return false;
            },
        },
    };
    let node = NormalizedUiNode {
        class_name: Some(owned("android.widget.Button")),
        package_name: Some(owned("android")),
        text: Some(string_of(label.as_slice())),
        semantic_label: Some(string_of(label.as_slice())),
        content_desc: Some(string_of(label.as_slice())),
        resource_id: clone_opt(&report.action_resource_id),
        clickable: true,
        focusable: true,
        enabled: true,
        selected: false,
        checked: false,
        focused: false,
        scrollable: false,
        long_clickable: false,
        bounds: None,
        center: None,
    };
    let r = selector_matches(&node, selector);
    assert(synthetic_button(label@, report.action_resource_id, node));
    r
}


/// The report of a dialog that was dismissed by tapping `label`.
pub fn handled_dialog_report(
    kind: &str,
    labels: Vec<String>,
    label: &str,
    action_resource_id: Option<String>,
    artifact_path: String,
) -> (r: SystemDialogReport)
    ensures
        r.detected,
        r.kind@ == kind@,
        r.labels == labels,
        r.action_taken matches Some(a) && a@ == "tap:"@ + label@,
        r.action_label matches Some(l) && l@ == label@,
        r.action_resource_id == action_resource_id,
        r.artifact_path == artifact_path,
{
    let mut taken = chars_of("tap:");
    append_str(&mut taken, label);
    SystemDialogReport {
        detected: true,
        kind: owned(kind),
        labels,
        action_taken: Some(string_of(taken.as_slice())),
        action_label: Some(owned(label)),
        action_resource_id,
        artifact_path,
    }
}

/// The report of a dialog that blocks the screen: nothing was tapped.
pub fn blocked_dialog_report(kind: &str, labels: Vec<String>, artifact_path: String) -> (r: SystemDialogReport)
    ensures
        r.detected,
        r.kind@ == kind@,
        r.labels == labels,
        r.action_taken is None,
        r.action_label is None,
        r.action_resource_id is None,
        r.artifact_path == artifact_path,
{
    SystemDialogReport {
        detected: true,
        kind: owned(kind),
        labels,
        action_taken: None,
        action_label: None,
        action_resource_id: None,
        artifact_path,
    }
}

/// How long to let a dismissed dialog settle: longer for an ANR dialog.
pub fn dialog_settle_ms(kind: &str) -> (r: u64)
    ensures
        r == (if kind@ == "anr"@ {
            2000u64
        } else {
            750u64
        }),
{
    if str_eq(kind, "anr") {
        2000
    } else {
        750
    }
}

/// The resource id of the first node whose text is the button's label.
pub fn dialog_button_resource_id(nodes: &[NormalizedUiNode], label: String) -> (r: Option<String>)
    ensures
        ({
            let m = matching(nodes@, UiSelector { text: Some(label), ..empty_selector() });
            if m.len() > 0 {
                r == m[0].resource_id
            } else {
                r is None
            }
        }),
{
    let selector = UiSelector { text: Some(label), ..UiSelector::default() };
    let matches = matching_nodes(nodes, &selector).matches;
    if matches.len() > 0 {
        clone_opt(&matches[0].resource_id)
    } else {
        None
    }
}

} // verus!
