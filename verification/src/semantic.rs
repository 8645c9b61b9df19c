//! Semantic actions of the Solar Lab app, and recognising in a UI dump that
//! the app acknowledged one.
use vstd::prelude::*;
use crate::error::{ErrorKind, McpError, owned};
use crate::text::{append_chars, append_str, ascii_lower, ascii_lower_char, chars_of, contains, contains_str, count_matches, count_matches_chars, decimal, find_first_occurrence, first_occurrence, is_ascii_alnum, is_ascii_alnum_char, join, join_chars, push_decimal, slice_range, str_eq, str_eq_chars, string_of, string_views, trim, trim_end_in, trim_in, trim_in_chars, trim_start_in, trim_string, trimmed, views};
use crate::ui::{clone_opt, opt_view, strs_view};
use crate::window_views::{lemma_sorted_names_of, sort_entry_names, sorted_names};

verus! {

/// What `str::to_lowercase` returns for a string (full Unicode lower case).
pub uninterp spec fn unicode_lower(s: Seq<char>) -> Seq<char>;

/// `str::to_lowercase`.
///
/// The result is named by `unicode_lower`; the Unicode case tables are not
/// written out here.
#[verifier::external_body]
pub(crate) fn to_lowercase(s: &str) -> (r: String)
    ensures
        r@ == unicode_lower(s@),
{
    s.to_lowercase()
}

/// The marker of a focus acknowledgement in the (lower-cased) hierarchy.
pub const SOLARLAB_FOCUS_ACK_MARKER: &'static str = "solarlab semantic focus acknowledged";

/// A semantic action of the Solar Lab app.
#[derive(Debug, Clone)]
pub enum SolarLabSemanticCommand {
    FocusBody { body_query: String },
    ResetCamera,
    OpenImmersive,
    ReturnToSandbox,
}

impl SolarLabSemanticCommand {
    /// The wire name of the action.
    pub fn action_name(&self) -> (r: &'static str)
        ensures
            r@ == (match self {
                SolarLabSemanticCommand::FocusBody { .. } => "focus_body"@,
                SolarLabSemanticCommand::ResetCamera => "reset_camera"@,
                SolarLabSemanticCommand::OpenImmersive => "open_immersive"@,
                SolarLabSemanticCommand::ReturnToSandbox => "return_to_sandbox"@,
            }),
    {
        match self {
            SolarLabSemanticCommand::FocusBody { .. } => "focus_body",
            SolarLabSemanticCommand::ResetCamera => "reset_camera",
            SolarLabSemanticCommand::OpenImmersive => "open_immersive",
            SolarLabSemanticCommand::ReturnToSandbox => "return_to_sandbox",
        }
    }

    /// The body a focus action looks for.
    pub fn body_query(&self) -> (r: Option<&str>)
        ensures
            match self {
                SolarLabSemanticCommand::FocusBody { body_query } => r matches Some(q) && q@
                    == body_query@,
                _ => r is None,
            },
    {
        match self {
            SolarLabSemanticCommand::FocusBody { body_query } => Some(body_query.as_str()),
            _ => None,
        }
    }
}

/// The command an action name stands for, compared trimmed and in lower
/// case; a focus action needs a body query.
pub fn validate_solarlab_semantic_action(action: &str, body_query: Option<String>) -> (r: Result<
    SolarLabSemanticCommand,
    McpError,
>)
    ensures
        ({
            let k = unicode_lower(trim(action@));
            if k == "focus_body"@ {
                match body_query {
                    Some(q) => r matches Ok(SolarLabSemanticCommand::FocusBody { body_query: b })
                        && b@ == q@,
                    None => r matches Err(e) && e.kind == ErrorKind::InternalError && e.message@
                        == "solarlab.semantic_action action 'focus_body' requires a non-empty body_query"@,
                }
            } else if k == "reset_camera"@ {
                r matches Ok(SolarLabSemanticCommand::ResetCamera)
            } else if k == "open_immersive"@ {
                r matches Ok(SolarLabSemanticCommand::OpenImmersive)
            } else if k == "return_to_sandbox"@ {
                r matches Ok(SolarLabSemanticCommand::ReturnToSandbox)
            } else {
                r matches Err(e) && e.kind == ErrorKind::InternalError && e.message@
                    == "Unsupported Solar Lab semantic action '"@ + k
                    + "'. Expected one of focus_body, reset_camera, open_immersive, return_to_sandbox."@
            }
        }),
{
    let t = trim_string(action);
    let k = to_lowercase(t.as_str());
    if str_eq(k.as_str(), "focus_body") {
        match body_query {
            Some(q) => Ok(SolarLabSemanticCommand::FocusBody { body_query: q }),
            None => Err(
                McpError::internal_error(
                    owned(
                        "solarlab.semantic_action action 'focus_body' requires a non-empty body_query",
                    ),
                ),
            ),
        }
    } else if str_eq(k.as_str(), "reset_camera") {
        Ok(SolarLabSemanticCommand::ResetCamera)
    } else if str_eq(k.as_str(), "open_immersive") {
        Ok(SolarLabSemanticCommand::OpenImmersive)
    } else if str_eq(k.as_str(), "return_to_sandbox") {
        Ok(SolarLabSemanticCommand::ReturnToSandbox)
    } else {
        let mut m = chars_of("Unsupported Solar Lab semantic action '");
        append_str(&mut m, k.as_str());
        append_str(
            &mut m,
            "'. Expected one of focus_body, reset_camera, open_immersive, return_to_sandbox.",
        );
        Err(McpError::internal_error(string_of(m.as_slice())))
    }
}

/// Adds a named action to the candidates: trimmed, unless blank or the
/// generic `semantic_action`.
pub fn collect_solarlab_semantic_action_candidate(candidates: &mut Vec<String>, candidate: Option<&str>)
    ensures
        strs_view(final(candidates)@) == match candidate {
            Some(c) => if trim(c@).len() > 0 && trim(c@) != "semantic_action"@ {
                strs_view(old(candidates)@).push(trim(c@))
            } else {
                strs_view(old(candidates)@)
            },
            None => strs_view(old(candidates)@),
        },
{
    match candidate {
        Some(c) => {
            let t = trimmed(c);
            if t.len() > 0 && !str_eq_chars("semantic_action", t.as_slice()) {
                let ghost before = strs_view(candidates@);
                candidates.push(string_of(t.as_slice()));
                assert(strs_view(candidates@) =~= before.push(t@));
            }
        },
        None => {},
    }
}

/// What an acknowledgement of an action looks like, for tool output.
#[derive(Debug, Clone)]
pub struct SolarLabSemanticAckMatcher {
    pub description: String,
}

pub open spec fn spec_matcher_description(action: SolarLabSemanticCommand) -> Seq<char> {
    match action {
        SolarLabSemanticCommand::FocusBody { body_query } => body_query@,
        SolarLabSemanticCommand::OpenImmersive => "Back to sandbox or sparse immersive hierarchy"@,
        SolarLabSemanticCommand::ReturnToSandbox => "Search, Immersive, No body selected, or Add object"@,
        SolarLabSemanticCommand::ResetCamera => "none"@,
    }
}

pub fn matcher_for_action(action: &SolarLabSemanticCommand) -> (r: SolarLabSemanticAckMatcher)
    ensures
        r.description@ == spec_matcher_description(*action),
{
    match action {
        SolarLabSemanticCommand::FocusBody { body_query } => SolarLabSemanticAckMatcher {
            description: body_query.clone(),
        },
        SolarLabSemanticCommand::OpenImmersive => SolarLabSemanticAckMatcher {
            description: owned("Back to sandbox or sparse immersive hierarchy"),
        },
        SolarLabSemanticCommand::ReturnToSandbox => SolarLabSemanticAckMatcher {
            description: owned("Search, Immersive, No body selected, or Add object"),
        },
        SolarLabSemanticCommand::ResetCamera => SolarLabSemanticAckMatcher {
            description: owned("none"),
        },
    }
}

/// The token before trimming dashes: ASCII letters and digits in lower
/// case, each run of other characters after some output read as one `-`.
pub open spec fn raw_ack_token(s: Seq<char>) -> Seq<char>
    decreases s.len(),
{
    if s.len() == 0 {
        s
    } else {
        let r = raw_ack_token(s.drop_last());
        let c = s.last();
        if is_ascii_alnum(c) {
            r.push(ascii_lower(c))
        } else if r.len() > 0 && r.last() != '-' {
            r.push('-')
        } else {
            r
        }
    }
}

/// A token of an acknowledgement as the app writes it.
pub open spec fn spec_ack_token(s: Seq<char>) -> Seq<char> {
    trim_in(raw_ack_token(s), seq!['-'])
}

pub fn normalize_solarlab_semantic_ack_token(value: &str) -> (r: String)
    ensures
        r@ == spec_ack_token(value@),
{
    let v = chars_of(value);
    let mut out: Vec<char> = Vec::new();
    let mut i: usize = 0;
    while i < v.len()
        invariant
            i <= v@.len(),
            out@ == raw_ack_token(v@.subrange(0, i as int)),
        decreases v.len() - i,
    {
        let ghost pre = v@.subrange(0, i as int);
        assert(v@.subrange(0, i + 1).drop_last() =~= pre);
        let c = v[i];
        if is_ascii_alnum_char(c) {
            out.push(ascii_lower_char(c));
        } else if out.len() > 0 && out[out.len() - 1] != '-' {
            out.push('-');
        }
        i = i + 1;
    }
    assert(v@.subrange(0, v@.len() as int) =~= v@);
    let dash: Vec<char> = vec!['-'];
    assert(dash@ =~= seq!['-']);
    let t = trim_in_chars(out.as_slice(), dash.as_slice());
    string_of(t.as_slice())
}

/// The longest prefix of ASCII letters, digits and dashes.
pub open spec fn token_prefix(s: Seq<char>) -> Seq<char>
    decreases s.len(),
{
    if s.len() > 0 && (is_ascii_alnum(s[0]) || s[0] == '-') {
        seq![s[0]] + token_prefix(s.drop_first())
    } else {
        Seq::<char>::empty()
    }
}

/// The value of `field=` in the acknowledgement marked in the hierarchy:
/// after the marker, after the first `field=`, the letters, digits and
/// dashes that follow; none when any of it is missing or empty.
pub open spec fn spec_ack_field(hierarchy_lower: Seq<char>, field: Seq<char>) -> Option<Seq<char>> {
    match first_occurrence(hierarchy_lower, SOLARLAB_FOCUS_ACK_MARKER@) {
        Some(m) => {
            let tail = hierarchy_lower.skip(m);
            match first_occurrence(tail, field + "="@) {
                Some(f) => {
                    let v = token_prefix(tail.skip(f + field.len() + 1));
                    if v.len() > 0 {
                        Some(v)
                    } else {
                        None
                    }
                },
                None => None,
            }
        },
        None => None,
    }
}

fn token_prefix_chars(s: &[char], start: usize) -> (r: Vec<char>)
    requires
        start <= s@.len(),
    ensures
        r@ == token_prefix(s@.skip(start as int)),
{
    let mut i: usize = start;
    while i < s.len() && (is_ascii_alnum_char(s[i]) || s[i] == '-')
        invariant
            start <= i <= s@.len(),
            token_prefix(s@.skip(start as int)) == s@.subrange(start as int, i as int) + token_prefix(
                s@.skip(i as int),
            ),
        decreases s.len() - i,
    {
        assert(s@.skip(i as int).drop_first() =~= s@.skip(i + 1));
        assert(s@.subrange(start as int, i + 1) =~= s@.subrange(start as int, i as int) + seq![
            s@[i as int],
        ]);
        i = i + 1;
    }
    assert(token_prefix(s@.skip(i as int)) =~= Seq::<char>::empty());
    assert(s@.subrange(start as int, i as int) + Seq::<char>::empty() =~= s@.subrange(
        start as int,
        i as int,
    ));
    slice_range(s, start, i)
}

pub fn solarlab_semantic_ack_field(hierarchy_lower: &str, field: &str) -> (r: Option<String>)
    ensures
        opt_view(r) == spec_ack_field(hierarchy_lower@, field@),
{
    let h = chars_of(hierarchy_lower);
    let marker = chars_of(SOLARLAB_FOCUS_ACK_MARKER);
    let m = match find_first_occurrence(h.as_slice(), marker.as_slice()) {
        Some(m) => m,
        None => {
            return None;
        },
    };
    let tail = slice_range(h.as_slice(), m, h.len());
    assert(tail@ =~= h@.skip(m as int));
    let mut prefix = chars_of(field);
    append_str(&mut prefix, "=");
    let f = match find_first_occurrence(tail.as_slice(), prefix.as_slice()) {
        Some(f) => f,
        None => {
            return None;
        },
    };
    proof {
        reveal_strlit("=");
    }
    let start = f + prefix.len();
    let v = token_prefix_chars(tail.as_slice(), start);
    if v.len() > 0 {
        Some(string_of(v.as_slice()))
    } else {
        None
    }
}

/// The body a focus acknowledgement resolved to, when the acknowledgement
/// answers this request and this query.
pub open spec fn spec_focus_ack_body(hierarchy: Seq<char>, body_query: Seq<char>, request_id: Seq<char>) -> Option<
    Seq<char>,
> {
    let h = unicode_lower(hierarchy);
    match (spec_ack_field(h, "request-id"@), spec_ack_field(h, "query"@)) {
        (Some(rid), Some(q)) => if rid == spec_ack_token(request_id) && q == spec_ack_token(
            body_query,
        ) {
            spec_ack_field(h, "resolved-body"@)
        } else {
            None
        },
        _ => None,
    }
}

pub fn solarlab_semantic_focus_ack_resolved_body_id(
    hierarchy: &str,
    body_query: &str,
    request_id: &str,
) -> (r: Option<String>)
    ensures
        opt_view(r) == spec_focus_ack_body(hierarchy@, body_query@, request_id@),
{
    let h = to_lowercase(hierarchy);
    let rid = match solarlab_semantic_ack_field(h.as_str(), "request-id") {
        Some(v) => v,
        None => {
            return None;
        },
    };
    let q = match solarlab_semantic_ack_field(h.as_str(), "query") {
        Some(v) => v,
        None => {
            return None;
        },
    };
    let want_rid = normalize_solarlab_semantic_ack_token(request_id);
    let want_q = normalize_solarlab_semantic_ack_token(body_query);
    if !str_eq(rid.as_str(), want_rid.as_str()) || !str_eq(q.as_str(), want_q.as_str()) {
        return None;
    }
    solarlab_semantic_ack_field(h.as_str(), "resolved-body")
}

pub fn solarlab_semantic_resolved_body_id(
    action: &SolarLabSemanticCommand,
    hierarchy: &str,
    request_id: &str,
) -> (r: Option<String>)
    ensures
        opt_view(r) == match action {
            SolarLabSemanticCommand::FocusBody { body_query } => spec_focus_ack_body(
                hierarchy@,
                body_query@,
                request_id@,
            ),
            _ => None,
        },
{
    match action {
        SolarLabSemanticCommand::FocusBody { body_query } => solarlab_semantic_focus_ack_resolved_body_id(
            hierarchy,
            body_query.as_str(),
            request_id,
        ),
        _ => None,
    }
}

/// Whether the hierarchy shows that the app performed the action.
///
/// A focus action is acknowledged by a marker that answers this request
/// (or, without a marker, by the body's name anywhere); opening the
/// immersive view by a way back to the sandbox, or a sparse hierarchy
/// without sandbox controls; returning to the sandbox by its controls;
/// resetting the camera always.
pub open spec fn spec_ack_matches(action: SolarLabSemanticCommand, hierarchy: Seq<char>, request_id: Option<
    Seq<char>,
>) -> bool {
    let h = unicode_lower(hierarchy);
    match action {
        SolarLabSemanticCommand::FocusBody { body_query } => if contains(h, SOLARLAB_FOCUS_ACK_MARKER@) {
            match request_id {
                Some(rid) => spec_focus_ack_body(hierarchy, body_query@, rid) is Some,
                None => false,
            }
        } else {
            contains(h, unicode_lower(body_query@))
        },
        SolarLabSemanticCommand::OpenImmersive => contains(h, "back to sandbox"@) || (count_matches(
            h,
            "<node"@,
        ) <= 2 && !contains(h, "search"@) && !contains(h, "immersive"@) && !contains(
            h,
            "no body selected"@,
        )),
        SolarLabSemanticCommand::ReturnToSandbox => contains(h, "add object"@) || contains(h, "search"@)
            || contains(h, "immersive"@) || contains(h, "no body selected"@),
        SolarLabSemanticCommand::ResetCamera => true,
    }
}

pub fn solarlab_semantic_ack_matches(
    action: &SolarLabSemanticCommand,
    hierarchy: &str,
    request_id: Option<&str>,
) -> (r: bool)
    ensures
        r == spec_ack_matches(
            *action,
            hierarchy@,
            match request_id {
                Some(x) => Some(x@),
                None => None,
            },
        ),
{
    let hl = to_lowercase(hierarchy);
    let h = chars_of(hl.as_str());
    match action {
        SolarLabSemanticCommand::FocusBody { body_query } => {
            if contains_str(h.as_slice(), SOLARLAB_FOCUS_ACK_MARKER) {
                return match request_id {
                    Some(rid) => solarlab_semantic_focus_ack_resolved_body_id(
                        hierarchy,
                        body_query.as_str(),
                        rid,
                    ).is_some(),
                    None => false,
                };
            }
            let q = to_lowercase(body_query.as_str());
            contains_str(h.as_slice(), q.as_str())
        },
        SolarLabSemanticCommand::OpenImmersive => {
            if contains_str(h.as_slice(), "back to sandbox") {
                return true;
            }
            let node = chars_of("<node");
            proof {
                reveal_strlit("<node");
            }
            let count = count_matches_chars(h.as_slice(), node.as_slice());
            count <= 2 && !contains_str(h.as_slice(), "search") && !contains_str(
                h.as_slice(),
                "immersive",
            ) && !contains_str(h.as_slice(), "no body selected")
        },
        SolarLabSemanticCommand::ReturnToSandbox => {
            contains_str(h.as_slice(), "add object") || contains_str(h.as_slice(), "search")
                || contains_str(h.as_slice(), "immersive") || contains_str(
                h.as_slice(),
                "no body selected",
            )
        },
        SolarLabSemanticCommand::ResetCamera => true,
    }
}

// ---------------------------------------------------------------------------
// The arguments of `solarlab.semantic_action`.
// ---------------------------------------------------------------------------

/// The `target` that generic Android adapters send: a JSON string, a JSON
/// object (each field with its value where that value is a string), or any
/// other JSON value.
#[derive(Debug, Clone, PartialEq)]
pub enum SemanticTarget {
    Text(String),
    Fields(Vec<(String, Option<String>)>),
    Other,
}

/// One entry of a batched `actions` envelope.
pub struct SolarLabSemanticStepAction {
    /// Generic Android action discriminator. When present, this must be
    /// `semantic_action`.
    pub action_type: Option<String>,
    /// Canonical action or generic `semantic_action` envelope discriminator.
    pub action: Option<String>,
    /// Generic Android action-name alias.
    pub action_name: Option<String>,
    /// Computer-use action-name alias.
    pub name: Option<String>,
    pub body_query: Option<String>,
    pub target: Option<SemanticTarget>,
    pub timeout_secs: Option<u64>,
}

/// The arguments of `solarlab.semantic_action`, in every envelope it accepts.
pub struct SolarLabSemanticActionArgs {
    pub serial: Option<String>,
    pub package_name: Option<String>,
    pub activity: Option<String>,
    /// Canonical Solar Lab semantic action, or the generic
    /// `semantic_action` envelope discriminator.
    pub action: Option<String>,
    /// Generic Android action-name alias.
    pub action_name: Option<String>,
    /// Computer-use action-name alias.
    pub name: Option<String>,
    pub body_query: Option<String>,
    /// Compatibility target supplied by generic Android adapters.
    pub target: Option<SemanticTarget>,
    /// Generic Android batched-action envelope; exactly one entry is accepted.
    pub actions: Vec<SolarLabSemanticStepAction>,
    /// Compatibility timeout; the acknowledgement policy stays bounded.
    pub timeout_secs: Option<u64>,
    pub capture_state: bool,
}

/// The arguments reduced to one action name.
#[derive(Debug, PartialEq)]
pub struct NormalizedSolarLabSemanticActionArgs {
    pub serial: Option<String>,
    pub package_name: Option<String>,
    pub activity: Option<String>,
    pub action: String,
    pub body_query: Option<String>,
    pub target: Option<SemanticTarget>,
    pub capture_state: bool,
}

/// The action name that one field contributes: trimmed, unless blank or the
/// generic `semantic_action`.
pub open spec fn action_candidate(o: Option<String>) -> Seq<Seq<char>> {
    match o {
        Some(c) => if trim(c@).len() > 0 && trim(c@) != "semantic_action"@ {
            seq![trim(c@)]
        } else {
            Seq::empty()
        },
        None => Seq::empty(),
    }
}

pub open spec fn action_candidates(action: Option<String>, action_name: Option<String>, name: Option<String>) -> Seq<Seq<char>> {
    action_candidate(action) + action_candidate(action_name) + action_candidate(name)
}

/// `s` without the elements that repeat the one before (`Vec::dedup`).
pub open spec fn dedup_adjacent(s: Seq<Seq<char>>) -> Seq<Seq<char>>
    decreases s.len(),
{
    if s.len() == 0 {
        s
    } else {
        let rest = dedup_adjacent(s.drop_last());
        if s.len() > 1 && s[s.len() - 2] == s.last() {
            rest
        } else {
            rest.push(s.last())
        }
    }
}

/// The distinct action names, in ascending order.
pub open spec fn distinct_actions(candidates: Seq<Seq<char>>) -> Seq<Seq<char>> {
    dedup_adjacent(sorted_names(candidates))
}

pub(crate) fn dedup_sorted(names: Vec<String>) -> (r: Vec<String>)
    ensures
        strs_view(r@) == dedup_adjacent(strs_view(names@)),
{
    let ghost v = strs_view(names@);
    let mut r: Vec<String> = Vec::new();
    let mut i: usize = 0;
    while i < names.len()
        invariant
            i <= names.len(),
            v == strs_view(names@),
            strs_view(r@) == dedup_adjacent(v.take(i as int)),
        decreases names.len() - i,
    {
        let ghost before = v.take(i as int);
        let ghost after = v.take(i + 1);
        assert(after.drop_last() =~= before);
        let repeat = i > 0 && str_eq(names[i - 1].as_str(), names[i].as_str());
        assert(repeat == (after.len() > 1 && after[after.len() - 2] == after.last()));
        if !repeat {
            let name = owned(names[i].as_str());
            let ghost prev = strs_view(r@);
            r.push(name);
            assert(strs_view(r@) =~= prev.push(v[i as int]));
        }
        i = i + 1;
    }
    assert(v.take(names.len() as int) =~= v);
    r
}

fn push_candidate(candidates: &mut Vec<String>, candidate: &Option<String>)
    ensures
        strs_view(final(candidates)@) == strs_view(old(candidates)@) + action_candidate(*candidate),
{
    let ghost before = strs_view(candidates@);
    match candidate {
        Some(c) => collect_solarlab_semantic_action_candidate(candidates, Some(c.as_str())),
        None => collect_solarlab_semantic_action_candidate(candidates, None),
    }
    assert(strs_view(candidates@) =~= before + action_candidate(*candidate));
}

/// The normalized arguments: at most one batched entry, whose `type` (if
/// given) is `semantic_action`; the action names of the top level and of the
/// entry must agree on one action; the entry's body query and target take
/// precedence over the top-level ones.
pub fn normalize_solarlab_semantic_action_args(args: SolarLabSemanticActionArgs) -> (r: Result<
    NormalizedSolarLabSemanticActionArgs,
    McpError,
>)
    ensures
        args.actions@.len() > 1 ==> (r matches Err(e) && e.kind == ErrorKind::InvalidParams && e.message@
            == "solarlab.semantic_action accepts exactly one batched semantic action, got "@ + decimal(
            args.actions@.len() as nat,
        )),
        args.actions@.len() == 1 && (args.actions@[0].action_type matches Some(t) && trim(t@)
            != "semantic_action"@) ==> (r matches Err(e) && e.kind == ErrorKind::InvalidParams
            && e.message@ == "solarlab.semantic_action actions[0].type must be 'semantic_action', got '"@
            + args.actions@[0].action_type.unwrap()@ + "'"@),
        args.actions@.len() == 0 || (args.actions@.len() == 1 && !(args.actions@[0].action_type matches Some(t)
            && trim(t@) != "semantic_action"@)) ==> {
            let candidates = action_candidates(args.action, args.action_name, args.name) + (if args.actions@.len() == 1 {
                action_candidates(args.actions@[0].action, args.actions@[0].action_name, args.actions@[0].name)
            } else {
                Seq::empty()
            });
            let distinct = distinct_actions(candidates);
            if distinct.len() == 0 {
                r matches Err(e) && e.kind == ErrorKind::InvalidParams && e.message@
                    == "solarlab.semantic_action requires action, action_name, name, or one semantic actions[] entry"@
            } else if distinct.len() > 1 {
                r matches Err(e) && e.kind == ErrorKind::InvalidParams && e.message@
                    == "solarlab.semantic_action received conflicting semantic action names: "@ + join(distinct, ", "@)
            } else {
                r matches Ok(n) && {
                    &&& n.action@ == distinct[0]
                    &&& n.serial == args.serial
                    &&& n.package_name == args.package_name
                    &&& n.activity == args.activity
                    &&& n.capture_state == args.capture_state
                    &&& n.body_query == (if args.actions@.len() == 1 && args.actions@[0].body_query is Some {
                        args.actions@[0].body_query
                    } else {
                        args.body_query
                    })
                    &&& n.target == (if args.actions@.len() == 1 && args.actions@[0].target is Some {
                        args.actions@[0].target
                    } else {
                        args.target
                    })
                }
            }
        },
{
    let SolarLabSemanticActionArgs {
        serial,
        package_name,
        activity,
        action,
        action_name,
        name,
        body_query,
        target,
        actions,
        timeout_secs: _,
        capture_state,
    } = args;
    let mut candidates: Vec<String> = Vec::new();
    push_candidate(&mut candidates, &action);
    push_candidate(&mut candidates, &action_name);
    push_candidate(&mut candidates, &name);
    assert(strs_view(candidates@) =~= action_candidates(action, action_name, name));
    let (body_query, target) = if actions.len() == 0 {
        (body_query, target)
    } else if actions.len() == 1 {
        let ghost first = actions@[0];
        let mut actions = actions;
        let step = match actions.pop() {
            Some(step) => step,
            None => {
                return Err(McpError::invalid_params(owned("")));
            },
        };
        assert(step == first);
        if let Some(action_type) = &step.action_type {
            let t = trimmed(action_type.as_str());
            if !str_eq_chars("semantic_action", t.as_slice()) {
                let mut m = chars_of("solarlab.semantic_action actions[0].type must be 'semantic_action', got '");
                append_str(&mut m, action_type.as_str());
                append_str(&mut m, "'");
                return Err(McpError::invalid_params(string_of(m.as_slice())));
            }
        }
        let ghost top = strs_view(candidates@);
        push_candidate(&mut candidates, &step.action);
        push_candidate(&mut candidates, &step.action_name);
        push_candidate(&mut candidates, &step.name);
        assert(strs_view(candidates@) =~= top + action_candidates(step.action, step.action_name, step.name));
        let bq = match step.body_query {
            Some(b) => Some(b),
            None => body_query,
        };
        let tg = match step.target {
            Some(x) => Some(x),
            None => target,
        };
        (bq, tg)
    } else {
        let mut m = chars_of("solarlab.semantic_action accepts exactly one batched semantic action, got ");
        push_decimal(&mut m, actions.len() as u64);
        return Err(McpError::invalid_params(string_of(m.as_slice())));
    };
    let ghost all = strs_view(candidates@);
    let sorted = sort_entry_names(candidates);
    proof {
        assert(string_views(sorted@) =~= strs_view(sorted@));
        assert(string_views(candidates@) =~= all);
        lemma_sorted_names_of(all, strs_view(sorted@));
    }
    let distinct = dedup_sorted(sorted);
    if distinct.len() == 0 {
        return Err(McpError::invalid_params(owned(
            "solarlab.semantic_action requires action, action_name, name, or one semantic actions[] entry",
        )));
    }
    if distinct.len() > 1 {
        let mut pieces: Vec<Vec<char>> = Vec::new();
        let mut i: usize = 0;
        while i < distinct.len()
            invariant
                i <= distinct.len(),
                views(pieces@) == strs_view(distinct@).take(i as int),
            decreases distinct.len() - i,
        {
            let piece = chars_of(distinct[i].as_str());
            assert(piece@ == strs_view(distinct@)[i as int]);
            let ghost before = views(pieces@);
            pieces.push(piece);
            assert(views(pieces@) =~= before.push(piece@));
            assert(strs_view(distinct@).take(i + 1) =~= strs_view(distinct@).take(i as int).push(strs_view(distinct@)[i as int]));
            i = i + 1;
        }
        assert(strs_view(distinct@).take(distinct.len() as int) =~= strs_view(distinct@));
        let sep = chars_of(", ");
        let joined = join_chars(&pieces, sep.as_slice());
        let mut m = chars_of("solarlab.semantic_action received conflicting semantic action names: ");
        append_chars(&mut m, joined.as_slice());
        return Err(McpError::invalid_params(string_of(m.as_slice())));
    }
    let chosen = owned(distinct[0].as_str());
    Ok(NormalizedSolarLabSemanticActionArgs {
        serial,
        package_name,
        activity,
        action: chosen,
        body_query,
        target,
        capture_state,
    })
}

/// The value of the first field named `key`, where it is a string.
pub open spec fn field_string(fields: Seq<(String, Option<String>)>, key: Seq<char>) -> Option<Seq<char>>
    decreases fields.len(),
{
    if fields.len() == 0 {
        None
    } else if fields[0].0@ == key {
        opt_view(fields[0].1)
    } else {
        field_string(fields.drop_first(), key)
    }
}

/// The fields of a target object that can carry a body query, in the order
/// they are tried.
pub open spec fn query_field_names() -> Seq<Seq<char>> {
    seq![
        "text"@,
        "text_exact"@,
        "label"@,
        "label_exact"@,
        "content_desc"@,
        "content_description"@,
        "contentDescription"@,
    ]
}

/// The first of `keys` whose field holds a string, and that string.
pub open spec fn first_query_field(fields: Seq<(String, Option<String>)>, keys: Seq<Seq<char>>) -> Option<Seq<char>>
    decreases keys.len(),
{
    if keys.len() == 0 {
        None
    } else {
        match field_string(fields, keys[0]) {
            Some(v) => Some(v),
            None => first_query_field(fields, keys.drop_first()),
        }
    }
}

/// Trimmed text, or none where it is blank.
pub open spec fn non_blank(s: Seq<char>) -> Option<Seq<char>> {
    if trim(s).len() > 0 {
        Some(trim(s))
    } else {
        None
    }
}

/// The body query of a focus action: the canonical field, trimmed, unless it
/// is blank; else the target: a string target, trimmed, or the first of the
/// query fields of an object target that holds a string, trimmed; none where
/// that is blank.
pub open spec fn spec_body_query(body_query: Option<String>, target: Option<SemanticTarget>) -> Option<Seq<char>> {
    match (match body_query {
        Some(b) => non_blank(b@),
        None => None,
    }) {
        Some(q) => Some(q),
        None => match target {
            Some(SemanticTarget::Text(v)) => non_blank(v@),
            Some(SemanticTarget::Fields(fs)) => match first_query_field(fs@, query_field_names()) {
                Some(v) => non_blank(v),
                None => None,
            },
            _ => None,
        },
    }
}

fn field_string_exec(fields: &Vec<(String, Option<String>)>, key: &str) -> (r: Option<String>)
    ensures
        opt_view(r) == field_string(fields@, key@),
        r is Some == field_string(fields@, key@) is Some,
{
    let mut i: usize = 0;
    assert(fields@.skip(0) =~= fields@);
    while i < fields.len()
        invariant
            i <= fields.len(),
            field_string(fields@, key@) == field_string(fields@.skip(i as int), key@),
        decreases fields.len() - i,
    {
        assert(fields@.skip(i as int).drop_first() =~= fields@.skip(i + 1));
        assert(fields@.skip(i as int)[0] == fields@[i as int]);
        if str_eq(fields[i].0.as_str(), key) {
            return clone_opt(&fields[i].1);
        }
        i = i + 1;
    }
    None
}

fn non_blank_exec(s: &str) -> (r: Option<String>)
    ensures
        opt_view(r) == non_blank(s@),
{
    let t = trim_string(s);
    if t.as_str().is_empty() {
        None
    } else {
        Some(t)
    }
}

/// The body query that a focus action uses, as `spec_body_query` states it.
pub fn resolve_solarlab_semantic_body_query(body_query: Option<String>, target: Option<SemanticTarget>) -> (r:
    Option<String>)
    ensures
        opt_view(r) == spec_body_query(body_query, target),
{
    if let Some(b) = &body_query {
        if let Some(q) = non_blank_exec(b.as_str()) {
            return Some(q);
        }
    }
    match &target {
        Some(SemanticTarget::Text(v)) => non_blank_exec(v.as_str()),
        Some(SemanticTarget::Fields(fs)) => {
            let keys = [
                "text",
                "text_exact",
                "label",
                "label_exact",
                "content_desc",
                "content_description",
                "contentDescription",
            ];
            let ghost key_views = query_field_names();
            proof {
                reveal_strlit("text");
                reveal_strlit("text_exact");
                reveal_strlit("label");
                reveal_strlit("label_exact");
                reveal_strlit("content_desc");
                reveal_strlit("content_description");
                reveal_strlit("contentDescription");
            }
            let mut i: usize = 0;
            assert(key_views.skip(0) =~= key_views);
            let ghost expected = match first_query_field(fs@, query_field_names()) {
                Some(v) => non_blank(v),
                None => None,
            };
            assert(spec_body_query(body_query, target) == expected);
            while i < 7
                invariant
                    spec_body_query(body_query, target) == expected,
                    expected == match first_query_field(fs@, query_field_names()) {
                        Some(v) => non_blank(v),
                        None => None,
                    },
                    i <= 7,
                    keys@.len() == 7,
                    forall|k: int| 0 <= k < 7 ==> #[trigger] keys@[k]@ == key_views[k],
                    key_views == query_field_names(),
                    first_query_field(fs@, key_views) == first_query_field(fs@, key_views.skip(i as int)),
                decreases 7 - i,
            {
                assert(key_views.skip(i as int).drop_first() =~= key_views.skip(i + 1));
                assert(key_views.skip(i as int)[0] == key_views[i as int]);
                match field_string_exec(fs, keys[i]) {
                    Some(v) => {
                        return non_blank_exec(v.as_str());
                    },
                    None => {},
                }
                i = i + 1;
            }
            None
        },
        _ => None,
    }
}


// ---------------------------------------------------------------------------
// Laws of acknowledgement tokens.
// ---------------------------------------------------------------------------

pub open spec fn token_char(c: char) -> bool {
    ('a' <= c && c <= 'z') || ('0' <= c && c <= '9') || c == '-'
}

/// Lower-case letters, digits and dashes, with no dash first and no two
/// dashes in a row.
pub open spec fn token_shaped(t: Seq<char>) -> bool {
    &&& forall|i: int| 0 <= i < t.len() ==> token_char(#[trigger] t[i])
    &&& forall|i: int| 0 <= i < t.len() && #[trigger] t[i] == '-' ==> i > 0 && t[i - 1] != '-'
}

proof fn lemma_raw_token_shaped(s: Seq<char>)
    ensures
        token_shaped(raw_ack_token(s)),
    decreases s.len(),
{
    if s.len() > 0 {
        lemma_raw_token_shaped(s.drop_last());
        let r = raw_ack_token(s.drop_last());
        let out = raw_ack_token(s);
        let c = s.last();
        if is_ascii_alnum(c) {
            assert(out == r.push(ascii_lower(c)));
            assert forall|i: int| 0 <= i < out.len() implies token_char(#[trigger] out[i]) by {
                if i < r.len() {
                    assert(out[i] == r[i]);
                }
            }
            assert forall|i: int| 0 <= i < out.len() && #[trigger] out[i] == '-' implies i > 0 && out[i - 1] != '-' by {
                assert(out[i] == r[i]);
                assert(out[i - 1] == r[i - 1]);
            }
        } else if r.len() > 0 && r.last() != '-' {
            assert(out == r.push('-'));
            assert forall|i: int| 0 <= i < out.len() implies token_char(#[trigger] out[i]) by {
                if i < r.len() {
                    assert(out[i] == r[i]);
                }
            }
            assert forall|i: int| 0 <= i < out.len() && #[trigger] out[i] == '-' implies i > 0 && out[i - 1] != '-' by {
                if i < r.len() {
                    assert(out[i] == r[i]);
                    assert(out[i - 1] == r[i - 1]);
                } else {
                    assert(out[i - 1] == r.last());
                }
            }
        }
    }
}

/// A token-shaped sequence is its own raw token.
proof fn lemma_raw_token_fixed(t: Seq<char>)
    requires
        token_shaped(t),
    ensures
        raw_ack_token(t) == t,
    decreases t.len(),
{
    if t.len() > 0 {
        let p = t.drop_last();
        assert(token_shaped(p)) by {
            assert forall|i: int| 0 <= i < p.len() implies token_char(#[trigger] p[i]) by {
                assert(p[i] == t[i]);
            }
            assert forall|i: int| 0 <= i < p.len() && #[trigger] p[i] == '-' implies i > 0 && p[i - 1] != '-' by {
                assert(p[i] == t[i]);
                assert(t[i] == '-');
            }
        }
        lemma_raw_token_fixed(p);
        let c = t.last();
        assert(token_char(t[t.len() - 1]));
        if c == '-' {
            assert(t[t.len() - 1] == '-');
            assert(t.len() - 1 > 0);
            assert(p.last() == t[t.len() - 2]);
        } else {
            assert(ascii_lower(c) == c);
        }
        assert(t =~= p.push(c));
    }
}

proof fn lemma_trim_dash_start_none(t: Seq<char>)
    requires
        t.len() == 0 || t[0] != '-',
    ensures
        trim_start_in(t, seq!['-']) == t,
{
    if t.len() > 0 {
        assert(!seq!['-'].contains(t[0])) by {
            if seq!['-'].contains(t[0]) {
                let k = choose|k: int| 0 <= k < 1 && seq!['-'][k] == t[0];
            }
        }
    }
}

/// A token is made of lower-case ASCII letters, digits and single dashes,
/// neither starting nor ending with a dash, and is already in normal form:
/// normalizing it again gives it back.
pub proof fn lemma_ack_token_idempotent(s: Seq<char>)
    ensures
        token_shaped(spec_ack_token(s)),
        spec_ack_token(s).len() > 0 ==> spec_ack_token(s).last() != '-',
        spec_ack_token(spec_ack_token(s)) == spec_ack_token(s),
{
    let raw = raw_ack_token(s);
    lemma_raw_token_shaped(s);
    let dash = seq!['-'];
    assert(dash.contains('-')) by {
        assert(dash[0] == '-');
    }
    if raw.len() > 0 {
        assert(raw[0] != '-');
    }
    lemma_trim_dash_start_none(raw);
    let t = spec_ack_token(s);
    assert(t == trim_end_in(raw, dash));
    if raw.len() > 0 && raw.last() == '-' {
        let p = raw.drop_last();
        assert(raw.last() == raw[raw.len() - 1]);
        assert(p.len() == 0 || p.last() != '-') by {
            if p.len() > 0 {
                assert(p.last() == raw[raw.len() - 2]);
            }
        }
        assert(p.len() == 0 || !dash.contains(p.last())) by {
            if p.len() > 0 && dash.contains(p.last()) {
                let k = choose|k: int| 0 <= k < 1 && dash[k] == p.last();
            }
        }
        assert(trim_end_in(p, dash) == p);
        assert(t == p);
    } else {
        assert(raw.len() == 0 || !dash.contains(raw.last())) by {
            if raw.len() > 0 && dash.contains(raw.last()) {
                let k = choose|k: int| 0 <= k < 1 && dash[k] == raw.last();
            }
        }
        assert(t == raw);
    }
    assert(token_shaped(t)) by {
        assert forall|i: int| 0 <= i < t.len() implies token_char(#[trigger] t[i]) by {
            assert(t[i] == raw[i]);
        }
        assert forall|i: int| 0 <= i < t.len() && #[trigger] t[i] == '-' implies i > 0 && t[i - 1] != '-' by {
            assert(t[i] == raw[i]);
            assert(raw[i] == '-');
        }
    }
    lemma_raw_token_fixed(t);
    if t.len() > 0 {
        assert(t[0] == raw[0]);
        assert(t.last() != '-') by {
            if raw.len() > 0 && raw.last() == '-' {
                assert(t.last() == raw[raw.len() - 2]);
                assert(raw[raw.len() - 1] == '-');
            } else {
                assert(t.last() == raw.last());
            }
        }
    }
    lemma_trim_dash_start_none(t);
    assert(t.len() == 0 || !dash.contains(t.last())) by {
        if t.len() > 0 && dash.contains(t.last()) {
            let k = choose|k: int| 0 <= k < 1 && dash[k] == t.last();
            if raw.len() > 0 && raw.last() == '-' {
                assert(t.last() == raw[raw.len() - 2]);
            } else {
                assert(t.last() == raw.last());
            }
        }
    }
}

} // verus!
