//! Reading the focused window, focused app and resumed activity out of
//! `dumpsys window` and `dumpsys activity` output.
use vstd::prelude::*;
use crate::text::{chars_of, contains, contains_str, ends_with, ends_with_str, find_char, lines, lines_of, string_of, trim, trim_chars, trim_in, trim_in_chars, views, words, words_of};
use crate::ui::{opt_view};

verus! {

/// What the window manager reports of the foreground.
#[derive(Debug, Clone, PartialEq, Eq)]
pub struct AndroidWindowState {
    pub current_focus: Option<String>,
    pub focused_app: Option<String>,
    pub resumed_activity: Option<String>,
    pub input_method_visible: bool,
    pub input_method_target: Option<String>,
}

/// The characters trimmed off a component token.
pub open spec fn token_punctuation() -> Seq<char> {
    seq!['{', '}', '[', ']', '(', ')', ',']
}

/// The first word that holds a `/`.
pub open spec fn first_slash_word(ws: Seq<Seq<char>>) -> Option<Seq<char>>
    decreases ws.len(),
{
    if ws.len() == 0 {
        None
    } else if ws[0].contains('/') {
        Some(ws[0])
    } else {
        first_slash_word(ws.drop_first())
    }
}

/// The component named on a line: its first whitespace-separated word that
/// holds a `/`, without surrounding braces, brackets, parentheses and commas.
pub open spec fn spec_component_token(line: Seq<char>) -> Option<Seq<char>> {
    match first_slash_word(words(line)) {
        Some(w) => Some(trim_in(w, token_punctuation())),
        None => None,
    }
}

fn punctuation() -> (r: Vec<char>)
    ensures
        r@ == token_punctuation(),
{
    let mut r: Vec<char> = Vec::new();
    r.push('{');
    r.push('}');
    r.push('[');
    r.push(']');
    r.push('(');
    r.push(')');
    r.push(',');
    assert(r@ =~= token_punctuation());
    r
}

pub fn extract_component_token(line: &str) -> (r: Option<String>)
    ensures
        opt_view(r) == spec_component_token(line@),
{
    let lv = chars_of(line);
    let ws = words_of(lv.as_slice());
    let ghost wv = views(ws@);
    assert(wv.subrange(0, wv.len() as int) =~= wv);
    let mut i: usize = 0;
    while i < ws.len()
        invariant
            i <= ws@.len(),
            wv == views(ws@),
            wv == words(line@),
            first_slash_word(wv.subrange(i as int, wv.len() as int)) == first_slash_word(wv),
        decreases ws.len() - i,
    {
        let ghost rest = wv.subrange(i as int, wv.len() as int);
        assert(rest[0] == ws@[i as int]@);
        if find_char(ws[i].as_slice(), '/').is_some() {
            let p = punctuation();
            let t = trim_in_chars(ws[i].as_slice(), p.as_slice());
            return Some(string_of(t.as_slice()));
        }
        assert(rest.drop_first() =~= wv.subrange(i + 1, wv.len() as int));
        i = i + 1;
    }
    assert(wv.subrange(i as int, wv.len() as int) =~= Seq::<Seq<char>>::empty());
    None
}

/// The line contains one of the needles.
pub open spec fn has_needle(line: Seq<char>, needles: Seq<Seq<char>>) -> bool {
    exists|k: int| 0 <= k < needles.len() && contains(line, #[trigger] needles[k])
}

/// The first line that contains one of the needles.
pub open spec fn first_line_with(ls: Seq<Seq<char>>, needles: Seq<Seq<char>>) -> Option<Seq<char>>
    decreases ls.len(),
{
    if ls.len() == 0 {
        None
    } else if has_needle(ls[0], needles) {
        Some(ls[0])
    } else {
        first_line_with(ls.drop_first(), needles)
    }
}

/// The lines of `s`, each trimmed.
pub open spec fn trimmed_lines(s: Seq<char>) -> Seq<Seq<char>> {
    lines(s).map_values(|l: Seq<char>| trim(l))
}

/// The views of a list of string slices.
pub open spec fn str_views(ns: Seq<&str>) -> Seq<Seq<char>> {
    ns.map_values(|n: &str| n@)
}

/// The component named on the first (trimmed) line that contains one of
/// the needles; none when there is no such line or it names no component.
pub open spec fn spec_find_component(output: Seq<char>, needles: Seq<Seq<char>>) -> Option<Seq<char>> {
    match first_line_with(trimmed_lines(output), needles) {
        Some(l) => spec_component_token(l),
        None => None,
    }
}

fn line_has_needle(line: &[char], needles: &[&str]) -> (r: bool)
    ensures
        r == has_needle(line@, str_views(needles@)),
{
    let ghost nv = str_views(needles@);
    let mut k: usize = 0;
    while k < needles.len()
        invariant
            k <= needles@.len(),
            nv == str_views(needles@),
            forall|j: int| 0 <= j < k ==> !contains(line@, #[trigger] nv[j]),
        decreases needles.len() - k,
    {
        if contains_str(line, needles[k]) {
            assert(contains(line@, nv[k as int]));
            return true;
        }
        k = k + 1;
    }
    false
}

pub fn find_dumpsys_component(output: &str, needles: &[&str]) -> (r: Option<String>)
    ensures
        opt_view(r) == spec_find_component(output@, str_views(needles@)),
{
    let ov = chars_of(output);
    let ls = lines_of(ov.as_slice());
    let ghost tl = trimmed_lines(output@);
    let ghost nv = str_views(needles@);
    assert(tl.subrange(0, tl.len() as int) =~= tl);
    let mut i: usize = 0;
    while i < ls.len()
        invariant
            i <= ls@.len(),
            views(ls@) == lines(output@),
            tl == trimmed_lines(output@),
            tl.len() == ls@.len(),
            nv == str_views(needles@),
            first_line_with(tl.subrange(i as int, tl.len() as int), nv) == first_line_with(tl, nv),
        decreases ls.len() - i,
    {
        let ghost rest = tl.subrange(i as int, tl.len() as int);
        let line = trim_chars(ls[i].as_slice());
        assert(rest[0] == line@);
        if line_has_needle(line.as_slice(), needles) {
            let s = string_of(line.as_slice());
            return extract_component_token(s.as_str());
        }
        assert(rest.drop_first() =~= tl.subrange(i + 1, tl.len() as int));
        i = i + 1;
    }
    assert(tl.subrange(i as int, tl.len() as int) =~= Seq::<Seq<char>>::empty());
    None
}

/// A trimmed line shows the input method: it says `mInputShown=true`, or it
/// names an input-method window that is not null.
pub open spec fn shows_input_method(line: Seq<char>) -> bool {
    contains(line, "mInputShown=true"@) || (contains(line, "mInputMethodWindow="@) && !ends_with(
        line,
        "null"@,
    ) && !contains(line, "mInputMethodWindow=null"@))
}

pub open spec fn spec_input_method_visible(window_output: Seq<char>) -> bool {
    exists|k: int|
        0 <= k < trimmed_lines(window_output).len() && shows_input_method(
            #[trigger] trimmed_lines(window_output)[k],
        )
}

pub fn parse_input_method_visible(window_output: &str) -> (r: bool)
    ensures
        r == spec_input_method_visible(window_output@),
{
    let ov = chars_of(window_output);
    let ls = lines_of(ov.as_slice());
    let ghost tl = trimmed_lines(window_output@);
    let mut i: usize = 0;
    while i < ls.len()
        invariant
            i <= ls@.len(),
            views(ls@) == lines(window_output@),
            tl == trimmed_lines(window_output@),
            tl.len() == ls@.len(),
            forall|k: int| 0 <= k < i ==> !shows_input_method(#[trigger] tl[k]),
        decreases ls.len() - i,
    {
        let line = trim_chars(ls[i].as_slice());
        assert(tl[i as int] == line@);
        let shown = contains_str(line.as_slice(), "mInputShown=true");
        let window = contains_str(line.as_slice(), "mInputMethodWindow=") && !ends_with_str(
            line.as_slice(),
            "null",
        ) && !contains_str(line.as_slice(), "mInputMethodWindow=null");
        if shown || window {
            assert(shows_input_method(tl[i as int]));
            return true;
        }
        i = i + 1;
    }
    false
}

/// The window state that `dumpsys window` and `dumpsys activity` report.
pub open spec fn spec_window_state_ok(s: AndroidWindowState, window_output: Seq<char>, activity_output: Seq<
    char,
>) -> bool {
    let target = spec_find_component(window_output, seq!["mInputMethodTarget="@]);
    &&& opt_view(s.current_focus) == spec_find_component(window_output, seq!["mCurrentFocus="@])
    &&& opt_view(s.focused_app) == spec_find_component(window_output, seq!["mFocusedApp="@])
    &&& opt_view(s.resumed_activity) == spec_find_component(
        activity_output,
        seq!["topResumedActivity="@, "mResumedActivity:"@],
    )
    &&& opt_view(s.input_method_target) == target
    &&& s.input_method_visible == (target is Some && spec_input_method_visible(window_output))
}

pub fn parse_android_window_state(window_output: &str, activity_output: &str) -> (r:
    AndroidWindowState)
    ensures
        spec_window_state_ok(r, window_output@, activity_output@),
{
    let n_target: [&str; 1] = ["mInputMethodTarget="];
    let n_focus: [&str; 1] = ["mCurrentFocus="];
    let n_app: [&str; 1] = ["mFocusedApp="];
    let n_resumed: [&str; 2] = ["topResumedActivity=", "mResumedActivity:"];
    assert(str_views(n_target@) =~= seq!["mInputMethodTarget="@]);
    assert(str_views(n_focus@) =~= seq!["mCurrentFocus="@]);
    assert(str_views(n_app@) =~= seq!["mFocusedApp="@]);
    assert(str_views(n_resumed@) =~= seq!["topResumedActivity="@, "mResumedActivity:"@]);
    let input_method_target = find_dumpsys_component(window_output, n_target.as_slice());
    let current_focus = find_dumpsys_component(window_output, n_focus.as_slice());
    let focused_app = find_dumpsys_component(window_output, n_app.as_slice());
    let resumed_activity = find_dumpsys_component(activity_output, n_resumed.as_slice());
    let input_method_visible = input_method_target.is_some() && parse_input_method_visible(
        window_output,
    );
    AndroidWindowState {
        current_focus,
        focused_app,
        resumed_activity,
        input_method_visible,
        input_method_target,
    }
}

} // verus!
