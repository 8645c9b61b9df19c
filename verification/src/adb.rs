//! Building adb commands and reading what adb prints.
use vstd::prelude::*;
use crate::dumpsys::{AndroidWindowState};
use crate::error::{ErrorKind, McpError, owned};
use crate::semantic::{to_lowercase, unicode_lower};
use crate::text::{decimal, push_decimal, append_chars, append_str, ascii_lower, ascii_lower_char, chars_of, contains, contains_str, find_first_occurrence, find_last_occurrence, first_occurrence, is_ascii_alnum, is_ascii_alnum_char, join, join_chars, last_occurrence, lemma_replace_char_concat, lines, lines_of, lower, lower_chars, occurs_at_exec, parse_u32, parse_unsigned, replace_char, replace_char_chars, slice_range, split_once_char, split_once_chars, starts_with, starts_with_str, str_eq, string_of, trim, trim_chars, trim_end, trim_end_chars, trim_in, trim_in_chars, trim_start_in, trim_end_in, trimmed, views};
use crate::ui::{NormalizedUiNode, matches_text, opt_view, strs_view};
use crate::verification::{TapVerification, TextVerification, text_pred};

verus! {

// ---------------------------------------------------------------------------
// Text for adb.
// ---------------------------------------------------------------------------

/// `input text` reads `%s` as a space.
pub open spec fn spec_escape_adb_text(text: Seq<char>) -> Seq<char> {
    replace_char(text, ' ', "%s"@)
}

pub fn escape_adb_text(text: &str) -> (r: String)
    ensures
        r@ == spec_escape_adb_text(text@),
{
    let tv = chars_of(text);
    let rep = chars_of("%s");
    let out = replace_char_chars(tv.as_slice(), ' ', rep.as_slice());
    string_of(out.as_slice())
}

/// How many delete key presses clear the existing text: one per character.
pub fn fallback_clear_delete_count(existing_text: Option<&str>) -> (r: usize)
    ensures
        r == match existing_text {
            Some(t) => t@.len(),
            None => 0,
        },
{
    match existing_text {
        Some(t) => chars_of(t).len(),
        None => 0,
    }
}

/// How replacement text is sent: through the usual text path, or, for an
/// empty replacement, as one raw adb step.
#[derive(Debug, Clone, PartialEq, Eq)]
pub enum ReplacementTextDispatchPlan {
    GenericTextDispatch,
    RawAdbStep(Vec<String>),
}

/// An empty replacement is a single delete key event; any other text goes
/// through the usual text dispatch.
pub fn replacement_text_dispatch_plan(text: &str) -> (r: ReplacementTextDispatchPlan)
    ensures
        text@.len() > 0 ==> r == ReplacementTextDispatchPlan::GenericTextDispatch,
        text@.len() == 0 ==> (r matches ReplacementTextDispatchPlan::RawAdbStep(args) && strs_view(args@)
            == seq!["input"@, "keyevent"@, "KEYCODE_DEL"@]),
{
    if chars_of(text).len() == 0 {
        let mut args: Vec<String> = Vec::new();
        args.push(owned("input"));
        args.push(owned("keyevent"));
        args.push(owned("KEYCODE_DEL"));
        assert(strs_view(args@) =~= seq!["input"@, "keyevent"@, "KEYCODE_DEL"@]);
        ReplacementTextDispatchPlan::RawAdbStep(args)
    } else {
        ReplacementTextDispatchPlan::GenericTextDispatch
    }
}

/// `prefix`, followed by `; ` and the trimmed nested detail when there is a
/// non-blank one.
pub open spec fn spec_merge_dispatch_detail(prefix: Seq<char>, nested: Option<Seq<char>>) -> Seq<char> {
    match nested {
        Some(d) => if trim(d).len() > 0 {
            prefix + "; "@ + trim(d)
        } else {
            prefix
        },
        None => prefix,
    }
}

pub fn merge_dispatch_detail(prefix: String, nested_detail: Option<&str>) -> (r: String)
    ensures
        r@ == spec_merge_dispatch_detail(
            prefix@,
            match nested_detail {
                Some(d) => Some(d@),
                None => None,
            },
        ),
{
    match nested_detail {
        Some(d) => {
            let t = trimmed(d);
            if t.len() > 0 {
                let mut v = chars_of(prefix.as_str());
                append_str(&mut v, "; ");
                append_chars(&mut v, t.as_slice());
                string_of(v.as_slice())
            } else {
                prefix
            }
        },
        None => prefix,
    }
}

/// The node's text, semantic label or content description equals the
/// requested text, ignoring ASCII case.
pub fn node_matches_requested_text(node: &NormalizedUiNode, requested_text: &str) -> (r: bool)
    ensures
        r == text_pred(requested_text@)(*node),
{
    let w = chars_of(requested_text);
    matches_text(node.text.as_ref(), w.as_slice(), true) || matches_text(
        node.semantic_label.as_ref(),
        w.as_slice(),
        true,
    ) || matches_text(node.content_desc.as_ref(), w.as_slice(), true)
}

// ---------------------------------------------------------------------------
// Shell quoting and file names.
// ---------------------------------------------------------------------------

/// A POSIX shell word for `value`: single quotes around it, each single
/// quote inside closed, double-quoted and reopened; `''` for nothing.
pub open spec fn spec_shell_quote(value: Seq<char>) -> Seq<char> {
    if value.len() == 0 {
        "''"@
    } else {
        "'"@ + replace_char(value, '\'', "'\"'\"'"@) + "'"@
    }
}

pub fn shell_quote(value: &str) -> (r: String)
    ensures
        r@ == spec_shell_quote(value@),
{
    let v = chars_of(value);
    if v.len() == 0 {
        return owned("''");
    }
    let rep = chars_of("'\"'\"'");
    let escaped = replace_char_chars(v.as_slice(), '\'', rep.as_slice());
    let mut out = chars_of("'");
    append_chars(&mut out, escaped.as_slice());
    append_str(&mut out, "'");
    string_of(out.as_slice())
}

/// The words of a command, each quoted, separated by spaces.
pub open spec fn spec_shell_quote_command(program: Seq<char>, args: Seq<Seq<char>>) -> Seq<char> {
    join(seq![spec_shell_quote(program)] + args.map_values(|a: Seq<char>| spec_shell_quote(a)), " "@)
}

pub fn shell_quote_command(program: &str, args: &[String]) -> (r: String)
    ensures
        r@ == spec_shell_quote_command(program@, strs_view(args@)),
{
    let mut parts: Vec<Vec<char>> = Vec::new();
    let q = shell_quote(program);
    parts.push(chars_of(q.as_str()));
    let ghost av = strs_view(args@);
    let mut i: usize = 0;
    while i < args.len()
        invariant
            i <= args@.len(),
            av == strs_view(args@),
            views(parts@) == seq![spec_shell_quote(program@)] + av.subrange(0, i as int).map_values(
                |a: Seq<char>| spec_shell_quote(a),
            ),
        decreases args.len() - i,
    {
        let ghost before = views(parts@);
        let q = shell_quote(args[i].as_str());
        parts.push(chars_of(q.as_str()));
        assert(views(parts@) =~= before.push(q@));
        assert(av.subrange(0, i + 1).map_values(|a: Seq<char>| spec_shell_quote(a))
            =~= av.subrange(0, i as int).map_values(|a: Seq<char>| spec_shell_quote(a)).push(
            spec_shell_quote(av[i as int]),
        ));
        i = i + 1;
    }
    assert(av.subrange(0, av.len() as int) =~= av);
    let sp = chars_of(" ");
    let joined = join_chars(&parts, sp.as_slice());
    string_of(joined.as_slice())
}

/// A character of a sanitized file name: ASCII letters and digits in lower
/// case, anything else a `-`.
pub open spec fn sanitize_char(c: char) -> char {
    if is_ascii_alnum(c) {
        ascii_lower(c)
    } else {
        '-'
    }
}

/// A file name made of `value`: each character sanitized, and the `-`s at
/// both ends removed.
pub open spec fn spec_sanitize_filename(value: Seq<char>) -> Seq<char> {
    trim_in(value.map_values(|c: char| sanitize_char(c)), seq!['-'])
}

pub fn sanitize_filename(value: &str) -> (r: String)
    ensures
        r@ == spec_sanitize_filename(value@),
{
    let v = chars_of(value);
    let mut mapped: Vec<char> = Vec::new();
    let mut i: usize = 0;
    while i < v.len()
        invariant
            i <= v@.len(),
            mapped@ =~= v@.subrange(0, i as int).map_values(|c: char| sanitize_char(c)),
        decreases v.len() - i,
    {
        let c = v[i];
        let m = if is_ascii_alnum_char(c) {
            ascii_lower_char(c)
        } else {
            '-'
        };
        mapped.push(m);
        i = i + 1;
    }
    assert(v@.subrange(0, v@.len() as int) =~= v@);
    let dash: Vec<char> = vec!['-'];
    assert(dash@ =~= seq!['-']);
    let t = trim_in_chars(mapped.as_slice(), dash.as_slice());
    string_of(t.as_slice())
}


/// A character that sanitizing leaves as it is.
pub open spec fn is_sanitized_char(c: char) -> bool {
    ('a' <= c && c <= 'z') || ('0' <= c && c <= '9') || c == '-'
}

proof fn lemma_trim_start_in_shape(s: Seq<char>, set: Seq<char>)
    ensures
        exists|k: int| 0 <= k <= s.len() && trim_start_in(s, set) == s.subrange(k, s.len() as int),
        trim_start_in(s, set).len() == 0 || !set.contains(trim_start_in(s, set)[0]),
    decreases s.len(),
{
    if s.len() > 0 && set.contains(s[0]) {
        lemma_trim_start_in_shape(s.drop_first(), set);
        let k = choose|k: int| 0 <= k <= s.drop_first().len() && trim_start_in(s.drop_first(), set)
            == s.drop_first().subrange(k, s.drop_first().len() as int);
        assert(s.drop_first().subrange(k, s.drop_first().len() as int) =~= s.subrange(k + 1, s.len() as int));
    } else {
        assert(s.subrange(0, s.len() as int) =~= s);
    }
}

proof fn lemma_trim_end_in_shape(s: Seq<char>, set: Seq<char>)
    ensures
        exists|k: int| 0 <= k <= s.len() && trim_end_in(s, set) == s.subrange(0, k),
        trim_end_in(s, set).len() == 0 || !set.contains(trim_end_in(s, set).last()),
    decreases s.len(),
{
    if s.len() > 0 && set.contains(s.last()) {
        lemma_trim_end_in_shape(s.drop_last(), set);
        let k = choose|k: int| 0 <= k <= s.drop_last().len() && trim_end_in(s.drop_last(), set)
            == s.drop_last().subrange(0, k);
        assert(s.drop_last().subrange(0, k) =~= s.subrange(0, k));
    } else {
        assert(s.subrange(0, s.len() as int) =~= s);
    }
}

/// Sanitizing a file name that was already sanitized changes nothing.
pub proof fn lemma_sanitize_filename_idempotent(value: Seq<char>)
    ensures
        spec_sanitize_filename(spec_sanitize_filename(value)) == spec_sanitize_filename(value),
{
    let dash = seq!['-'];
    let m = value.map_values(|c: char| sanitize_char(c));
    assert forall|i: int| 0 <= i < m.len() implies is_sanitized_char(#[trigger] m[i]) by {
        let c = value[i];
        if 'A' <= c && c <= 'Z' {
            assert(((c as u32) + 32) as char >= 'a');
            assert(((c as u32) + 32) as char <= 'z');
        }
    }
    let t = trim_start_in(m, dash);
    lemma_trim_start_in_shape(m, dash);
    let ks = choose|k: int| 0 <= k <= m.len() && t == m.subrange(k, m.len() as int);
    let y = trim_end_in(t, dash);
    lemma_trim_end_in_shape(t, dash);
    let ke = choose|k: int| 0 <= k <= t.len() && y == t.subrange(0, k);
    assert(y == spec_sanitize_filename(value));
    assert forall|i: int| 0 <= i < y.len() implies is_sanitized_char(#[trigger] y[i]) by {
        assert(y[i] == t[i]);
        assert(t[i] == m[ks + i]);
    }
    let y2 = y.map_values(|c: char| sanitize_char(c));
    assert(y2 =~= y);
    if y.len() > 0 {
        assert(y[0] == t[0]);
        assert(!dash.contains(y[0]));
        assert(trim_start_in(y, dash) == y);
        assert(!dash.contains(y.last()));
    }
    assert(trim_start_in(y, dash) == y);
    assert(trim_end_in(y, dash) == y);
}

// ---------------------------------------------------------------------------
// Command output.
// ---------------------------------------------------------------------------

/// What a command printed.
#[derive(Debug, Clone, PartialEq, Eq)]
pub struct CommandOutput {
    pub stdout: String,
    pub stderr: String,
}

/// The non-empty parts, joined by newlines.
pub open spec fn join_non_empty(a: Seq<char>, b: Seq<char>) -> Seq<char> {
    if a.len() > 0 && b.len() > 0 {
        a + "\n"@ + b
    } else if a.len() > 0 {
        a
    } else {
        b
    }
}

fn join_non_empty_chars(a: Vec<char>, b: Vec<char>) -> (r: String)
    ensures
        r@ == join_non_empty(a@, b@),
{
    if a.len() > 0 && b.len() > 0 {
        let mut out = a;
        append_str(&mut out, "\n");
        append_chars(&mut out, b.as_slice());
        string_of(out.as_slice())
    } else if a.len() > 0 {
        string_of(a.as_slice())
    } else {
        string_of(b.as_slice())
    }
}

/// The two texts, each trimmed, the blank ones left out, joined by a newline.
pub fn merge_non_empty_lines(first: &str, second: &str) -> (r: String)
    ensures
        r@ == join_non_empty(trim(first@), trim(second@)),
{
    join_non_empty_chars(trimmed(first), trimmed(second))
}

pub fn merge_stdout(first: &CommandOutput, second: &CommandOutput) -> (r: String)
    ensures
        r@ == join_non_empty(trim(first.stdout@), trim(second.stdout@)),
{
    merge_non_empty_lines(first.stdout.as_str(), second.stdout.as_str())
}

pub fn merge_stderr(first: &CommandOutput, second: &CommandOutput) -> (r: String)
    ensures
        r@ == join_non_empty(trim(first.stderr@), trim(second.stderr@)),
{
    merge_non_empty_lines(first.stderr.as_str(), second.stderr.as_str())
}

/// The outputs of two commands run one after the other: each stream with
/// trailing whitespace removed, the empty ones left out, joined by a newline.
pub fn merge_command_outputs(first: CommandOutput, second: CommandOutput) -> (r: CommandOutput)
    ensures
        r.stdout@ == join_non_empty(trim_end(first.stdout@), trim_end(second.stdout@)),
        r.stderr@ == join_non_empty(trim_end(first.stderr@), trim_end(second.stderr@)),
{
    let a = chars_of(first.stdout.as_str());
    let b = chars_of(second.stdout.as_str());
    let c = chars_of(first.stderr.as_str());
    let d = chars_of(second.stderr.as_str());
    let stdout = join_non_empty_chars(trim_end_chars(a.as_slice()), trim_end_chars(b.as_slice()));
    let stderr = join_non_empty_chars(trim_end_chars(c.as_slice()), trim_end_chars(d.as_slice()));
    CommandOutput { stdout, stderr }
}

/// An exit code as `Display` writes it.
pub open spec fn exit_code_text(code: i32) -> Seq<char> {
    if code < 0 {
        seq!['-'] + decimal((-code) as nat)
    } else {
        decimal(code as nat)
    }
}

/// The message of a command that failed: its label, its exit status (or
/// `signal` where it has none), and the first non-blank of its trimmed
/// stderr and stdout.
pub open spec fn spec_command_failure_message(
    command_label: Seq<char>,
    exit_code: Option<i32>,
    stdout: Seq<char>,
    stderr: Seq<char>,
) -> Seq<char> {
    let status = match exit_code {
        Some(c) => exit_code_text(c),
        None => "signal"@,
    };
    let detail = if trim(stderr).len() > 0 {
        trim(stderr)
    } else if trim(stdout).len() > 0 {
        trim(stdout)
    } else {
        "no stdout/stderr captured"@
    };
    command_label + " failed with exit status "@ + status + ": "@ + detail
}

pub fn command_failure_message(command_label: &str, exit_code: Option<i32>, stdout: &str, stderr: &str) -> (r:
    String)
    ensures
        r@ == spec_command_failure_message(command_label@, exit_code, stdout@, stderr@),
{
    let mut v = chars_of(command_label);
    append_str(&mut v, " failed with exit status ");
    match exit_code {
        Some(c) => {
            if c < 0 {
                v.push('-');
                let magnitude: i64 = -(c as i64);
                push_decimal(&mut v, magnitude as u64);
            } else {
                push_decimal(&mut v, c as u64);
            }
        },
        None => append_str(&mut v, "signal"),
    }
    append_str(&mut v, ": ");
    let e = trimmed(stderr);
    let o = trimmed(stdout);
    if e.len() > 0 {
        append_chars(&mut v, e.as_slice());
    } else if o.len() > 0 {
        append_chars(&mut v, o.as_slice());
    } else {
        append_str(&mut v, "no stdout/stderr captured");
    }
    let r = string_of(v.as_slice());
    assert(r@ =~= spec_command_failure_message(command_label@, exit_code, stdout@, stderr@));
    r
}

// ---------------------------------------------------------------------------
// Dumping the UI hierarchy.
// ---------------------------------------------------------------------------

/// The shell script that dumps the hierarchy to `remote_path`, prints it
/// and removes the file on exit.
pub open spec fn spec_ui_dump_script(remote_path: Seq<char>) -> Seq<char> {
    "remote="@ + spec_shell_quote(remote_path)
        + "; trap 'rm -f \"$remote\"' EXIT; uiautomator dump \"$remote\" >/dev/null && cat \"$remote\""@
}

pub fn ui_dump_shell_stream_script(remote_path: &str) -> (r: String)
    ensures
        r@ == spec_ui_dump_script(remote_path@),
{
    let q = shell_quote(remote_path);
    let mut out = chars_of("remote=");
    append_str(&mut out, q.as_str());
    append_str(
        &mut out,
        "; trap 'rm -f \"$remote\"' EXIT; uiautomator dump \"$remote\" >/dev/null && cat \"$remote\"",
    );
    string_of(out.as_slice())
}

/// The hierarchy document in what `uiautomator dump` printed: from the XML
/// declaration (or, without one, the `<hierarchy` tag) to the last
/// `</hierarchy>`, trimmed; none when either end is missing, they are out of
/// order, or nothing is left.
pub open spec fn spec_extract_hierarchy(output: Seq<char>) -> Option<Seq<char>> {
    let start = match first_occurrence(output, "<?xml"@) {
        Some(i) => Some(i),
        None => first_occurrence(output, "<hierarchy"@),
    };
    match (start, last_occurrence(output, "</hierarchy>"@)) {
        (Some(a), Some(e)) => {
            let end = e + "</hierarchy>"@.len();
            if a <= end && trim(output.subrange(a, end)).len() > 0 {
                Some(trim(output.subrange(a, end)))
            } else {
                None
            }
        },
        _ => None,
    }
}

#[verifier::spinoff_prover]
pub fn extract_uiautomator_hierarchy_xml(output: &str) -> (r: Option<String>)
    ensures
        opt_view(r) == spec_extract_hierarchy(output@),
{
    let ov = chars_of(output);
    let decl = chars_of("<?xml");
    let tag = chars_of("<hierarchy");
    let close = chars_of("</hierarchy>");
    let ghost s = output@;
    let ghost start_spec = match first_occurrence(s, "<?xml"@) {
        Some(i) => Some(i),
        None => first_occurrence(s, "<hierarchy"@),
    };
    let start = match find_first_occurrence(ov.as_slice(), decl.as_slice()) {
        Some(i) => Some(i),
        None => find_first_occurrence(ov.as_slice(), tag.as_slice()),
    };
    assert(match start {
        Some(i) => start_spec == Some(i as int) && i <= s.len(),
        None => start_spec is None,
    });
    let start = match start {
        Some(i) => i,
        None => {
            return None;
        },
    };
    let found = find_last_occurrence(ov.as_slice(), close.as_slice());
    let end = match found {
        Some(e) => {
            assert(last_occurrence(s, "</hierarchy>"@) == Some(e as int));
            assert(e + close@.len() <= ov@.len());
            e + close.len()
        },
        None => {
            assert(last_occurrence(s, "</hierarchy>"@) is None);
            return None;
        },
    };
    assert(last_occurrence(s, "</hierarchy>"@) == Some(end - "</hierarchy>"@.len()));
    if start > end {
        return None;
    }
    let piece = slice_range(ov.as_slice(), start, end);
    assert(piece@ == s.subrange(start as int, end as int));
    let t = trim_chars(piece.as_slice());
    if t.len() > 0 {
        Some(string_of(t.as_slice()))
    } else {
        None
    }
}

// ---------------------------------------------------------------------------
// The display size.
// ---------------------------------------------------------------------------

/// `WIDTHxHEIGHT`, each side trimmed and read as a `u32`.
pub open spec fn spec_display_dimensions(raw: Seq<char>) -> Option<(u32, u32)> {
    match split_once_char(raw, 'x') {
        Some((w, h)) => match (parse_unsigned(trim(w), u32::MAX as nat), parse_unsigned(trim(h), u32::MAX as nat)) {
            (Some(a), Some(b)) => Some((a as u32, b as u32)),
            _ => None,
        },
        None => None,
    }
}

fn parse_display_dimensions_chars(raw: &[char]) -> (r: Option<(u32, u32)>)
    ensures
        r == spec_display_dimensions(raw@),
{
    match split_once_chars(raw, 'x') {
        Some((w, h)) => {
            let wt = trim_chars(w.as_slice());
            let ht = trim_chars(h.as_slice());
            match (parse_u32(wt.as_slice()), parse_u32(ht.as_slice())) {
                (Some(a), Some(b)) => Some((a, b)),
                _ => None,
            }
        },
        None => None,
    }
}

pub fn parse_display_dimensions(raw: &str) -> (r: Option<(u32, u32)>)
    ensures
        r == spec_display_dimensions(raw@),
{
    let v = chars_of(raw);
    parse_display_dimensions_chars(v.as_slice())
}

/// The text after `prefix` when `line` starts with it.
pub open spec fn strip_prefix(line: Seq<char>, prefix: Seq<char>) -> Option<Seq<char>> {
    if starts_with(line, prefix) {
        Some(line.skip(prefix.len() as int))
    } else {
        None
    }
}

/// The first size over the lines that `f` reads.
pub open spec fn first_size(ls: Seq<Seq<char>>, f: spec_fn(Seq<char>) -> Option<(u32, u32)>) -> Option<
    (u32, u32),
>
    decreases ls.len(),
{
    if ls.len() == 0 {
        None
    } else {
        match f(ls[0]) {
            Some(d) => Some(d),
            None => first_size(ls.drop_first(), f),
        }
    }
}

/// The override size of a line of `wm size`.
pub open spec fn override_size(line: Seq<char>) -> Option<(u32, u32)> {
    match strip_prefix(trim(line), "Override size:"@) {
        Some(rest) => spec_display_dimensions(trim(rest)),
        None => None,
    }
}

/// The physical size of a line of `wm size`, or the line itself read as a
/// size.
pub open spec fn physical_size(line: Seq<char>) -> Option<(u32, u32)> {
    match strip_prefix(trim(line), "Physical size:"@) {
        Some(rest) => spec_display_dimensions(trim(rest)),
        None => spec_display_dimensions(trim(line)),
    }
}

/// The display size that `wm size` reports: the first override size, else
/// the first physical size (or bare size).
pub open spec fn spec_display_size(output: Seq<char>) -> Option<(u32, u32)> {
    match first_size(lines(output), |l: Seq<char>| override_size(l)) {
        Some(d) => Some(d),
        None => first_size(lines(output), |l: Seq<char>| physical_size(l)),
    }
}

fn size_of_line(line: &[char], physical: bool) -> (r: Option<(u32, u32)>)
    ensures
        physical ==> r == physical_size(line@),
        !physical ==> r == override_size(line@),
{
    let t = trim_chars(line);
    let prefix = if physical {
        chars_of("Physical size:")
    } else {
        chars_of("Override size:")
    };
    if occurs_at_exec(t.as_slice(), prefix.as_slice(), 0) {
        let rest = slice_range(t.as_slice(), prefix.len(), t.len());
        assert(rest@ =~= t@.skip(prefix@.len() as int));
        let rt = trim_chars(rest.as_slice());
        parse_display_dimensions_chars(rt.as_slice())
    } else if physical {
        parse_display_dimensions_chars(t.as_slice())
    } else {
        None
    }
}

fn first_size_exec(ls: &Vec<Vec<char>>, physical: bool) -> (r: Option<(u32, u32)>)
    ensures
        physical ==> r == first_size(views(ls@), |l: Seq<char>| physical_size(l)),
        !physical ==> r == first_size(views(ls@), |l: Seq<char>| override_size(l)),
{
    let ghost f = if physical {
        |l: Seq<char>| physical_size(l)
    } else {
        |l: Seq<char>| override_size(l)
    };
    let ghost lv = views(ls@);
    assert(lv.subrange(0, lv.len() as int) =~= lv);
    let mut i: usize = 0;
    while i < ls.len()
        invariant
            i <= ls@.len(),
            lv == views(ls@),
            f == (if physical {
                |l: Seq<char>| physical_size(l)
            } else {
                |l: Seq<char>| override_size(l)
            }),
            first_size(lv.subrange(i as int, lv.len() as int), f) == first_size(lv, f),
        decreases ls.len() - i,
    {
        let ghost rest = lv.subrange(i as int, lv.len() as int);
        assert(rest[0] == ls@[i as int]@);
        let d = size_of_line(ls[i].as_slice(), physical);
        if d.is_some() {
            return d;
        }
        assert(rest.drop_first() =~= lv.subrange(i + 1, lv.len() as int));
        i = i + 1;
    }
    assert(lv.subrange(i as int, lv.len() as int) =~= Seq::<Seq<char>>::empty());
    None
}

pub fn parse_display_size(output: &str) -> (r: Option<(u32, u32)>)
    ensures
        r == spec_display_size(output@),
{
    let ov = chars_of(output);
    let ls = lines_of(ov.as_slice());
    match first_size_exec(&ls, false) {
        Some(d) => Some(d),
        None => first_size_exec(&ls, true),
    }
}

/// The display size that `wm size` printed, or the error that quotes the
/// output, trimmed.
pub fn display_size_from_output(output: &str) -> (r: Result<(u32, u32), McpError>)
    ensures
        match spec_display_size(output@) {
            Some(d) => r == Ok::<(u32, u32), McpError>(d),
            None => r matches Err(e) && e.kind == ErrorKind::InternalError && e.message@
                == "failed to parse display size from `wm size`: "@ + trim(output@),
        },
{
    match parse_display_size(output) {
        Some(d) => Ok(d),
        None => {
            let mut v = chars_of("failed to parse display size from `wm size`: ");
            let t = trimmed(output);
            append_chars(&mut v, t.as_slice());
            Err(McpError::internal_error(string_of(v.as_slice())))
        },
    }
}


// ---------------------------------------------------------------------------
// Retrying over adb.
// ---------------------------------------------------------------------------

/// A verified gRPC tap that did not take effect is retried over adb, when
/// retries are allowed.
pub open spec fn spec_retry_tap(backend: Seq<char>, retry: bool, v: TapVerification) -> bool {
    v.requested && !v.satisfied && retry && backend == "grpc"@
}

pub fn should_retry_tap_with_adb(
    backend: &str,
    retry_with_adb_on_no_change: bool,
    verification: &TapVerification,
) -> (r: bool)
    ensures
        r == spec_retry_tap(backend@, retry_with_adb_on_no_change, *verification),
{
    verification.requested && !verification.satisfied && retry_with_adb_on_no_change && str_eq(
        backend,
        "grpc",
    )
}

/// A verified gRPC text dispatch is retried over adb, when retries are
/// allowed, only if it did not take effect, nothing relevant changed and
/// the target does not already show the text.
pub open spec fn spec_retry_text(backend: Seq<char>, retry: bool, v: TextVerification) -> bool {
    &&& v.requested && !v.satisfied && retry && backend == "grpc"@
    &&& v.ui_changed_from_pre_text == Some(false)
    &&& v.target_text_matches_requested != Some(true)
}

pub fn should_retry_text_with_adb(
    backend: &str,
    retry_with_adb_on_no_change: bool,
    verification: &TextVerification,
) -> (r: bool)
    ensures
        r == spec_retry_text(backend@, retry_with_adb_on_no_change, *verification),
{
    let unchanged = match verification.ui_changed_from_pre_text {
        Some(b) => !b,
        None => false,
    };
    let matched = match verification.target_text_matches_requested {
        Some(b) => b,
        None => false,
    };
    verification.requested && !verification.satisfied && retry_with_adb_on_no_change && str_eq(
        backend,
        "grpc",
    ) && unchanged && !matched
}

/// The text that the `Debug` impl which `derive` wrote for
/// `AndroidWindowState` gives for a window state with these optional texts
/// (current focus, focused app, resumed activity, input method target) and
/// input-method visibility.
pub uninterp spec fn window_state_debug_text(texts: Seq<Option<Seq<char>>>, input_method_visible: bool) -> Seq<char>;

/// The optional texts of a window state, in field order.
pub open spec fn window_state_texts(ws: AndroidWindowState) -> Seq<Option<Seq<char>>> {
    seq![
        opt_view(ws.current_focus),
        opt_view(ws.focused_app),
        opt_view(ws.resumed_activity),
        opt_view(ws.input_method_target),
    ]
}

/// `format!("{:?}", window_state)`. Claimed: the text is a function of the
/// window state's fields, named `window_state_debug_text`.
#[verifier::external_body]
fn window_state_debug(window_state: &AndroidWindowState) -> (r: String)
    ensures
        r@ == window_state_debug_text(window_state_texts(*window_state), window_state.input_method_visible),
{
    format!("{:?}", window_state)
}

/// The fingerprint of an observation: the hierarchy, a newline, and the
/// window state as `Debug` writes it.
pub fn ui_observation_fingerprint(hierarchy_xml: &str, window_state: &AndroidWindowState) -> (r:
    String)
    ensures
        r@ == hierarchy_xml@ + "\n"@ + window_state_debug_text(
            window_state_texts(*window_state),
            window_state.input_method_visible,
        ),
{
    let d = window_state_debug(window_state);
    let mut v = chars_of(hierarchy_xml);
    append_str(&mut v, "\n");
    append_str(&mut v, d.as_str());
    let r = string_of(v.as_slice());
    assert(r@ == hierarchy_xml@ + "\n"@ + d@);
    r
}

// ---------------------------------------------------------------------------
// Errors of adb commands.
// ---------------------------------------------------------------------------

/// The command ran out of time.
pub open spec fn spec_is_timeout(message: Seq<char>) -> bool {
    contains(message, "timed out after"@)
}

pub fn is_command_timeout_error(error: &McpError) -> (r: bool)
    ensures
        r == spec_is_timeout(error.message@),
{
    let m = chars_of(error.message.as_str());
    contains_str(m.as_slice(), "timed out after")
}

/// A timeout of a hierarchy capture that the deadline cut short.
pub open spec fn spec_is_observation_timeout(message: Seq<char>) -> bool {
    spec_is_timeout(message) && (contains(message, "exec-out uiautomator dump /dev/tty"@)
        || contains(message, " shell uiautomator dump "@) || (contains(message, " pull "@)
        && contains(message, "window-dump"@)))
}

pub fn is_deadline_limited_observation_timeout(error: &McpError) -> (r: bool)
    ensures
        r == spec_is_observation_timeout(error.message@),
{
    if !is_command_timeout_error(error) {
        return false;
    }
    let m = chars_of(error.message.as_str());
    contains_str(m.as_slice(), "exec-out uiautomator dump /dev/tty") || contains_str(
        m.as_slice(),
        " shell uiautomator dump ",
    ) || (contains_str(m.as_slice(), " pull ") && contains_str(m.as_slice(), "window-dump"))
}

/// The dump file was not there (yet) when it was pulled.
pub open spec fn spec_retry_pull(message: Seq<char>) -> bool {
    contains(message, "failed to stat remote object"@) || contains(message, "No such file or directory"@)
}

pub fn should_retry_ui_dump_pull(error: &McpError) -> (r: bool)
    ensures
        r == spec_retry_pull(error.message@),
{
    let m = chars_of(error.message.as_str());
    contains_str(m.as_slice(), "failed to stat remote object") || contains_str(
        m.as_slice(),
        "No such file or directory",
    )
}

/// The error of a failed hierarchy capture: a retry hint when either path
/// lost the dump file, else the pull error, else the stream error, else a
/// generic one.
pub fn ui_hierarchy_capture_error(pull_error: Option<McpError>, stream_error: Option<McpError>) -> (r:
    McpError)
    ensures
        ({
            let lost = (pull_error matches Some(e) && spec_retry_pull(e.message@)) || (
            stream_error matches Some(e) && spec_retry_pull(e.message@));
            if lost {
                r.kind == ErrorKind::InternalError && r.message@
                    == "UI hierarchy capture was unavailable after atomic stream and legacy retry paths; retry observation"@
            } else {
                match pull_error {
                    Some(e) => r.kind == e.kind && r.message@ == e.message@,
                    None => match stream_error {
                        Some(e) => r.kind == e.kind && r.message@ == e.message@,
                        None => r.kind == ErrorKind::InternalError && r.message@
                            == "UI hierarchy capture failed without a captured adb error"@,
                    },
                }
            }
        }),
{
    let pull_lost = match &pull_error {
        Some(e) => should_retry_ui_dump_pull(e),
        None => false,
    };
    let stream_lost = match &stream_error {
        Some(e) => should_retry_ui_dump_pull(e),
        None => false,
    };
    if pull_lost || stream_lost {
        return McpError::internal_error(
            owned(
                "UI hierarchy capture was unavailable after atomic stream and legacy retry paths; retry observation",
            ),
        );
    }
    match pull_error {
        Some(e) => e,
        None => match stream_error {
            Some(e) => e,
            None => McpError::internal_error(
                owned("UI hierarchy capture failed without a captured adb error"),
            ),
        },
    }
}


/// `exec-out uiautomator dump` is not supported on the device (it fails in
/// a way that the legacy dump path avoids).
pub open spec fn spec_exec_out_unsupported(message: Seq<char>) -> bool {
    let m = unicode_lower(message);
    contains(m, "inaccessible or not found"@) || contains(m, "unknown command"@) || contains(
        m,
        "usage: uiautomator"@,
    ) || contains(m, "killed"@) || contains(m, "closed"@)
}

pub fn is_exec_out_uiautomator_supported_failure(error: &McpError) -> (r: bool)
    ensures
        r == spec_exec_out_unsupported(error.message@),
{
    let lowered = to_lowercase(error.message.as_str());
    let m = chars_of(lowered.as_str());
    contains_str(m.as_slice(), "inaccessible or not found") || contains_str(
        m.as_slice(),
        "unknown command",
    ) || contains_str(m.as_slice(), "usage: uiautomator") || contains_str(m.as_slice(), "killed")
        || contains_str(m.as_slice(), "closed")
}

// ---------------------------------------------------------------------------
// URLs to open.
// ---------------------------------------------------------------------------

/// The trimmed URL when it may be opened: an `http://` or `https://` URL in
/// any ASCII case, or any URL when unsafe schemes are allowed.
pub open spec fn spec_safe_url(value: Seq<char>, allow_unsafe: bool) -> Result<Seq<char>, Seq<char>> {
    let url = trim(value);
    if url.len() == 0 {
        Err("url must not be empty"@)
    } else if starts_with(lower(url), "http://"@) || starts_with(lower(url), "https://"@) {
        Ok(url)
    } else if allow_unsafe {
        Ok(url)
    } else {
        Err(
            "android.open_url only allows http:// and https:// URLs by default; set ANDROID_COMPUTER_USE_MCP_ALLOW_UNSAFE_URLS=1 to allow other schemes"@,
        )
    }
}

/// `allow_unsafe` is whether `ANDROID_COMPUTER_USE_MCP_ALLOW_UNSAFE_URLS`
/// is `1`.
pub fn normalize_safe_android_url(value: &str, allow_unsafe: bool) -> (r: Result<String, McpError>)
    ensures
        match spec_safe_url(value@, allow_unsafe) {
            Ok(u) => r matches Ok(s) && s@ == u,
            Err(m) => r matches Err(e) && e.kind == ErrorKind::InvalidParams && e.message@ == m,
        },
{
    let url = trimmed(value);
    if url.len() == 0 {
        return Err(McpError::invalid_params(owned("url must not be empty")));
    }
    let l = lower_chars(url.as_slice());
    if starts_with_str(l.as_slice(), "http://") || starts_with_str(l.as_slice(), "https://") {
        return Ok(string_of(url.as_slice()));
    }
    if allow_unsafe {
        return Ok(string_of(url.as_slice()));
    }
    Err(
        McpError::invalid_params(
            owned(
                "android.open_url only allows http:// and https:// URLs by default; set ANDROID_COMPUTER_USE_MCP_ALLOW_UNSAFE_URLS=1 to allow other schemes",
            ),
        ),
    )
}


/// The value that a POSIX shell reads from a word made of quoted segments,
/// reading from the left; `open` is the quote character of the segment being
/// read. Inside single quotes every character stands for itself; inside
/// double quotes every character but `\`, `$` and a backquote does (those are
/// left unread here). Unquoted characters are left unread.
pub open spec fn shell_read(w: Seq<char>, open: Option<char>) -> Option<Seq<char>>
    decreases w.len(),
{
    if w.len() == 0 {
        if open is None {
            Some(Seq::empty())
        } else {
            None
        }
    } else {
        match open {
            None => if w[0] == '\'' || w[0] == '"' {
                shell_read(w.drop_first(), Some(w[0]))
            } else {
                None
            },
            Some(q) => if w[0] == q {
                shell_read(w.drop_first(), None)
            } else if q == '"' && (w[0] == '\\' || w[0] == '$' || w[0] == '`') {
                None
            } else {
                match shell_read(w.drop_first(), open) {
                    Some(v) => Some(seq![w[0]] + v),
                    None => None,
                }
            },
        }
    }
}

proof fn lemma_shell_read_quoted_tail(s: Seq<char>)
    ensures
        shell_read(replace_char(s, '\'', "'\"'\"'"@) + "'"@, Some('\'')) == Some(s),
    decreases s.len(),
{
    reveal_strlit("'");
    reveal_strlit("'\"'\"'");
    let rep = "'\"'\"'"@;
    if s.len() == 0 {
        assert(replace_char(s, '\'', rep) + "'"@ =~= seq!['\'']);
        assert(seq!['\''].drop_first() =~= Seq::<char>::empty());
        assert(s =~= Seq::<char>::empty());
        assert(shell_read(Seq::<char>::empty(), None) == Some(Seq::<char>::empty()));
        assert(shell_read(seq!['\''], Some('\'')) == shell_read(Seq::<char>::empty(), None));
    } else {
        let x = s[0];
        let rest = s.drop_first();
        assert(s =~= seq![x] + rest);
        lemma_replace_char_concat(seq![x], rest, '\'', rep);
        assert(seq![x].drop_last() =~= Seq::<char>::empty());
        lemma_shell_read_quoted_tail(rest);
        let tail = replace_char(rest, '\'', rep) + "'"@;
        assert(replace_char(Seq::<char>::empty(), '\'', rep) == Seq::<char>::empty());
        if x == '\'' {
            assert(replace_char(seq![x], '\'', rep) =~= rep);
            let w = rep + tail;
            assert(w[0] == '\'');
            let w1 = w.drop_first();
            assert(w1[0] == '"');
            let w2 = w1.drop_first();
            assert(w2[0] == '\'');
            let w3 = w2.drop_first();
            assert(w3[0] == '"');
            let w4 = w3.drop_first();
            assert(w4[0] == '\'');
            let w5 = w4.drop_first();
            assert(w5 =~= tail);
            assert(shell_read(w4, None) == shell_read(w5, Some('\'')));
            assert(shell_read(w3, Some('"')) == shell_read(w4, None));
            assert(shell_read(w2, Some('"')) == Some(seq!['\''] + rest));
            assert(shell_read(w1, None) == shell_read(w2, Some('"')));
            assert(shell_read(w, Some('\'')) == shell_read(w1, None));
            assert(seq!['\''] + rest =~= s);
            assert(replace_char(s, '\'', rep) + "'"@ =~= w);
        } else {
            assert(replace_char(seq![x], '\'', rep) =~= seq![x]);
            let w = seq![x] + tail;
            assert(w.drop_first() =~= tail);
            assert(w[0] == x);
            assert(shell_read(w, Some('\'')) == Some(seq![x] + rest));
            assert(replace_char(s, '\'', rep) + "'"@ =~= w);
        }
    }
}

/// A quoted word reads back as the value that was quoted: the shell sees
/// exactly `value`, whatever metacharacters it holds.
pub proof fn lemma_shell_quote_round_trip(value: Seq<char>)
    ensures
        shell_read(spec_shell_quote(value), None) == Some(value),
{
    reveal_strlit("''");
    reveal_strlit("'");
    if value.len() == 0 {
        let w = "''"@;
        assert(w.drop_first().drop_first() =~= Seq::<char>::empty());
        assert(value =~= Seq::<char>::empty());
        assert(shell_read(w.drop_first().drop_first(), None) == Some(Seq::<char>::empty()));
        assert(shell_read(w.drop_first(), Some('\'')) == shell_read(w.drop_first().drop_first(), None));
        assert(shell_read(w, None) == shell_read(w.drop_first(), Some('\'')));
    } else {
        let w = spec_shell_quote(value);
        lemma_shell_read_quoted_tail(value);
        assert(w =~= "'"@ + (replace_char(value, '\'', "'\"'\"'"@) + "'"@));
        assert(w[0] == '\'');
        assert(w.drop_first() =~= replace_char(value, '\'', "'\"'\"'"@) + "'"@);
        assert(shell_read(w, None) == shell_read(w.drop_first(), Some('\'')));
    }
}

} // verus!
