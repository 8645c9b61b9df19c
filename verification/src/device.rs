//! Checking what a tool asks of the device: package names, orientation,
//! scroll and multi-touch gestures.
use vstd::prelude::*;
use crate::error::{ErrorKind, McpError, owned};
use crate::text::{append_chars, append_str, chars_of, contains, decimal, is_ascii_alnum, is_ascii_alnum_char, is_white, lines, lines_of, lower, lower_chars, occurs_at_exec, push_decimal, replace_char, replace_char_chars, slice_range, starts_with, str_eq_chars, string_of, trim, trim_chars, trim_end, trim_start, trimmed, views};
use crate::ui::{opt_view, strs_view};

verus! {

// ---------------------------------------------------------------------------
// Package names.
// ---------------------------------------------------------------------------

/// A character an Android package name may hold.
pub open spec fn package_char(c: char) -> bool {
    is_ascii_alnum(c) || c == '_' || c == '.'
}

/// The trimmed package name, or why it is refused.
pub open spec fn spec_package_name(value: Seq<char>) -> Result<Seq<char>, Seq<char>> {
    let p = trim(value);
    if p.len() == 0 {
        Err("package_name must not be empty"@)
    } else if !(forall|i: int| 0 <= i < p.len() ==> package_char(#[trigger] p[i])) {
        Err("invalid Android package name: "@ + p)
    } else {
        Ok(p)
    }
}

pub fn normalize_android_package_name(value: &str) -> (r: Result<String, McpError>)
    ensures
        match spec_package_name(value@) {
            Ok(p) => r matches Ok(s) && s@ == p,
            Err(m) => r matches Err(e) && e.kind == ErrorKind::InvalidParams && e.message@ == m,
        },
{
    let p = trimmed(value);
    if p.len() == 0 {
        return Err(McpError::invalid_params(owned("package_name must not be empty")));
    }
    let mut i: usize = 0;
    while i < p.len()
        invariant
            i <= p@.len(),
            p@ == trim(value@),
            p@.len() > 0,
            forall|k: int| 0 <= k < i ==> package_char(#[trigger] p@[k]),
        decreases p.len() - i,
    {
        let c = p[i];
        if !(is_ascii_alnum_char(c) || c == '_' || c == '.') {
            assert(!package_char(p@[i as int]));
            assert(spec_package_name(value@) == Err::<Seq<char>, Seq<char>>(
                "invalid Android package name: "@ + p@,
            ));
            let mut m = chars_of("invalid Android package name: ");
            append_chars(&mut m, p.as_slice());
            let e = McpError::invalid_params(string_of(m.as_slice()));
            assert(e.message@ == "invalid Android package name: "@ + p@);
            return Err(e);
        }
        i = i + 1;
    }
    Ok(string_of(p.as_slice()))
}

/// The text after `prefix` on each trimmed line that starts with it, in order.
pub open spec fn prefixed_values(ls: Seq<Seq<char>>, prefix: Seq<char>) -> Seq<Seq<char>>
    decreases ls.len(),
{
    if ls.len() == 0 {
        Seq::<Seq<char>>::empty()
    } else {
        let rest = prefixed_values(ls.drop_last(), prefix);
        let t = trim(ls.last());
        if starts_with(t, prefix) {
            rest.push(t.skip(prefix.len() as int))
        } else {
            rest
        }
    }
}

/// The non-empty ones, in order.
pub open spec fn non_empty(vs: Seq<Seq<char>>) -> Seq<Seq<char>>
    decreases vs.len(),
{
    if vs.len() == 0 {
        vs
    } else if vs.last().len() > 0 {
        non_empty(vs.drop_last()).push(vs.last())
    } else {
        non_empty(vs.drop_last())
    }
}

/// The values without repeats, each kept where it first occurs.
pub open spec fn first_occurrences(vs: Seq<Seq<char>>) -> Seq<Seq<char>>
    decreases vs.len(),
{
    if vs.len() == 0 {
        vs
    } else {
        let rest = first_occurrences(vs.drop_last());
        if rest.contains(vs.last()) {
            rest
        } else {
            rest.push(vs.last())
        }
    }
}

fn prefixed_values_exec(output: &str, prefix: &str) -> (r: Vec<Vec<char>>)
    ensures
        views(r@) == prefixed_values(lines(output@), prefix@),
{
    let ov = chars_of(output);
    let ls = lines_of(ov.as_slice());
    let pv = chars_of(prefix);
    let ghost lv = views(ls@);
    let mut r: Vec<Vec<char>> = Vec::new();
    let mut i: usize = 0;
    while i < ls.len()
        invariant
            i <= ls@.len(),
            lv == views(ls@),
            lv == lines(output@),
            pv@ == prefix@,
            views(r@) == prefixed_values(lv.subrange(0, i as int), prefix@),
        decreases ls.len() - i,
    {
        let ghost pre = lv.subrange(0, i as int);
        let ghost next = lv.subrange(0, i + 1);
        assert(next.drop_last() =~= pre);
        assert(next.last() == ls@[i as int]@);
        let t = trim_chars(ls[i].as_slice());
        if occurs_at_exec(t.as_slice(), pv.as_slice(), 0) {
            let v = slice_range(t.as_slice(), pv.len(), t.len());
            assert(v@ =~= t@.skip(prefix@.len() as int));
            let ghost before = views(r@);
            r.push(v);
            assert(views(r@) =~= before.push(v@));
        }
        i = i + 1;
    }
    assert(lv.subrange(0, lv.len() as int) =~= lv);
    r
}

/// Removing repeats keeps every value once: no value occurs twice, every
/// value is kept, and nothing else appears; each keeps the place where it
/// first occurred.
pub proof fn lemma_first_occurrences_distinct(vs: Seq<Seq<char>>)
    ensures
        forall|i: int, j: int|
            0 <= i < j < first_occurrences(vs).len() ==> #[trigger] first_occurrences(vs)[i]
                != #[trigger] first_occurrences(vs)[j],
        forall|x: Seq<char>| #[trigger] first_occurrences(vs).contains(x) <==> vs.contains(x),
    decreases vs.len(),
{
    if vs.len() > 0 {
        let p = vs.drop_last();
        lemma_first_occurrences_distinct(p);
        let rest = first_occurrences(p);
        assert forall|x: Seq<char>| #[trigger] vs.contains(x) <==> (p.contains(x) || x == vs.last()) by {
            if vs.contains(x) {
                let k = choose|k: int| 0 <= k < vs.len() && vs[k] == x;
                if k < vs.len() - 1 {
                    assert(p[k] == x);
                }
            }
            if p.contains(x) {
                let k = choose|k: int| 0 <= k < p.len() && p[k] == x;
                assert(vs[k] == x);
            }
            if x == vs.last() {
                assert(vs[vs.len() - 1] == x);
            }
        }
        if !rest.contains(vs.last()) {
            let out = rest.push(vs.last());
            assert forall|x: Seq<char>| #[trigger] out.contains(x) <==> (rest.contains(x) || x == vs.last()) by {
                if out.contains(x) {
                    let k = choose|k: int| 0 <= k < out.len() && out[k] == x;
                    if k < rest.len() {
                        assert(rest[k] == x);
                    }
                }
                if rest.contains(x) {
                    let k = choose|k: int| 0 <= k < rest.len() && rest[k] == x;
                    assert(out[k] == x);
                }
                if x == vs.last() {
                    assert(out[out.len() - 1] == x);
                }
            }
            assert forall|i: int, j: int| 0 <= i < j < out.len() implies #[trigger] out[i] != #[trigger] out[j] by {
                if j == out.len() - 1 {
                    assert(out[i] == rest[i]);
                    assert(rest.contains(rest[i]));
                } else {
                    assert(out[i] == rest[i] && out[j] == rest[j]);
                }
            }
        }
    }
}

/// Launcher packages are listed without repeats.
pub proof fn lemma_launcher_packages_distinct(output: Seq<char>)
    ensures
        forall|i: int, j: int|
            0 <= i < j < spec_launcher_packages(output).len() ==> #[trigger] spec_launcher_packages(output)[i]
                != #[trigger] spec_launcher_packages(output)[j],
{
    lemma_first_occurrences_distinct(non_empty(prefixed_values(lines(output), "packageName="@)));
}

/// The packages that `cmd package query-activities` lists, each once, in
/// the order first seen.
pub open spec fn spec_launcher_packages(output: Seq<char>) -> Seq<Seq<char>> {
    first_occurrences(non_empty(prefixed_values(lines(output), "packageName="@)))
}

pub fn parse_launcher_package_names(output: &str) -> (r: Vec<String>)
    ensures
        strs_view(r@) == spec_launcher_packages(output@),
{
    let vs = prefixed_values_exec(output, "packageName=");
    let ghost all = views(vs@);
    let mut r: Vec<String> = Vec::new();
    let mut i: usize = 0;
    while i < vs.len()
        invariant
            i <= vs@.len(),
            all == views(vs@),
            strs_view(r@) == first_occurrences(non_empty(all.subrange(0, i as int))),
        decreases vs.len() - i,
    {
        let ghost pre = all.subrange(0, i as int);
        let ghost next = all.subrange(0, i + 1);
        assert(next.drop_last() =~= pre);
        assert(next.last() == vs@[i as int]@);
        if vs[i].len() > 0 {
            let ghost seen = strs_view(r@);
            let mut found = false;
            let mut k: usize = 0;
            while k < r.len()
                invariant
                    k <= r@.len(),
                    i < vs@.len(),
                    seen == strs_view(r@),
                    seen == first_occurrences(non_empty(pre)),
                    all == views(vs@),
                    pre == all.subrange(0, i as int),
                    next == all.subrange(0, i + 1),
                    found == (exists|j: int| 0 <= j < k && seen[j] == vs@[i as int]@),
                decreases r.len() - k,
            {
                assert(seen[k as int] == r@[k as int]@);
                if str_eq_chars(r[k].as_str(), vs[i].as_slice()) {
                    found = true;
                }
                k = k + 1;
            }
            proof {
                if seen.contains(vs@[i as int]@) {
                    let j = choose|j: int| 0 <= j < seen.len() && seen[j] == vs@[i as int]@;
                    assert(found);
                }
            }
            assert(non_empty(next) == non_empty(pre).push(vs@[i as int]@));
            assert(non_empty(pre).push(vs@[i as int]@).drop_last() =~= non_empty(pre));
            if !found {
                assert(!seen.contains(vs@[i as int]@));
                r.push(string_of(vs[i].as_slice()));
                assert(strs_view(r@) =~= seen.push(vs@[i as int]@));
            } else {
                assert(seen.contains(vs@[i as int]@));
            }
        } else {
            assert(non_empty(next) == non_empty(pre));
        }
        i = i + 1;
    }
    assert(all.subrange(0, all.len() as int) =~= all);
    r
}

/// The packages that `pm list packages` lists, in order.
pub open spec fn spec_pm_packages(output: Seq<char>) -> Seq<Seq<char>> {
    non_empty(prefixed_values(lines(output), "package:"@))
}

pub fn parse_pm_package_names(output: &str) -> (r: Vec<String>)
    ensures
        strs_view(r@) == spec_pm_packages(output@),
{
    let vs = prefixed_values_exec(output, "package:");
    let ghost all = views(vs@);
    let mut r: Vec<String> = Vec::new();
    let mut i: usize = 0;
    while i < vs.len()
        invariant
            i <= vs@.len(),
            all == views(vs@),
            strs_view(r@) == non_empty(all.subrange(0, i as int)),
        decreases vs.len() - i,
    {
        let ghost pre = all.subrange(0, i as int);
        let ghost next = all.subrange(0, i + 1);
        assert(next.drop_last() =~= pre);
        assert(next.last() == vs@[i as int]@);
        if vs[i].len() > 0 {
            let ghost before = strs_view(r@);
            r.push(string_of(vs[i].as_slice()));
            assert(strs_view(r@) =~= before.push(vs@[i as int]@));
        }
        i = i + 1;
    }
    assert(all.subrange(0, all.len() as int) =~= all);
    r
}

// ---------------------------------------------------------------------------
// Orientation.
// ---------------------------------------------------------------------------

/// The orientation name as compared: trimmed, in ASCII lower case, with
/// `-` read as `_`.
pub open spec fn orientation_key(value: Seq<char>) -> Seq<char> {
    replace_char(lower(trim(value)), '-', "_"@)
}

/// The rotation for an orientation name, or the refused key.
pub open spec fn spec_rotation(value: Seq<char>) -> Result<u8, Seq<char>> {
    let k = orientation_key(value);
    if k == "portrait"@ {
        Ok(0u8)
    } else if k == "landscape"@ {
        Ok(1u8)
    } else if k == "reverse_portrait"@ || k == "reverseportrait"@ {
        Ok(2u8)
    } else if k == "reverse_landscape"@ || k == "reverselandscape"@ {
        Ok(3u8)
    } else {
        Err(k)
    }
}

pub fn rotation_for_orientation(value: &str) -> (r: Result<u8, McpError>)
    ensures
        match spec_rotation(value@) {
            Ok(v) => r == Ok::<u8, McpError>(v),
            Err(k) => r matches Err(e) && e.kind == ErrorKind::InvalidParams && e.message@
                == "orientation must be one of: portrait, landscape, reverse_portrait, reverse_landscape (got '"@
                + k + "')"@,
        },
{
    let t = trimmed(value);
    let l = lower_chars(t.as_slice());
    let under = chars_of("_");
    let k = replace_char_chars(l.as_slice(), '-', under.as_slice());
    if str_eq_chars("portrait", k.as_slice()) {
        Ok(0)
    } else if str_eq_chars("landscape", k.as_slice()) {
        Ok(1)
    } else if str_eq_chars("reverse_portrait", k.as_slice()) || str_eq_chars(
        "reverseportrait",
        k.as_slice(),
    ) {
        Ok(2)
    } else if str_eq_chars("reverse_landscape", k.as_slice()) || str_eq_chars(
        "reverselandscape",
        k.as_slice(),
    ) {
        Ok(3)
    } else {
        let mut m = chars_of(
            "orientation must be one of: portrait, landscape, reverse_portrait, reverse_landscape (got '",
        );
        append_chars(&mut m, k.as_slice());
        append_str(&mut m, "')");
        Err(McpError::invalid_params(string_of(m.as_slice())))
    }
}

/// The orientation name of a rotation, counted modulo four.
pub open spec fn spec_orientation_name(rotation: u8) -> Seq<char> {
    if rotation % 4 == 0 {
        "portrait"@
    } else if rotation % 4 == 1 {
        "landscape"@
    } else if rotation % 4 == 2 {
        "reverse_portrait"@
    } else {
        "reverse_landscape"@
    }
}

pub fn orientation_name_from_rotation(rotation: u8) -> (r: &'static str)
    ensures
        r@ == spec_orientation_name(rotation),
{
    let q = rotation % 4;
    if q == 0 {
        "portrait"
    } else if q == 1 {
        "landscape"
    } else if q == 2 {
        "reverse_portrait"
    } else {
        "reverse_landscape"
    }
}

// ---------------------------------------------------------------------------
// Scrolling.
// ---------------------------------------------------------------------------

/// Which way content moves.
#[derive(Debug, Clone, Copy, PartialEq, Eq, Structural)]
pub enum ScrollDirection {
    Up,
    Down,
}

impl ScrollDirection {
    pub fn as_str(self) -> (r: &'static str)
        ensures
            r@ == (match self {
                ScrollDirection::Up => "up"@,
                ScrollDirection::Down => "down"@,
            }),
    {
        match self {
            ScrollDirection::Up => "up",
            ScrollDirection::Down => "down",
        }
    }
}

/// The direction a tool asks for: up when none (or a blank one) is given,
/// `up` or `down` in any ASCII case, else the refused trimmed value.
pub open spec fn spec_scroll_direction(raw: Option<Seq<char>>) -> Result<ScrollDirection, Seq<char>> {
    match raw {
        None => Ok(ScrollDirection::Up),
        Some(v) => {
            let t = trim(v);
            if t.len() == 0 {
                Ok(ScrollDirection::Up)
            } else if lower(t) == "up"@ {
                Ok(ScrollDirection::Up)
            } else if lower(t) == "down"@ {
                Ok(ScrollDirection::Down)
            } else {
                Err(t)
            }
        },
    }
}

pub fn normalize_scroll_direction(raw: Option<&str>) -> (r: Result<ScrollDirection, McpError>)
    ensures
        match spec_scroll_direction(
            match raw {
                Some(v) => Some(v@),
                None => None,
            },
        ) {
            Ok(d) => r == Ok::<ScrollDirection, McpError>(d),
            Err(t) => r matches Err(e) && e.kind == ErrorKind::InvalidParams && e.message@
                == "direction must be one of: up, down; got '"@ + t + "'"@,
        },
{
    let v = match raw {
        None => {
            return Ok(ScrollDirection::Up);
        },
        Some(v) => v,
    };
    let t = trimmed(v);
    if t.len() == 0 {
        return Ok(ScrollDirection::Up);
    }
    let l = lower_chars(t.as_slice());
    if str_eq_chars("up", l.as_slice()) {
        Ok(ScrollDirection::Up)
    } else if str_eq_chars("down", l.as_slice()) {
        Ok(ScrollDirection::Down)
    } else {
        let mut m = chars_of("direction must be one of: up, down; got '");
        append_chars(&mut m, t.as_slice());
        append_str(&mut m, "'");
        Err(McpError::invalid_params(string_of(m.as_slice())))
    }
}

/// The swipe of a scroll: along the vertical center line, between a
/// quarter and three quarters of the height (each at least 1, and the lower
/// point below the upper one); upward content moves from bottom to top.
pub open spec fn spec_swipe_points(display: (u32, u32), direction: ScrollDirection) -> (int, int, int, int) {
    let x = if display.0 / 2 >= 1 {
        display.0 / 2
    } else {
        1
    };
    let top = if display.1 / 4 >= 1 {
        display.1 / 4
    } else {
        1
    };
    let bottom = if (display.1 * 3) / 4 >= top + 1 {
        (display.1 * 3) / 4
    } else {
        top + 1
    };
    match direction {
        ScrollDirection::Up => (x as int, bottom as int, x as int, top as int),
        ScrollDirection::Down => (x as int, top as int, x as int, bottom as int),
    }
}

pub fn swipe_points_for_direction(display: (u32, u32), direction: ScrollDirection) -> (r: (
    u32,
    u32,
    u32,
    u32,
))
    requires
        display.1 * 3 <= u32::MAX,
    ensures
        (r.0 as int, r.1 as int, r.2 as int, r.3 as int) == spec_swipe_points(display, direction),
{
    let (width, height) = display;
    let x = if width / 2 >= 1 {
        width / 2
    } else {
        1
    };
    let top = if height / 4 >= 1 {
        height / 4
    } else {
        1
    };
    let bottom = if (height * 3) / 4 >= top + 1 {
        (height * 3) / 4
    } else {
        top + 1
    };
    match direction {
        ScrollDirection::Up => (x, bottom, x, top),
        ScrollDirection::Down => (x, top, x, bottom),
    }
}

// ---------------------------------------------------------------------------
// Multi-touch gestures.
// ---------------------------------------------------------------------------

/// The fewest and most paths of a multi-touch gesture.
pub const MIN_MULTI_TOUCH_POINTERS: usize = 2;
pub const MAX_MULTI_TOUCH_POINTERS: usize = 5;
/// The shortest and longest multi-touch gesture.
pub const MIN_MULTI_TOUCH_DURATION_MS: u64 = 50;
pub const MAX_MULTI_TOUCH_DURATION_MS: u64 = 2000;

/// One finger's straight path.
#[derive(Debug, Clone, Copy, PartialEq, Eq, Structural)]
pub struct MultiTouchPointer {
    pub x1: u32,
    pub y1: u32,
    pub x2: u32,
    pub y2: u32,
}

/// The first coordinate of a path that lies off the display, with its name,
/// in the order x1, x2, y1, y2.
pub open spec fn bad_coordinate(p: MultiTouchPointer, width: u32, height: u32) -> Option<(Seq<char>, u32)> {
    if p.x1 >= width {
        Some(("x1"@, p.x1))
    } else if p.x2 >= width {
        Some(("x2"@, p.x2))
    } else if p.y1 >= height {
        Some(("y1"@, p.y1))
    } else if p.y2 >= height {
        Some(("y2"@, p.y2))
    } else {
        None
    }
}

/// The first path, from index `k` on, with a coordinate off the display.
pub open spec fn first_bad_pointer(ps: Seq<MultiTouchPointer>, width: u32, height: u32, k: int) -> Option<
    (int, Seq<char>, u32),
>
    decreases ps.len() - k,
{
    if k < 0 || k >= ps.len() {
        None
    } else {
        match bad_coordinate(ps[k], width, height) {
            Some((f, v)) => Some((k, f, v)),
            None => first_bad_pointer(ps, width, height, k + 1),
        }
    }
}

/// Why a multi-touch request is refused, if it is: the number of paths,
/// then the duration, then the first coordinate off the display.
pub open spec fn spec_multi_touch_error(ps: Seq<MultiTouchPointer>, duration_ms: u64, display: (u32, u32)) -> Option<
    Seq<char>,
> {
    if !(MIN_MULTI_TOUCH_POINTERS <= ps.len() <= MAX_MULTI_TOUCH_POINTERS) {
        Some("pointers must contain 2 to 5 paths; got "@ + decimal(ps.len()))
    } else if !(MIN_MULTI_TOUCH_DURATION_MS <= duration_ms <= MAX_MULTI_TOUCH_DURATION_MS) {
        Some("duration_ms must be between 50 and 2000; got "@ + decimal(duration_ms as nat))
    } else {
        match first_bad_pointer(ps, display.0, display.1, 0) {
            Some((i, f, v)) => Some(
                "pointers["@ + decimal(i as nat) + "]."@ + f + "="@ + decimal(v as nat)
                    + " is outside the "@ + decimal(display.0 as nat) + "x"@ + decimal(
                    display.1 as nat,
                ) + " display"@,
            ),
            None => None,
        }
    }
}

pub fn validate_multi_touch_request(
    pointers: &[MultiTouchPointer],
    duration_ms: u64,
    display_size: (u32, u32),
) -> (r: Result<(), McpError>)
    ensures
        match spec_multi_touch_error(pointers@, duration_ms, display_size) {
            None => r is Ok,
            Some(m) => r matches Err(e) && e.kind == ErrorKind::InvalidParams && e.message@ == m,
        },
{
    let n = pointers.len();
    if !(MIN_MULTI_TOUCH_POINTERS <= n && n <= MAX_MULTI_TOUCH_POINTERS) {
        let mut m = chars_of("pointers must contain 2 to 5 paths; got ");
        push_decimal(&mut m, n as u64);
        let e = McpError::invalid_params(string_of(m.as_slice()));
        assert(e.message@ == "pointers must contain 2 to 5 paths; got "@ + decimal(pointers@.len()));
        return Err(e);
    }
    if !(MIN_MULTI_TOUCH_DURATION_MS <= duration_ms && duration_ms <= MAX_MULTI_TOUCH_DURATION_MS) {
        let mut m = chars_of("duration_ms must be between 50 and 2000; got ");
        push_decimal(&mut m, duration_ms);
        let e = McpError::invalid_params(string_of(m.as_slice()));
        assert(e.message@ == "duration_ms must be between 50 and 2000; got "@ + decimal(
            duration_ms as nat,
        ));
        return Err(e);
    }
    let (width, height) = display_size;
    let mut i: usize = 0;
    while i < n
        invariant
            i <= n == pointers@.len(),
            MIN_MULTI_TOUCH_POINTERS <= n <= MAX_MULTI_TOUCH_POINTERS,
            MIN_MULTI_TOUCH_DURATION_MS <= duration_ms <= MAX_MULTI_TOUCH_DURATION_MS,
            first_bad_pointer(pointers@, width, height, i as int) == first_bad_pointer(
                pointers@,
                width,
                height,
                0,
            ),
            (width, height) == display_size,
        decreases n - i,
    {
        let p = pointers[i];
        let bad: Option<(&str, u32)> = if p.x1 >= width {
            Some(("x1", p.x1))
        } else if p.x2 >= width {
            Some(("x2", p.x2))
        } else if p.y1 >= height {
            Some(("y1", p.y1))
        } else if p.y2 >= height {
            Some(("y2", p.y2))
        } else {
            None
        };
        match bad {
            Some((field, value)) => {
                assert(bad_coordinate(p, width, height) == Some((field@, value)));
                let mut m = chars_of("pointers[");
                push_decimal(&mut m, i as u64);
                append_str(&mut m, "].");
                append_str(&mut m, field);
                append_str(&mut m, "=");
                push_decimal(&mut m, value as u64);
                append_str(&mut m, " is outside the ");
                push_decimal(&mut m, width as u64);
                append_str(&mut m, "x");
                push_decimal(&mut m, height as u64);
                append_str(&mut m, " display");
                let e = McpError::invalid_params(string_of(m.as_slice()));
                assert(e.message@ == "pointers["@ + decimal(i as nat) + "]."@ + field@ + "="@
                    + decimal(value as nat) + " is outside the "@ + decimal(width as nat) + "x"@
                    + decimal(height as nat) + " display"@);
                return Err(e);
            },
            None => {},
        }
        i = i + 1;
    }
    Ok(())
}

// ---------------------------------------------------------------------------
// Launching the emulator.
// ---------------------------------------------------------------------------

/// The emulator runs without a window when asked to, or when no display
/// variable holds more than whitespace.
pub open spec fn spec_launch_without_window(
    requested: bool,
    display: Option<Seq<char>>,
    wayland_display: Option<Seq<char>>,
) -> bool {
    requested || ((match display {
        Some(d) => trim(d).len() == 0,
        None => true,
    }) && (match wayland_display {
        Some(d) => trim(d).len() == 0,
        None => true,
    }))
}

pub fn should_launch_without_window(
    requested_no_window: bool,
    display: Option<String>,
    wayland_display: Option<String>,
) -> (r: bool)
    ensures
        r == spec_launch_without_window(requested_no_window, opt_view(display), opt_view(wayland_display)),
{
    if requested_no_window {
        return true;
    }
    let d_blank = match &display {
        Some(d) => trimmed(d.as_str()).len() == 0,
        None => true,
    };
    let w_blank = match &wayland_display {
        Some(d) => trimmed(d.as_str()).len() == 0,
        None => true,
    };
    d_blank && w_blank
}

/// The emulator is started in its own systemd scope when `systemd-run` is
/// available.
pub fn should_isolate_emulator_launch(systemd_run_available: bool) -> (r: bool)
    ensures
        r == systemd_run_available,
{
    systemd_run_available
}


/// Scrolling up and scrolling down swipe the same line in opposite
/// directions; scrolling up moves from the lower point to the upper one. On a
/// display at least two pixels wide and four high, both points lie on it.
pub proof fn lemma_swipe_directions_are_reverses(display: (u32, u32))
    ensures
        ({
            let up = spec_swipe_points(display, ScrollDirection::Up);
            let down = spec_swipe_points(display, ScrollDirection::Down);
            &&& up.0 == down.2 && up.1 == down.3 && up.2 == down.0 && up.3 == down.1
            &&& up.0 == up.2
            &&& up.1 > up.3
            &&& display.0 >= 2 && display.1 >= 4 ==> 1 <= up.0 < display.0 && 1 <= up.3 && up.1 < display.1
        }),
{
}

/// Every rotation's name is read back as that rotation.
pub proof fn lemma_orientation_names_round_trip(rotation: u8)
    requires
        rotation < 4,
    ensures
        spec_rotation(spec_orientation_name(rotation)) == Ok::<u8, Seq<char>>(rotation),
{
    reveal_strlit("portrait");
    reveal_strlit("landscape");
    reveal_strlit("reverse_portrait");
    reveal_strlit("reverse_landscape");
    reveal_strlit("reverseportrait");
    reveal_strlit("reverselandscape");
    reveal_strlit("_");
    let name = spec_orientation_name(rotation);
    lemma_canonical_key(name);
    assert(orientation_key(name) == name);
    if rotation == 0 {
        assert(name == "portrait"@);
    } else if rotation == 1 {
        assert(name == "landscape"@);
        assert(name != "portrait"@);
    } else if rotation == 2 {
        assert(name == "reverse_portrait"@);
        assert(name != "portrait"@);
        assert(name != "landscape"@);
    } else {
        assert(name == "reverse_landscape"@);
        assert(name != "portrait"@);
        assert(name != "landscape"@);
        assert(name != "reverse_portrait"@);
        assert(name != "reverseportrait"@);
    }
}

/// A name of lower-case letters and `_` is its own orientation key.
proof fn lemma_canonical_key(name: Seq<char>)
    requires
        name.len() > 0,
        forall|i: int| 0 <= i < name.len() ==> ('a' <= #[trigger] name[i] <= 'z' || name[i] == '_'),
    ensures
        orientation_key(name) == name,
{
    assert(!is_white(name[0]));
    assert(!is_white(name.last()));
    assert(trim_start(name) == name);
    assert(trim_end(name) == name);
    assert(lower(name) =~= name);
    lemma_replace_absent(name, '-', "_"@);
}

proof fn lemma_replace_absent(s: Seq<char>, c: char, r: Seq<char>)
    requires
        !s.contains(c),
    ensures
        replace_char(s, c, r) == s,
    decreases s.len(),
{
    if s.len() > 0 {
        assert(!s.drop_last().contains(c)) by {
            if s.drop_last().contains(c) {
                let i = choose|i: int| 0 <= i < s.drop_last().len() && s.drop_last()[i] == c;
                assert(s[i] == c);
            }
        }
        lemma_replace_absent(s.drop_last(), c, r);
        assert(s.last() == s[s.len() - 1]);
        assert(s.drop_last().push(s.last()) =~= s);
    }
}

} // verus!
