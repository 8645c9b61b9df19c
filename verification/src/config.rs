//! The harness's settings: command-line options, and the environment
//! variables as text, parsed and checked here. Reading the environment and
//! the file system is left to the caller.
use vstd::prelude::*;
use crate::error::{owned};
use crate::text::{all_digits, append_str, chars_of, digits_value, is_digit, lemma_digits_value_prefix, lower, lower_chars, non_empty_pieces, split_by, str_eq_chars, string_of, string_views, trim, trim_chars, trim_string, trimmed, views};

verus! {

/// The command-line options.
pub struct Cli {
    /// Print the registered tool names and exit.
    pub print_tools: bool,
    /// Print the registered tool schema snapshot and exit.
    pub print_tool_schema: bool,
    /// Run one built-in Solar Lab scenario directly and exit.
    pub run_scenario: Option<String>,
    /// Target adb serial for direct scenario execution.
    pub serial: Option<String>,
    /// Override the target Android package name for direct scenario execution.
    pub package_name: Option<String>,
    /// Override the target Android activity for direct scenario execution.
    pub activity: Option<String>,
    /// Override the Android SDK root.
    pub sdk_root: Option<String>,
    /// Override the local artifact output directory.
    pub artifact_dir: Option<String>,
    /// Override the emulator gRPC port used when launching an AVD.
    pub emulator_grpc_port: Option<u16>,
}

/// Where the interactive session keeps its builds, and what it installs.
#[derive(Debug, Clone)]
pub struct InteractiveSessionConfig {
    pub session_root: String,
    pub github_repository: String,
    pub github_token: Option<String>,
    pub app_package: String,
    pub app_activity: String,
}

/// An environment variable as `std::env::var` reports it.
pub enum EnvVar {
    /// Not set.
    Unset,
    /// Set, but not valid Unicode; the reader's message.
    NotUnicode(String),
    /// Set to this text.
    Value(String),
}

fn message2(a: &str, b: &str) -> (s: String)
    ensures
        s@ == a@ + b@,
{
    let mut v = chars_of(a);
    append_str(&mut v, b);
    string_of(v.as_slice())
}

fn message3(a: &str, b: &str, c: &str) -> (s: String)
    ensures
        s@ == a@ + b@ + c@,
{
    let mut v = chars_of(a);
    append_str(&mut v, b);
    append_str(&mut v, c);
    string_of(v.as_slice())
}

// ---------------------------------------------------------------------------
// Integers as `FromStr` reads them.
// ---------------------------------------------------------------------------

/// Why `FromStr` refuses an integer, as `IntErrorKind` tells it.
#[derive(Debug, Clone, Copy, PartialEq, Eq, Structural)]
pub enum IntParseFailure {
    Empty,
    InvalidDigit,
    PosOverflow,
    NegOverflow,
}

impl IntParseFailure {
    /// The message that `ParseIntError` displays for this failure.
    pub fn message(self) -> (s: String)
        ensures
            s@ == int_failure_message(self),
    {
        match self {
            IntParseFailure::Empty => owned("cannot parse integer from empty string"),
            IntParseFailure::InvalidDigit => owned("invalid digit found in string"),
            IntParseFailure::PosOverflow => owned("number too large to fit in target type"),
            IntParseFailure::NegOverflow => owned("number too small to fit in target type"),
        }
    }
}

pub open spec fn int_failure_message(f: IntParseFailure) -> Seq<char> {
    match f {
        IntParseFailure::Empty => "cannot parse integer from empty string"@,
        IntParseFailure::InvalidDigit => "invalid digit found in string"@,
        IntParseFailure::PosOverflow => "number too large to fit in target type"@,
        IntParseFailure::NegOverflow => "number too small to fit in target type"@,
    }
}

/// The length of the run of decimal digits that starts `s`.
pub open spec fn digit_run(s: Seq<char>) -> nat
    decreases s.len(),
{
    if s.len() == 0 || !is_digit(s[0]) {
        0
    } else {
        1 + digit_run(s.drop_first())
    }
}

/// `FromStr` for an integer type whose values run from `-min_magnitude` to
/// `max` (`min_magnitude` is 0 for an unsigned type): an optional sign, then
/// digits. The digits are read from the left, so an overflow in the digits
/// before the first non-digit is reported rather than the non-digit.
pub open spec fn parse_integer(s: Seq<char>, min_magnitude: nat, max: nat) -> Result<int, IntParseFailure> {
    if s.len() == 0 {
        Err(IntParseFailure::Empty)
    } else {
        let negative = s[0] == '-' && min_magnitude > 0;
        let digits = if s[0] == '+' || negative {
            s.drop_first()
        } else {
            s
        };
        if digits.len() == 0 {
            Err(IntParseFailure::InvalidDigit)
        } else {
            let run = digit_run(digits);
            let value = digits_value(digits.take(run as int));
            if value > (if negative {
                min_magnitude
            } else {
                max
            }) {
                Err(
                    if negative {
                        IntParseFailure::NegOverflow
                    } else {
                        IntParseFailure::PosOverflow
                    },
                )
            } else if run < digits.len() {
                Err(IntParseFailure::InvalidDigit)
            } else if negative {
                Ok(-value)
            } else {
                Ok(value as int)
            }
        }
    }
}

proof fn lemma_digit_run(s: Seq<char>, i: int)
    requires
        0 <= i <= s.len(),
        all_digits(s.take(i)),
    ensures
        i < s.len() && !is_digit(s[i]) ==> digit_run(s) == i,
        i == s.len() ==> digit_run(s) == i,
        i < s.len() && is_digit(s[i]) ==> all_digits(s.take(i + 1)),
    decreases i,
{
    if i > 0 {
        let t = s.drop_first();
        assert(all_digits(t.take(i - 1))) by {
            assert forall|k: int| 0 <= k < i - 1 implies is_digit(#[trigger] t.take(i - 1)[k]) by {
                assert(s.take(i)[k + 1] == t.take(i - 1)[k]);
            }
        }
        assert(s.take(i)[0] == s[0]);
        lemma_digit_run(t, i - 1);
        if i < s.len() {
            assert(t[i - 1] == s[i]);
        }
    }
    if i < s.len() && is_digit(s[i]) {
        assert forall|k: int| 0 <= k < i + 1 implies is_digit(#[trigger] s.take(i + 1)[k]) by {
            if k < i {
                assert(s.take(i + 1)[k] == s.take(i)[k]);
            }
        }
    }
}

/// The magnitude and sign of an integer, read as `parse_integer` reads it.
fn parse_integer_chars(s: &[char], min_magnitude: u64, max: u64) -> (r: Result<(u64, bool), IntParseFailure>)
    ensures
        match r {
            Ok((m, negative)) => parse_integer(s@, min_magnitude as nat, max as nat) == Ok::<int, IntParseFailure>(
                if negative {
                    -(m as int)
                } else {
                    m as int
                },
            ) && (negative ==> m <= min_magnitude && m > 0) && (!negative ==> m <= max),
            Err(f) => parse_integer(s@, min_magnitude as nat, max as nat) == Err::<int, IntParseFailure>(f),
        },
{
    let n = s.len();
    if n == 0 {
        return Err(IntParseFailure::Empty);
    }
    let negative = s[0] == '-' && min_magnitude > 0;
    let start: usize = if s[0] == '+' || negative {
        1
    } else {
        0
    };
    let ghost digits = if s@[0] == '+' || negative {
        s@.drop_first()
    } else {
        s@
    };
    assert(digits =~= s@.subrange(start as int, n as int));
    if start == n {
        return Err(IntParseFailure::InvalidDigit);
    }
    let limit: u64 = if negative {
        min_magnitude
    } else {
        max
    };
    let mut acc: u64 = 0;
    let mut i: usize = start;
    assert(digits.take(0) =~= Seq::<char>::empty());
    while i < n
        invariant
            start <= i <= n == s@.len(),
            start < n,
            negative == (s@[0] == '-' && min_magnitude > 0),
            limit == (if negative { min_magnitude } else { max }),
            digits == (if s@[0] == '+' || negative {
                s@.drop_first()
            } else {
                s@
            }),
            digits == s@.subrange(start as int, n as int),
            all_digits(digits.take(i - start)),
            acc as nat == digits_value(digits.take(i - start)),
            acc <= limit,
        decreases n - i,
    {
        let c = s[i];
        assert(digits[i - start] == c);
        proof {
            lemma_digit_run(digits, i - start);
        }
        if !('0' <= c && c <= '9') {
            assert(digit_run(digits) == i - start);
            assert(digits_value(digits.take(digit_run(digits) as int)) == acc);
            assert(parse_integer(s@, min_magnitude as nat, max as nat) == Err::<int, IntParseFailure>(IntParseFailure::InvalidDigit));
            return Err(IntParseFailure::InvalidDigit);
        }
        let dv: u64 = ((c as u32) - 48) as u64;
        let ghost pre = digits.take(i - start);
        let ghost next = digits.take(i - start + 1);
        assert(next.drop_last() =~= pre);
        assert(digits_value(next) == digits_value(pre) * 10 + dv);
        if acc > limit / 10 || dv > limit - acc * 10 {
            proof {
                let run = digit_run(digits);
                lemma_digit_run_at_least(digits, i - start + 1);
                lemma_all_digits_run(digits);
                lemma_digits_value_prefix(digits.take(run as int), i - start + 1);
                assert(digits.take(run as int).subrange(0, i - start + 1) =~= next);
            }
            return Err(
                if negative {
                    IntParseFailure::NegOverflow
                } else {
                    IntParseFailure::PosOverflow
                },
            );
        }
        acc = acc * 10 + dv;
        i = i + 1;
    }
    proof {
        lemma_digit_run(digits, n - start);
        assert(digits.take(n - start) =~= digits);
    }
    if negative && acc == 0 {
        return Ok((0, false));
    }
    Ok((acc, negative))
}

proof fn lemma_digit_run_at_least(s: Seq<char>, i: int)
    requires
        0 <= i <= s.len(),
        all_digits(s.take(i)),
    ensures
        digit_run(s) >= i,
    decreases i,
{
    if i > 0 {
        let t = s.drop_first();
        assert(all_digits(t.take(i - 1))) by {
            assert forall|k: int| 0 <= k < i - 1 implies is_digit(#[trigger] t.take(i - 1)[k]) by {
                assert(s.take(i)[k + 1] == t.take(i - 1)[k]);
            }
        }
        assert(s.take(i)[0] == s[0]);
        lemma_digit_run_at_least(t, i - 1);
    }
}

proof fn lemma_all_digits_run(s: Seq<char>)
    ensures
        digit_run(s) <= s.len(),
        all_digits(s.take(digit_run(s) as int)),
    decreases s.len(),
{
    if s.len() > 0 && is_digit(s[0]) {
        let t = s.drop_first();
        lemma_all_digits_run(t);
        let r = digit_run(t) as int;
        assert forall|k: int| 0 <= k < r + 1 implies is_digit(#[trigger] s.take(r + 1)[k]) by {
            if k > 0 {
                assert(s.take(r + 1)[k] == t.take(r)[k - 1]);
            }
        }
    }
}

/// Reading an unsigned integer against a smaller maximum accepts exactly
/// the values it accepted against the larger one that do not exceed it.
pub proof fn lemma_parse_unsigned_narrower(s: Seq<char>, small: nat, big: nat)
    requires
        small <= big,
    ensures
        match parse_integer(s, 0, big) {
            Ok(v) => if v > small {
                parse_integer(s, 0, small) is Err
            } else {
                parse_integer(s, 0, small) == Ok::<int, IntParseFailure>(v)
            },
            Err(_) => parse_integer(s, 0, small) is Err,
        },
{
}

/// `i64::from_str`.
pub fn parse_i64(s: &[char]) -> (r: Result<i64, IntParseFailure>)
    ensures
        match r {
            Ok(v) => parse_integer(s@, 0x8000_0000_0000_0000nat, i64::MAX as nat) == Ok::<int, IntParseFailure>(v as int),
            Err(f) => parse_integer(s@, 0x8000_0000_0000_0000nat, i64::MAX as nat) == Err::<int, IntParseFailure>(f),
        },
{
    match parse_integer_chars(s, 0x8000_0000_0000_0000u64, i64::MAX as u64) {
        Ok((m, negative)) => {
            if negative {
                if m == 0x8000_0000_0000_0000u64 {
                    Ok(i64::MIN)
                } else {
                    Ok(-(m as i64))
                }
            } else {
                Ok(m as i64)
            }
        },
        Err(f) => Err(f),
    }
}

/// `u16::from_str`, with the reason for a refusal.
pub fn parse_u16_checked(s: &[char]) -> (r: Result<u16, IntParseFailure>)
    ensures
        match r {
            Ok(v) => parse_integer(s@, 0, u16::MAX as nat) == Ok::<int, IntParseFailure>(v as int),
            Err(f) => parse_integer(s@, 0, u16::MAX as nat) == Err::<int, IntParseFailure>(f),
        },
{
    match parse_integer_chars(s, 0, u16::MAX as u64) {
        Ok((m, _)) => Ok(m as u16),
        Err(f) => Err(f),
    }
}

// ---------------------------------------------------------------------------
// Settings.
// ---------------------------------------------------------------------------

/// A path setting: the trimmed text, or none where it is blank or unset.
pub fn optional_path_setting(raw: Option<String>) -> (r: Option<String>)
    ensures
        match raw {
            Some(v) => if trim(v@).len() > 0 {
                r matches Some(p) && p@ == trim(v@)
            } else {
                r is None
            },
            None => r is None,
        },
{
    match raw {
        Some(v) => {
            let t = trim_string(v.as_str());
            if !t.as_str().is_empty() {
                Some(t)
            } else {
                None
            }
        },
        None => None,
    }
}

/// A port setting: none where unset, else the trimmed text read as a `u16`;
/// blank text and text that is no `u16` are refused, naming the variable.
pub fn optional_port_setting(name: &str, raw: Option<String>) -> (r: Option<Result<u16, String>>)
    ensures
        match raw {
            None => r is None,
            Some(v) => {
                let t = trim(v@);
                if t.len() == 0 {
                    r matches Some(Err(e)) && e@ == name@ + " must not be empty when set"@
                } else {
                    match parse_integer(t, 0, u16::MAX as nat) {
                        Ok(p) => r matches Some(Ok(port)) && port as int == p,
                        Err(f) => r matches Some(Err(e)) && e@ == name@
                            + " must be a valid u16 port: "@ + int_failure_message(f),
                    }
                }
            },
        },
{
    match raw {
        None => None,
        Some(v) => {
            let t = trimmed(v.as_str());
            if t.len() == 0 {
                return Some(Err(message2(name, " must not be empty when set")));
            }
            match parse_u16_checked(t.as_slice()) {
                Ok(port) => Some(Ok(port)),
                Err(f) => {
                    let detail = f.message();
                    Some(Err(message3(name, " must be a valid u16 port: ", detail.as_str())))
                },
            }
        },
    }
}

/// The words that turn a flag on and off.
pub open spec fn flag_word(w: Seq<char>) -> Option<bool> {
    if w == "1"@ || w == "true"@ || w == "yes"@ || w == "on"@ {
        Some(true)
    } else if w == "0"@ || w == "false"@ || w == "no"@ || w == "off"@ {
        Some(false)
    } else {
        None
    }
}

/// A flag setting: the default where unset or blank, else one of the words
/// true/false/1/0/yes/no/on/off in any ASCII case; anything else is refused.
pub fn flag_setting(name: &str, raw: Option<String>, default: bool) -> (r: Result<bool, String>)
    ensures
        match raw {
            None => r == Ok::<bool, String>(default),
            Some(v) => {
                let w = lower(trim(v@));
                if w.len() == 0 {
                    r == Ok::<bool, String>(default)
                } else {
                    match flag_word(w) {
                        Some(b) => r == Ok::<bool, String>(b),
                        None => r matches Err(e) && e@ == name@
                            + " must be one of true/false/1/0/yes/no/on/off"@,
                    }
                }
            },
        },
{
    let v = match raw {
        None => {
            return Ok(default);
        },
        Some(v) => v,
    };
    let t = trimmed(v.as_str());
    let w = lower_chars(t.as_slice());
    if w.len() == 0 {
        return Ok(default);
    }
    if str_eq_chars("1", &w) || str_eq_chars("true", &w) || str_eq_chars("yes", &w) || str_eq_chars("on", &w) {
        Ok(true)
    } else if str_eq_chars("0", &w) || str_eq_chars("false", &w) || str_eq_chars("no", &w)
        || str_eq_chars("off", &w) {
        Ok(false)
    } else {
        Err(message2(name, " must be one of true/false/1/0/yes/no/on/off"))
    }
}

/// A text setting: the default where unset; else the trimmed text, which
/// must not be blank; a value that is not Unicode is refused.
pub fn text_setting(name: &str, raw: EnvVar, default: &str) -> (r: Result<String, String>)
    ensures
        match raw {
            EnvVar::Unset => r matches Ok(s) && s@ == default@,
            EnvVar::NotUnicode(detail) => r matches Err(e) && e@ == name@ + " could not be read: "@
                + detail@,
            EnvVar::Value(v) => if trim(v@).len() == 0 {
                r matches Err(e) && e@ == name@ + " must not be empty when set"@
            } else {
                r matches Ok(s) && s@ == trim(v@)
            },
        },
{
    match raw {
        EnvVar::Unset => Ok(owned(default)),
        EnvVar::NotUnicode(detail) => Err(message3(name, " could not be read: ", detail.as_str())),
        EnvVar::Value(v) => {
            let t = trim_string(v.as_str());
            if t.as_str().is_empty() {
                Err(message2(name, " must not be empty when set"))
            } else {
                Ok(t)
            }
        },
    }
}

/// An integer setting: the default where unset; else the trimmed text read
/// as an `i64`; a value that is not Unicode or no integer is refused.
pub fn integer_setting(name: &str, raw: EnvVar, default: i64) -> (r: Result<i64, String>)
    ensures
        match raw {
            EnvVar::Unset => r == Ok::<i64, String>(default),
            EnvVar::NotUnicode(detail) => r matches Err(e) && e@ == name@ + " could not be read: "@
                + detail@,
            EnvVar::Value(v) => match parse_integer(trim(v@), 0x8000_0000_0000_0000nat, i64::MAX as nat) {
                Ok(n) => r matches Ok(x) && x as int == n,
                Err(f) => r matches Err(e) && e@ == name@ + " must be a valid integer: "@
                    + int_failure_message(f),
            },
        },
{
    match raw {
        EnvVar::Unset => Ok(default),
        EnvVar::NotUnicode(detail) => Err(message3(name, " could not be read: ", detail.as_str())),
        EnvVar::Value(v) => {
            let t = trimmed(v.as_str());
            match parse_i64(t.as_slice()) {
                Ok(x) => Ok(x),
                Err(f) => {
                    let detail = f.message();
                    Err(message3(name, " must be a valid integer: ", detail.as_str()))
                },
            }
        },
    }
}

/// `s` split at every `sep`, as `str::split` splits it.
pub fn split_on_char(s: &[char], sep: char) -> (r: Vec<Vec<char>>)
    ensures
        views(r@) == split_by(s@, |c: char| c == sep),
{
    let ghost is_sep = |c: char| c == sep;
    let mut pieces: Vec<Vec<char>> = Vec::new();
    let mut cur: Vec<char> = Vec::new();
    let mut i: usize = 0;
    proof {
        assert(s@.subrange(0, 0) =~= Seq::<char>::empty());
        assert(views(pieces@).push(cur@) =~= seq![Seq::<char>::empty()]);
    }
    while i < s.len()
        invariant
            i <= s@.len(),
            is_sep == (|c: char| c == sep),
            views(pieces@).push(cur@) == split_by(s@.subrange(0, i as int), is_sep),
        decreases s.len() - i,
    {
        let c = s[i];
        let ghost before = s@.subrange(0, i as int);
        let ghost after = s@.subrange(0, i + 1);
        assert(after.drop_last() =~= before);
        assert(after.last() == c);
        if c == sep {
            let done = cur;
            pieces.push(done);
            cur = Vec::new();
            proof {
                assert(views(pieces@).push(cur@) =~= split_by(before, is_sep).push(Seq::<char>::empty()));
            }
        } else {
            cur.push(c);
            proof {
                let rest = split_by(before, is_sep);
                assert(views(pieces@).push(cur@) =~= rest.update(rest.len() - 1, rest.last().push(c)));
            }
        }
        i = i + 1;
    }
    pieces.push(cur);
    proof {
        assert(s@.subrange(0, s@.len() as int) =~= s@);
    }
    pieces
}

/// The items of a comma-separated list: each trimmed, the blank ones dropped.
pub open spec fn csv_items(s: Seq<char>) -> Seq<Seq<char>> {
    let pieces = split_by(s, |c: char| c == ',');
    non_empty_pieces(Seq::new(pieces.len(), |i: int| trim(pieces[i])))
}

/// A list setting: the variable's text, or the default where it is unset or
/// not Unicode, as a comma-separated list.
pub fn csv_setting(raw: EnvVar, default: &str) -> (r: Vec<String>)
    ensures
        string_views(r@) == csv_items(
            match raw {
                EnvVar::Value(v) => v@,
                _ => default@,
            },
        ),
{
    let text = match &raw {
        EnvVar::Value(v) => chars_of(v.as_str()),
        _ => chars_of(default),
    };
    let pieces = split_on_char(text.as_slice(), ',');
    let ghost trimmed_pieces = Seq::new(views(pieces@).len(), |i: int| trim(views(pieces@)[i]));
    let mut items: Vec<String> = Vec::new();
    let mut i: usize = 0;
    while i < pieces.len()
        invariant
            i <= pieces.len(),
            trimmed_pieces == Seq::new(views(pieces@).len(), |k: int| trim(views(pieces@)[k])),
            string_views(items@) == non_empty_pieces(trimmed_pieces.take(i as int)),
        decreases pieces.len() - i,
    {
        let piece = trim_chars(pieces[i].as_slice());
        let ghost before = trimmed_pieces.take(i as int);
        let ghost after = trimmed_pieces.take(i + 1);
        assert(after.drop_last() =~= before);
        assert(after.last() == piece@);
        if piece.len() > 0 {
            items.push(string_of(piece.as_slice()));
            assert(string_views(items@) =~= non_empty_pieces(before).push(piece@));
        }
        i = i + 1;
    }
    assert(trimmed_pieces.take(pieces.len() as int) =~= trimmed_pieces);
    items
}

/// A session limit: the setting, at least 1, as a `usize`.
pub fn positive_limit(name: &str, value: i64) -> (r: Result<usize, String>)
    ensures
        match r {
            Ok(n) => n as int == (if value < 1 {
                1
            } else {
                value as int
            }),
            Err(e) => (if value < 1 {
                1
            } else {
                value as int
            }) > usize::MAX && e@ == name@ + " must be positive"@,
        },
{
    let v: i64 = if value < 1 {
        1
    } else {
        value
    };
    if (v as u64) as u128 > usize::MAX as u128 {
        Err(message2(name, " must be positive"))
    } else {
        Ok(v as usize)
    }
}

/// The interactive session's settings: none where its root is unset or
/// blank; else the repository, package and activity, none of which may be
/// empty, and the token where one is set and not blank.
pub fn interactive_session_config(
    session_root: Option<String>,
    github_repository: EnvVar,
    app_package: EnvVar,
    app_activity: EnvVar,
    github_token: EnvVar,
) -> (r: Result<Option<InteractiveSessionConfig>, String>)
    ensures
        match session_root {
            Some(v) if trim(v@).len() > 0 => match r {
                Ok(Some(c)) => {
                    &&& c.session_root@ == trim(v@)
                    &&& c.github_repository@.len() > 0 && c.app_package@.len() > 0 && c.app_activity@.len() > 0
                    &&& (match github_token {
                        EnvVar::Value(t) => if trim(t@).len() > 0 {
                            c.github_token matches Some(tok) && tok@ == trim(t@)
                        } else {
                            c.github_token is None
                        },
                        _ => c.github_token is None,
                    })
                },
                Ok(None) => false,
                Err(_) => true,
            },
            _ => r matches Ok(None),
        },
{
    let root = match optional_path_setting(session_root) {
        Some(root) => root,
        None => {
            return Ok(None);
        },
    };
    let repository = text_setting(
        "ANDROID_COMPUTER_USE_MCP_INTERACTIVE_SESSION_GITHUB_REPOSITORY",
        github_repository,
        "",
    )?;
    let package = text_setting(
        "ANDROID_COMPUTER_USE_MCP_INTERACTIVE_SESSION_APP_PACKAGE",
        app_package,
        "",
    )?;
    let activity = text_setting(
        "ANDROID_COMPUTER_USE_MCP_INTERACTIVE_SESSION_APP_ACTIVITY",
        app_activity,
        "",
    )?;
    if repository.as_str().is_empty() || package.as_str().is_empty() || activity.as_str().is_empty() {
        return Err(
            owned(
                "interactive session config requires repository, app package, and app activity when enabled",
            ),
        );
    }
    let token = match github_token {
        EnvVar::Value(t) => {
            let t = trim_string(t.as_str());
            if !t.as_str().is_empty() {
                Some(t)
            } else {
                None
            }
        },
        _ => None,
    };
    Ok(
        Some(
            InteractiveSessionConfig {
                session_root: root,
                github_repository: repository,
                github_token: token,
                app_package: package,
                app_activity: activity,
            },
        ),
    )
}

} // verus!
