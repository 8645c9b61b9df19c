//! Character-sequence helpers shared by the parsers and matchers.
//!
//! Strings are modelled by their `Seq<char>` view. Each executable helper
//! states its result over the spec functions defined here.
use vstd::prelude::*;
use vstd::string::*;

verus! {

// ---------------------------------------------------------------------------
// Conversions between `str`, `String` and `Vec<char>`.
// ---------------------------------------------------------------------------

/// `String::push`: appends one character.
#[verifier::external_body]
pub fn push_char(s: &mut String, c: char)
    ensures
        final(s)@ == old(s)@.push(c),
{
    s.push(c);
}

/// The characters of `s`, in order.
pub fn chars_of(s: &str) -> (v: Vec<char>)
    ensures
        v@ == s@,
{
    let mut v: Vec<char> = Vec::new();
    for c in it: s.chars()
        invariant
            v@ == it.seq().take(it.index() as int),
            it.seq() == s@,
    {
        v.push(c);
    }
    v
}

/// A `String` holding exactly the characters of `v`.
pub fn string_of(v: &[char]) -> (s: String)
    ensures
        s@ == v@,
{
    let mut s = String::new();
    let mut i: usize = 0;
    while i < v.len()
        invariant
            i <= v.len(),
            s@ == v@.subrange(0, i as int),
        decreases v.len() - i,
    {
        push_char(&mut s, v[i]);
        i = i + 1;
    }
    s
}

/// `v[start..end]` as a new vector.
pub fn slice_range(v: &[char], start: usize, end: usize) -> (r: Vec<char>)
    requires
        start <= end <= v@.len(),
    ensures
        r@ == v@.subrange(start as int, end as int),
{
    let mut r: Vec<char> = Vec::new();
    let mut i: usize = start;
    while i < end
        invariant
            start <= i <= end <= v@.len(),
            r@ == v@.subrange(start as int, i as int),
        decreases end - i,
    {
        r.push(v[i]);
        i = i + 1;
    }
    r
}

/// Appends all characters of `src` to `dst`.
pub fn append_chars(dst: &mut Vec<char>, src: &[char])
    ensures
        final(dst)@ == old(dst)@ + src@,
{
    let mut i: usize = 0;
    while i < src.len()
        invariant
            i <= src@.len(),
            dst@ == old(dst)@ + src@.subrange(0, i as int),
        decreases src.len() - i,
    {
        dst.push(src[i]);
        i = i + 1;
    }
}

/// Appends all characters of `src` to `dst`.
pub fn append_str(dst: &mut Vec<char>, src: &str)
    ensures
        final(dst)@ == old(dst)@ + src@,
{
    let v = chars_of(src);
    append_chars(dst, v.as_slice());
}

/// Whether two character sequences are equal.
pub fn chars_eq(a: &[char], b: &[char]) -> (r: bool)
    ensures
        r == (a@ == b@),
{
    if a.len() != b.len() {
        return false;
    }
    let mut i: usize = 0;
    while i < a.len()
        invariant
            a@.len() == b@.len(),
            i <= a@.len(),
            forall|k: int| 0 <= k < i ==> a@[k] == b@[k],
        decreases a.len() - i,
    {
        if a[i] != b[i] {
            return false;
        }
        i = i + 1;
    }
    assert(a@ =~= b@);
    true
}

/// Whether the views of two strings are equal.
pub fn str_eq(a: &str, b: &str) -> (r: bool)
    ensures
        r == (a@ == b@),
{
    let av = chars_of(a);
    let bv = chars_of(b);
    chars_eq(av.as_slice(), bv.as_slice())
}

/// Whether a string equals a character sequence.
pub fn str_eq_chars(a: &str, b: &[char]) -> (r: bool)
    ensures
        r == (a@ == b@),
{
    let av = chars_of(a);
    chars_eq(av.as_slice(), b)
}

// ---------------------------------------------------------------------------
// Whitespace and trimming.
// ---------------------------------------------------------------------------

/// Unicode `White_Space`, the set that `char::is_whitespace` documents.
pub open spec fn is_white(c: char) -> bool {
    ||| c == '\t'
    ||| c == '\n'
    ||| c == '\u{0B}'
    ||| c == '\u{0C}'
    ||| c == '\r'
    ||| c == ' '
    ||| c == '\u{85}'
    ||| c == '\u{A0}'
    ||| c == '\u{1680}'
    ||| ('\u{2000}' <= c && c <= '\u{200A}')
    ||| c == '\u{2028}'
    ||| c == '\u{2029}'
    ||| c == '\u{202F}'
    ||| c == '\u{205F}'
    ||| c == '\u{3000}'
}

pub fn is_white_char(c: char) -> (r: bool)
    ensures
        r == is_white(c),
{
    c == '\t' || c == '\n' || c == '\u{0B}' || c == '\u{0C}' || c == '\r' || c == ' ' || c
        == '\u{85}' || c == '\u{A0}' || c == '\u{1680}' || ('\u{2000}' <= c && c <= '\u{200A}')
        || c == '\u{2028}' || c == '\u{2029}' || c == '\u{202F}' || c == '\u{205F}' || c
        == '\u{3000}'
}

/// `s` without its leading whitespace.
pub open spec fn trim_start(s: Seq<char>) -> Seq<char>
    decreases s.len(),
{
    if s.len() > 0 && is_white(s[0]) {
        trim_start(s.drop_first())
    } else {
        s
    }
}

/// `s` without its trailing whitespace.
pub open spec fn trim_end(s: Seq<char>) -> Seq<char>
    decreases s.len(),
{
    if s.len() > 0 && is_white(s.last()) {
        trim_end(s.drop_last())
    } else {
        s
    }
}

/// `s` without leading and trailing whitespace (`str::trim`).
pub open spec fn trim(s: Seq<char>) -> Seq<char> {
    trim_end(trim_start(s))
}

/// Whether `s` holds a character that is not whitespace.
pub open spec fn has_content(s: Seq<char>) -> bool {
    exists|i: int| 0 <= i < s.len() && !is_white(#[trigger] s[i])
}

proof fn lemma_trim_start_step(s: Seq<char>, i: int)
    requires
        0 <= i < s.len(),
        is_white(s[i]),
    ensures
        trim_start(s.subrange(i, s.len() as int)) == trim_start(s.subrange(i + 1, s.len() as int)),
{
    assert(s.subrange(i, s.len() as int).drop_first() =~= s.subrange(i + 1, s.len() as int));
}

proof fn lemma_trim_end_step(s: Seq<char>, j: int)
    requires
        0 < j <= s.len(),
        is_white(s[j - 1]),
    ensures
        trim_end(s.subrange(0, j)) == trim_end(s.subrange(0, j - 1)),
{
    assert(s.subrange(0, j).drop_last() =~= s.subrange(0, j - 1));
}

/// Trimming the start drops a run of leading whitespace and keeps the rest.
pub proof fn lemma_trim_start_is_suffix(s: Seq<char>)
    ensures
        exists|k: int|
            0 <= k <= s.len() && trim_start(s) == s.subrange(k, s.len() as int) && (forall|m: int|
                0 <= m < k ==> is_white(#[trigger] s[m])),
    decreases s.len(),
{
    if s.len() > 0 && is_white(s[0]) {
        lemma_trim_start_is_suffix(s.drop_first());
        let k = choose|k: int|
            0 <= k <= s.drop_first().len() && trim_start(s.drop_first()) == s.drop_first().subrange(
                k,
                s.drop_first().len() as int,
            ) && (forall|m: int| 0 <= m < k ==> is_white(#[trigger] s.drop_first()[m]));
        assert(s.drop_first().subrange(k, s.drop_first().len() as int) =~= s.subrange(
            k + 1,
            s.len() as int,
        ));
        assert forall|m: int| 0 <= m < k + 1 implies is_white(#[trigger] s[m]) by {
            if m > 0 {
                assert(s[m] == s.drop_first()[m - 1]);
            }
        }
    } else {
        assert(s.subrange(0, s.len() as int) =~= s);
    }
}

/// Start and end of `trim(s)` inside `s`.
pub fn trim_bounds(s: &[char]) -> (r: (usize, usize))
    ensures
        r.0 <= r.1 <= s@.len(),
        s@.subrange(r.0 as int, r.1 as int) == trim(s@),
        trim_start(s@) == s@.subrange(r.0 as int, s@.len() as int),
{
    let n = s.len();
    let mut i: usize = 0;
    proof {
        assert(s@.subrange(0, n as int) =~= s@);
    }
    while i < n && is_white_char(s[i])
        invariant
            i <= n == s@.len(),
            trim_start(s@.subrange(i as int, n as int)) == trim_start(s@),
        decreases n - i,
    {
        proof {
            lemma_trim_start_step(s@, i as int);
        }
        i = i + 1;
    }
    let ghost t = s@.subrange(i as int, n as int);
    assert(trim_start(t) == t) by {
        if t.len() > 0 {
            assert(t[0] == s@[i as int]);
        }
    }
    let mut j: usize = n;
    proof {
        assert(t.subrange(0, (j - i) as int) =~= t);
    }
    while j > i && is_white_char(s[j - 1])
        invariant
            i <= j <= n == s@.len(),
            t == s@.subrange(i as int, n as int),
            trim_end(t.subrange(0, (j - i) as int)) == trim_end(t),
        decreases j - i,
    {
        proof {
            assert(t[(j - i) - 1] == s@[j - 1]);
            lemma_trim_end_step(t, (j - i) as int);
        }
        j = j - 1;
    }
    let ghost u = t.subrange(0, (j - i) as int);
    assert(trim_end(u) == u) by {
        if u.len() > 0 {
            assert(u.last() == s@[j - 1]);
        }
    }
    assert(u =~= s@.subrange(i as int, j as int));
    (i, j)
}

/// `trim(s)` as a new vector.
pub fn trim_chars(s: &[char]) -> (r: Vec<char>)
    ensures
        r@ == trim(s@),
{
    let (a, b) = trim_bounds(s);
    slice_range(s, a, b)
}

/// The characters of `trim(s)`.
pub fn trimmed(s: &str) -> (r: Vec<char>)
    ensures
        r@ == trim(s@),
{
    let v = chars_of(s);
    trim_chars(v.as_slice())
}

/// `str::trim` followed by `to_string`.
pub fn trim_string(s: &str) -> (r: String)
    ensures
        r@ == trim(s@),
{
    let v = trimmed(s);
    string_of(v.as_slice())
}

/// Whether `trim(s)` is empty, that is whether `s` is all whitespace.
pub fn is_blank(s: &str) -> (r: bool)
    ensures
        r == (trim(s@).len() == 0),
{
    let v = trimmed(s);
    v.len() == 0
}

// ---------------------------------------------------------------------------
// ASCII case.
// ---------------------------------------------------------------------------

/// `char::to_ascii_lowercase`.
pub open spec fn ascii_lower(c: char) -> char {
    if 'A' <= c && c <= 'Z' {
        ((c as u32) + 32) as char
    } else {
        c
    }
}

/// `str::to_ascii_lowercase`.
pub open spec fn lower(s: Seq<char>) -> Seq<char> {
    s.map_values(|c: char| ascii_lower(c))
}

pub fn ascii_lower_char(c: char) -> (r: char)
    ensures
        r == ascii_lower(c),
{
    if 'A' <= c && c <= 'Z' {
        ((c as u8) + 32) as char
    } else {
        c
    }
}

pub fn lower_chars(s: &[char]) -> (r: Vec<char>)
    ensures
        r@ == lower(s@),
{
    let mut r: Vec<char> = Vec::new();
    let mut i: usize = 0;
    while i < s.len()
        invariant
            i <= s@.len(),
            r@ == lower(s@.subrange(0, i as int)),
        decreases s.len() - i,
    {
        r.push(ascii_lower_char(s[i]));
        proof {
            assert(lower(s@.subrange(0, i + 1)) =~= lower(s@.subrange(0, i as int)).push(
                ascii_lower(s@[i as int]),
            ));
        }
        i = i + 1;
    }
    assert(s@.subrange(0, s@.len() as int) =~= s@);
    r
}

pub fn lower_str(s: &str) -> (r: Vec<char>)
    ensures
        r@ == lower(s@),
{
    let v = chars_of(s);
    lower_chars(v.as_slice())
}

/// `char::is_ascii_alphanumeric`.
pub open spec fn is_ascii_alnum(c: char) -> bool {
    ('a' <= c && c <= 'z') || ('A' <= c && c <= 'Z') || ('0' <= c && c <= '9')
}

pub fn is_ascii_alnum_char(c: char) -> (r: bool)
    ensures
        r == is_ascii_alnum(c),
{
    ('a' <= c && c <= 'z') || ('A' <= c && c <= 'Z') || ('0' <= c && c <= '9')
}

/// `char::is_ascii_hexdigit`.
pub open spec fn is_hex_digit(c: char) -> bool {
    ('a' <= c && c <= 'f') || ('A' <= c && c <= 'F') || ('0' <= c && c <= '9')
}

pub fn is_hex_digit_char(c: char) -> (r: bool)
    ensures
        r == is_hex_digit(c),
{
    ('a' <= c && c <= 'f') || ('A' <= c && c <= 'F') || ('0' <= c && c <= '9')
}

// ---------------------------------------------------------------------------
// Searching.
// ---------------------------------------------------------------------------

/// `p` occurs in `s` at position `i`.
pub open spec fn occurs_at(s: Seq<char>, p: Seq<char>, i: int) -> bool {
    0 <= i && i + p.len() <= s.len() && s.subrange(i, i + p.len()) == p
}

/// `str::contains` with a string pattern.
pub open spec fn contains(s: Seq<char>, p: Seq<char>) -> bool {
    exists|i: int| occurs_at(s, p, i)
}

/// `str::starts_with`.
pub open spec fn starts_with(s: Seq<char>, p: Seq<char>) -> bool {
    occurs_at(s, p, 0)
}

/// `str::ends_with`.
pub open spec fn ends_with(s: Seq<char>, p: Seq<char>) -> bool {
    p.len() <= s.len() && occurs_at(s, p, s.len() - p.len())
}

/// Whether `p` occurs in `s` at position `i`.
pub fn occurs_at_exec(s: &[char], p: &[char], i: usize) -> (r: bool)
    ensures
        r == occurs_at(s@, p@, i as int),
{
    if i > s.len() || p.len() > s.len() - i {
        return false;
    }
    let end: usize = i + p.len();
    let mut k: usize = 0;
    while k < p.len()
        invariant
            end == i + p@.len(),
            end <= s@.len(),
            k <= p@.len(),
            forall|m: int| 0 <= m < k ==> s@[i + m] == p@[m],
        decreases p.len() - k,
    {
        if s[i + k] != p[k] {
            assert(s@.subrange(i as int, i + p@.len())[k as int] != p@[k as int]);
            return false;
        }
        k = k + 1;
    }
    assert(s@.subrange(i as int, i + p@.len()) =~= p@);
    true
}

/// The first position at which `p` occurs in `s` (`str::find`).
pub fn find_first(s: &[char], p: &[char]) -> (r: Option<usize>)
    ensures
        match r {
            Some(i) => occurs_at(s@, p@, i as int) && forall|j: int|
                0 <= j < i ==> !occurs_at(s@, p@, j),
            None => !contains(s@, p@),
        },
{
    if p.len() > s.len() {
        return None;
    }
    let last = s.len() - p.len();
    let mut i: usize = 0;
    loop
        invariant
            last + p@.len() == s@.len(),
            i <= last,
            forall|j: int| 0 <= j < i ==> !occurs_at(s@, p@, j),
        decreases last - i,
    {
        if occurs_at_exec(s, p, i) {
            return Some(i);
        }
        if i == last {
            assert forall|j: int| !occurs_at(s@, p@, j) by {
                if 0 <= j < i {
                }
            }
            return None;
        }
        i = i + 1;
    }
}

/// The last position at which `p` occurs in `s` (`str::rfind`).
pub fn find_last(s: &[char], p: &[char]) -> (r: Option<usize>)
    ensures
        match r {
            Some(i) => occurs_at(s@, p@, i as int) && forall|j: int|
                i < j ==> !occurs_at(s@, p@, j),
            None => !contains(s@, p@),
        },
{
    if p.len() > s.len() {
        return None;
    }
    let mut i: usize = s.len() - p.len();
    loop
        invariant
            i + p@.len() <= s@.len(),
            forall|j: int| i < j ==> !occurs_at(s@, p@, j),
        decreases i,
    {
        if occurs_at_exec(s, p, i) {
            return Some(i);
        }
        if i == 0 {
            assert forall|j: int| !occurs_at(s@, p@, j) by {
                if j > 0 {
                }
            }
            return None;
        }
        i = i - 1;
    }
}

/// The first position at which `p` occurs in `s`.
#[verifier::opaque]
pub open spec fn first_occurrence(s: Seq<char>, p: Seq<char>) -> Option<int> {
    if contains(s, p) {
        Some(choose|k: int| occurs_at(s, p, k) && forall|j: int| 0 <= j < k ==> !occurs_at(s, p, j))
    } else {
        None
    }
}

/// An occurrence with none before it is the first.
pub proof fn lemma_first_occurrence(s: Seq<char>, p: Seq<char>, i: int)
    requires
        occurs_at(s, p, i),
        forall|j: int| 0 <= j < i ==> !occurs_at(s, p, j),
    ensures
        first_occurrence(s, p) == Some(i),
{
    reveal(first_occurrence);
    let k = choose|k: int| occurs_at(s, p, k) && forall|j: int| 0 <= j < k ==> !occurs_at(s, p, j);
    if k < i {
        assert(!occurs_at(s, p, k));
    }
    if i < k {
        assert(!occurs_at(s, p, i));
    }
}

/// `str::find`, stated through `first_occurrence`.
pub fn find_first_occurrence(s: &[char], p: &[char]) -> (r: Option<usize>)
    ensures
        match r {
            Some(i) => first_occurrence(s@, p@) == Some(i as int) && i + p@.len() <= s@.len(),
            None => first_occurrence(s@, p@) is None,
        },
{
    match find_first(s, p) {
        Some(i) => {
            proof {
                lemma_first_occurrence(s@, p@, i as int);
            }
            Some(i)
        },
        None => {
            proof {
                reveal(first_occurrence);
            }
            None
        },
    }
}

/// The last position at which `p` occurs in `s`.
#[verifier::opaque]
pub open spec fn last_occurrence(s: Seq<char>, p: Seq<char>) -> Option<int> {
    if contains(s, p) {
        Some(choose|k: int| occurs_at(s, p, k) && forall|j: int| k < j ==> !occurs_at(s, p, j))
    } else {
        None
    }
}

/// An occurrence with none after it is the last.
pub proof fn lemma_last_occurrence(s: Seq<char>, p: Seq<char>, i: int)
    requires
        occurs_at(s, p, i),
        forall|j: int| i < j ==> !occurs_at(s, p, j),
    ensures
        last_occurrence(s, p) == Some(i),
{
    reveal(last_occurrence);
    let k = choose|k: int| occurs_at(s, p, k) && forall|j: int| k < j ==> !occurs_at(s, p, j);
    if k < i {
        assert(!occurs_at(s, p, i));
    }
    if i < k {
        assert(!occurs_at(s, p, k));
    }
}

/// `str::rfind`, stated through `last_occurrence`.
pub fn find_last_occurrence(s: &[char], p: &[char]) -> (r: Option<usize>)
    ensures
        match r {
            Some(i) => last_occurrence(s@, p@) == Some(i as int) && i + p@.len() <= s@.len(),
            None => last_occurrence(s@, p@) is None,
        },
{
    match find_last(s, p) {
        Some(i) => {
            proof {
                lemma_last_occurrence(s@, p@, i as int);
            }
            Some(i)
        },
        None => {
            proof {
                reveal(last_occurrence);
            }
            None
        },
    }
}

pub fn contains_chars(s: &[char], p: &[char]) -> (r: bool)
    ensures
        r == contains(s@, p@),
{
    match find_first(s, p) {
        Some(_) => true,
        None => false,
    }
}

pub fn contains_str(s: &[char], p: &str) -> (r: bool)
    ensures
        r == contains(s@, p@),
{
    let pv = chars_of(p);
    contains_chars(s, pv.as_slice())
}

pub fn starts_with_str(s: &[char], p: &str) -> (r: bool)
    ensures
        r == starts_with(s@, p@),
{
    let pv = chars_of(p);
    occurs_at_exec(s, pv.as_slice(), 0)
}

pub fn ends_with_str(s: &[char], p: &str) -> (r: bool)
    ensures
        r == ends_with(s@, p@),
{
    let pv = chars_of(p);
    if pv.len() > s.len() {
        return false;
    }
    occurs_at_exec(s, pv.as_slice(), s.len() - pv.len())
}

/// The first position of `c` in `s`.
pub open spec fn first_index_of(s: Seq<char>, c: char) -> Option<int> {
    if s.contains(c) {
        Some(choose|i: int| 0 <= i < s.len() && s[i] == c && forall|j: int| 0 <= j < i ==> s[j] != c)
    } else {
        None
    }
}

/// A position holding `c`, with no `c` before it, is where `c` first occurs.
pub proof fn lemma_first_index_of(s: Seq<char>, c: char, i: int)
    requires
        0 <= i < s.len(),
        s[i] == c,
        forall|j: int| 0 <= j < i ==> s[j] != c,
    ensures
        first_index_of(s, c) == Some(i),
{
    assert(s.contains(c));
    let k = choose|k: int| 0 <= k < s.len() && s[k] == c && forall|j: int| 0 <= j < k ==> s[j] != c;
    if k < i {
        assert(s[k] != c);
    }
    if i < k {
        assert(s[i] != c);
    }
}

/// The first position of `c` in `s`.
pub fn find_char(s: &[char], c: char) -> (r: Option<usize>)
    ensures
        match r {
            Some(i) => first_index_of(s@, c) == Some(i as int) && i < s@.len(),
            None => first_index_of(s@, c) is None,
        },
{
    let mut i: usize = 0;
    while i < s.len()
        invariant
            i <= s@.len(),
            forall|j: int| 0 <= j < i ==> s@[j] != c,
        decreases s.len() - i,
    {
        if s[i] == c {
            proof {
                lemma_first_index_of(s@, c, i as int);
            }
            return Some(i);
        }
        i = i + 1;
    }
    assert(!s@.contains(c));
    None
}

/// `str::split_once` with a character separator.
pub open spec fn split_once_char(s: Seq<char>, c: char) -> Option<(Seq<char>, Seq<char>)> {
    match first_index_of(s, c) {
        Some(i) => Some((s.subrange(0, i), s.subrange(i + 1, s.len() as int))),
        None => None,
    }
}

pub fn split_once_chars(s: &[char], c: char) -> (r: Option<(Vec<char>, Vec<char>)>)
    ensures
        match r {
            Some((a, b)) => split_once_char(s@, c) == Some((a@, b@)),
            None => split_once_char(s@, c) is None,
        },
{
    match find_char(s, c) {
        Some(i) => {
            let n = s.len();
            let a = slice_range(s, 0, i);
            let b = slice_range(s, i + 1, n);
            Some((a, b))
        },
        None => None,
    }
}


// ---------------------------------------------------------------------------
// Decimal numbers.
// ---------------------------------------------------------------------------

pub open spec fn is_digit(c: char) -> bool {
    '0' <= c && c <= '9'
}

pub open spec fn digit_value(c: char) -> nat {
    ((c as u32) - ('0' as u32)) as nat
}

pub open spec fn all_digits(s: Seq<char>) -> bool {
    forall|i: int| 0 <= i < s.len() ==> is_digit(#[trigger] s[i])
}

/// The number that a sequence of decimal digits spells.
pub open spec fn digits_value(s: Seq<char>) -> nat
    decreases s.len(),
{
    if s.len() == 0 {
        0
    } else {
        digits_value(s.drop_last()) * 10 + digit_value(s.last())
    }
}

/// `s` without one leading `+`, as integer `FromStr` accepts it.
pub open spec fn unsigned_digits(s: Seq<char>) -> Seq<char> {
    if s.len() > 0 && s[0] == '+' {
        s.drop_first()
    } else {
        s
    }
}

/// `FromStr` for an unsigned integer type whose largest value is `max`:
/// an optional `+`, then at least one decimal digit, with no overflow.
pub open spec fn parse_unsigned(s: Seq<char>, max: nat) -> Option<nat> {
    let d = unsigned_digits(s);
    if d.len() > 0 && all_digits(d) && digits_value(d) <= max {
        Some(digits_value(d))
    } else {
        None
    }
}

/// A prefix of a run of digits is worth no more than the whole run.
pub proof fn lemma_digits_value_prefix(s: Seq<char>, k: int)
    requires
        all_digits(s),
        0 <= k <= s.len(),
    ensures
        digits_value(s.subrange(0, k)) <= digits_value(s),
    decreases s.len(),
{
    if k < s.len() {
        let t = s.drop_last();
        assert(all_digits(t)) by {
            assert forall|i: int| 0 <= i < t.len() implies is_digit(#[trigger] t[i]) by {
                assert(t[i] == s[i]);
            }
        }
        lemma_digits_value_prefix(t, k);
        assert(t.subrange(0, k) =~= s.subrange(0, k));
    } else {
        assert(s.subrange(0, k) =~= s);
    }
}

/// Parses `s` as `FromStr` parses an unsigned integer bounded by `max`.
pub fn parse_unsigned_chars(s: &[char], max: u64) -> (r: Option<u64>)
    ensures
        match r {
            Some(v) => parse_unsigned(s@, max as nat) == Some(v as nat),
            None => parse_unsigned(s@, max as nat) is None,
        },
{
    let n = s.len();
    let start: usize = if n > 0 && s[0] == '+' {
        1
    } else {
        0
    };
    let ghost d = unsigned_digits(s@);
    assert(d =~= s@.subrange(start as int, n as int));
    if start == n {
        return None;
    }
    let mut acc: u64 = 0;
    let mut i: usize = start;
    while i < n
        invariant
            start <= i <= n == s@.len(),
            d == unsigned_digits(s@),
            d == s@.subrange(start as int, n as int),
            all_digits(d.subrange(0, i - start)),
            acc as nat == digits_value(d.subrange(0, i - start)),
            acc <= max,
        decreases n - i,
    {
        let c = s[i];
        if !('0' <= c && c <= '9') {
            assert(d[i - start] == c);
            assert(!is_digit(d[i - start]));
            assert(!all_digits(d));
            assert(parse_unsigned(s@, max as nat) is None);
            return None;
        }
        let dv: u64 = ((c as u32) - 48) as u64;
        let ghost pre = d.subrange(0, i - start);
        let ghost next = d.subrange(0, i - start + 1);
        assert(next.drop_last() =~= pre);
        assert(all_digits(next)) by {
            assert forall|k: int| 0 <= k < next.len() implies is_digit(#[trigger] next[k]) by {
                if k < pre.len() {
                    assert(next[k] == pre[k]);
                }
            }
        }
        assert(digits_value(next) == digits_value(pre) * 10 + dv);
        if acc > max / 10 || dv > max - acc * 10 {
            proof {
                if all_digits(d) {
                    lemma_digits_value_prefix(d, i - start + 1);
                    assert(digits_value(d) > max);
                }
            }
            assert(parse_unsigned(s@, max as nat) is None);
            return None;
        }
        acc = acc * 10 + dv;
        i = i + 1;
    }
    assert(d.subrange(0, n - start) =~= d);
    Some(acc)
}

/// `u32::from_str`.
pub fn parse_u32(s: &[char]) -> (r: Option<u32>)
    ensures
        match r {
            Some(v) => parse_unsigned(s@, u32::MAX as nat) == Some(v as nat),
            None => parse_unsigned(s@, u32::MAX as nat) is None,
        },
{
    match parse_unsigned_chars(s, u32::MAX as u64) {
        Some(v) => Some(v as u32),
        None => None,
    }
}

/// `u16::from_str`.
pub fn parse_u16(s: &[char]) -> (r: Option<u16>)
    ensures
        match r {
            Some(v) => parse_unsigned(s@, u16::MAX as nat) == Some(v as nat),
            None => parse_unsigned(s@, u16::MAX as nat) is None,
        },
{
    match parse_unsigned_chars(s, u16::MAX as u64) {
        Some(v) => Some(v as u16),
        None => None,
    }
}

pub open spec fn digit_char(d: nat) -> char {
    ((d + 48) as u32) as char
}

/// The decimal spelling of `n`, as `Display` writes an integer.
pub open spec fn decimal(n: nat) -> Seq<char>
    decreases n,
{
    if n < 10 {
        seq![digit_char(n)]
    } else {
        decimal(n / 10).push(digit_char(n % 10))
    }
}

/// Appends the decimal spelling of `n`.
pub fn push_decimal(out: &mut Vec<char>, n: u64)
    ensures
        final(out)@ == old(out)@ + decimal(n as nat),
    decreases n,
{
    if n >= 10 {
        push_decimal(out, n / 10);
    }
    let d: u8 = (n % 10) as u8;
    out.push((d + 48) as char);
    proof {
        if n >= 10 {
            assert(decimal(n as nat) == decimal((n / 10) as nat).push(digit_char((n % 10) as nat)));
        }
    }
    assert(final(out)@ =~= old(out)@ + decimal(n as nat)) by {
        if n < 10 {
            assert(decimal(n as nat) =~= seq![digit_char(n as nat)]);
        }
    }
}

// ---------------------------------------------------------------------------
// Splitting and joining.
// ---------------------------------------------------------------------------

/// The character sequences of a sequence of strings.
pub open spec fn string_views(v: Seq<String>) -> Seq<Seq<char>> {
    Seq::new(v.len(), |i: int| v[i]@)
}

/// Appends a copy of `s`.
pub fn push_owned(out: &mut Vec<String>, s: &str)
    ensures
        string_views(final(out)@) == string_views(old(out)@).push(s@),
{
    let v = chars_of(s);
    out.push(string_of(v.as_slice()));
    assert(string_views(out@) =~= string_views(old(out)@).push(s@));
}

pub open spec fn views(v: Seq<Vec<char>>) -> Seq<Seq<char>> {
    v.map_values(|x: Vec<char>| x@)
}

/// `s` split at every character that `sep` accepts (`str::split`); the
/// separators are dropped and the result always has one more piece than
/// there are separators.
pub open spec fn split_by(s: Seq<char>, sep: spec_fn(char) -> bool) -> Seq<Seq<char>>
    decreases s.len(),
{
    if s.len() == 0 {
        seq![Seq::<char>::empty()]
    } else {
        let rest = split_by(s.drop_last(), sep);
        if sep(s.last()) {
            rest.push(Seq::<char>::empty())
        } else {
            rest.update(rest.len() - 1, rest.last().push(s.last()))
        }
    }
}

/// Splitting always gives at least one piece.
pub proof fn lemma_split_by_nonempty(s: Seq<char>, sep: spec_fn(char) -> bool)
    ensures
        split_by(s, sep).len() >= 1,
    decreases s.len(),
{
    if s.len() > 0 {
        lemma_split_by_nonempty(s.drop_last(), sep);
    }
}

/// The pieces of `ps` that are not empty.
pub open spec fn non_empty_pieces(ps: Seq<Seq<char>>) -> Seq<Seq<char>>
    decreases ps.len(),
{
    if ps.len() == 0 {
        ps
    } else if ps.last().len() > 0 {
        non_empty_pieces(ps.drop_last()).push(ps.last())
    } else {
        non_empty_pieces(ps.drop_last())
    }
}

pub open spec fn is_newline(c: char) -> bool {
    c == '\n'
}

pub open spec fn strip_cr(l: Seq<char>) -> Seq<char> {
    if l.len() > 0 && l.last() == '\r' {
        l.drop_last()
    } else {
        l
    }
}

/// `str::lines`: pieces between `\n`, a `\r` before each `\n` removed, and
/// no empty piece after a final `\n`.
pub open spec fn lines(s: Seq<char>) -> Seq<Seq<char>> {
    let p = split_by(s, |c: char| is_newline(c));
    let init = p.drop_last().map_values(|l: Seq<char>| strip_cr(l));
    if p.last().len() == 0 {
        init
    } else {
        init.push(p.last())
    }
}

/// `str::split_whitespace`.
pub open spec fn words(s: Seq<char>) -> Seq<Seq<char>> {
    non_empty_pieces(split_by(s, |c: char| is_white(c)))
}

/// The pieces of `s` between separators, with their views.
pub fn split_pieces(s: &[char], newline: bool) -> (r: Vec<Vec<char>>)
    ensures
        newline ==> views(r@) == split_by(s@, |c: char| is_newline(c)),
        !newline ==> views(r@) == split_by(s@, |c: char| is_white(c)),
{
    let ghost sep = if newline {
        |c: char| is_newline(c)
    } else {
        |c: char| is_white(c)
    };
    let mut pieces: Vec<Vec<char>> = Vec::new();
    let mut cur: Vec<char> = Vec::new();
    let mut i: usize = 0;
    proof {
        assert(s@.subrange(0, 0) =~= Seq::<char>::empty());
        assert(views(pieces@).push(cur@) =~= seq![Seq::<char>::empty()]);
    }
    while i < s.len()
        invariant
            i <= s@.len(),
            sep == (if newline {
                |c: char| is_newline(c)
            } else {
                |c: char| is_white(c)
            }),
            views(pieces@).push(cur@) == split_by(s@.subrange(0, i as int), sep),
        decreases s.len() - i,
    {
        let c = s[i];
        let is_sep = if newline {
            c == '\n'
        } else {
            is_white_char(c)
        };
        let ghost before = s@.subrange(0, i as int);
        let ghost after = s@.subrange(0, i + 1);
        assert(after.drop_last() =~= before);
        assert(after.last() == c);
        assert(sep(c) == is_sep);
        if is_sep {
            let done = cur;
            pieces.push(done);
            cur = Vec::new();
            proof {
                assert(views(pieces@).push(cur@) =~= split_by(before, sep).push(Seq::<char>::empty()));
            }
        } else {
            cur.push(c);
            proof {
                let rest = split_by(before, sep);
                assert(views(pieces@).push(cur@) =~= rest.update(rest.len() - 1, rest.last().push(c)));
            }
        }
        i = i + 1;
    }
    pieces.push(cur);
    proof {
        assert(s@.subrange(0, s@.len() as int) =~= s@);
    }
    pieces
}

/// `str::lines`.
pub fn lines_of(s: &[char]) -> (r: Vec<Vec<char>>)
    ensures
        views(r@) == lines(s@),
{
    let mut pieces = split_pieces(s, true);
    let ghost p = views(pieces@);
    proof {
        lemma_split_by_nonempty(s@, |c: char| is_newline(c));
    }
    let last = pieces.pop().unwrap();
    let mut r: Vec<Vec<char>> = Vec::new();
    let mut i: usize = 0;
    while i < pieces.len()
        invariant
            i <= pieces@.len(),
            p.len() == pieces@.len() + 1,
            forall|k: int| 0 <= k < pieces@.len() ==> #[trigger] pieces@[k]@ == p[k],
            views(r@) == p.drop_last().map_values(|l: Seq<char>| strip_cr(l)).subrange(
                0,
                i as int,
            ),
        decreases pieces.len() - i,
    {
        let piece = &pieces[i];
        let n = piece.len();
        let line = if n > 0 && piece[n - 1] == '\r' {
            slice_range(piece.as_slice(), 0, n - 1)
        } else {
            slice_range(piece.as_slice(), 0, n)
        };
        proof {
            if n > 0 {
                assert(piece@.drop_last() =~= piece@.subrange(0, n - 1));
            }
            assert(piece@.subrange(0, n as int) =~= piece@);
        }
        proof {
            assert(line@ == strip_cr(p[i as int]));
            assert(p.drop_last()[i as int] == p[i as int]);
        }
        let ghost old_r = r@;
        r.push(line);
        proof {
            assert(views(r@) =~= views(old_r).push(line@));
            assert(views(r@) =~= p.drop_last().map_values(|l: Seq<char>| strip_cr(l)).subrange(
                0,
                i + 1,
            ));
        }
        i = i + 1;
    }
    proof {
        assert(p.drop_last().map_values(|l: Seq<char>| strip_cr(l)).subrange(
            0,
            pieces@.len() as int,
        ) =~= p.drop_last().map_values(|l: Seq<char>| strip_cr(l)));
        assert(p.last() == last@);
    }
    if last.len() > 0 {
        r.push(last);
        proof {
            assert(views(r@) =~= p.drop_last().map_values(|l: Seq<char>| strip_cr(l)).push(p.last()));
        }
    }
    r
}

/// `str::split_whitespace`.
pub fn words_of(s: &[char]) -> (r: Vec<Vec<char>>)
    ensures
        views(r@) == words(s@),
{
    let pieces = split_pieces(s, false);
    let ghost p = views(pieces@);
    let mut r: Vec<Vec<char>> = Vec::new();
    let mut i: usize = 0;
    proof {
        assert(p.subrange(0, 0) =~= Seq::<Seq<char>>::empty());
    }
    while i < pieces.len()
        invariant
            i <= pieces@.len(),
            p == views(pieces@),
            views(r@) == non_empty_pieces(p.subrange(0, i as int)),
        decreases pieces.len() - i,
    {
        let ghost pre = p.subrange(0, i as int);
        let ghost next = p.subrange(0, i + 1);
        assert(next.drop_last() =~= pre);
        assert(next.last() == pieces@[i as int]@);
        if pieces[i].len() > 0 {
            let w = slice_range(pieces[i].as_slice(), 0, pieces[i].len());
            proof {
                assert(pieces@[i as int]@.subrange(0, pieces@[i as int]@.len() as int) =~= pieces@[i as int]@);
            }
            r.push(w);
            proof {
                assert(views(r@) =~= non_empty_pieces(pre).push(next.last()));
            }
        }
        i = i + 1;
    }
    proof {
        assert(p.subrange(0, p.len() as int) =~= p);
    }
    r
}

/// Joins `ws` with `sep` between consecutive pieces (`[T]::join`).
pub open spec fn join(ws: Seq<Seq<char>>, sep: Seq<char>) -> Seq<char>
    decreases ws.len(),
{
    if ws.len() == 0 {
        Seq::<char>::empty()
    } else if ws.len() == 1 {
        ws[0]
    } else {
        join(ws.drop_last(), sep) + sep + ws.last()
    }
}

pub fn join_chars(ws: &Vec<Vec<char>>, sep: &[char]) -> (r: Vec<char>)
    ensures
        r@ == join(views(ws@), sep@),
{
    let mut r: Vec<char> = Vec::new();
    let mut i: usize = 0;
    while i < ws.len()
        invariant
            i <= ws@.len(),
            r@ == join(views(ws@).subrange(0, i as int), sep@),
        decreases ws.len() - i,
    {
        let ghost pre = views(ws@).subrange(0, i as int);
        let ghost next = views(ws@).subrange(0, i + 1);
        assert(next.drop_last() =~= pre);
        if i > 0 {
            append_chars(&mut r, sep);
        }
        append_chars(&mut r, ws[i].as_slice());
        proof {
            if i == 0 {
                assert(r@ =~= next[0]);
            } else {
                assert(r@ =~= join(pre, sep@) + sep@ + next.last());
            }
        }
        i = i + 1;
    }
    proof {
        assert(views(ws@).subrange(0, ws@.len() as int) =~= views(ws@));
    }
    r
}

/// `s` with runs of whitespace collapsed to one space and the ends trimmed,
/// as `split_whitespace` then `join(" ")` gives it.
pub open spec fn collapse_white(s: Seq<char>) -> Seq<char> {
    join(words(s), seq![' '])
}

pub fn collapse_white_chars(s: &[char]) -> (r: Vec<char>)
    ensures
        r@ == collapse_white(s@),
{
    let ws = words_of(s);
    let sep: Vec<char> = vec![' '];
    proof {
        assert(sep@ =~= seq![' ']);
    }
    join_chars(&ws, sep.as_slice())
}

/// `s` with each `c` replaced by `r` (`str::replace` with a one-character
/// pattern).
pub open spec fn replace_char(s: Seq<char>, c: char, r: Seq<char>) -> Seq<char>
    decreases s.len(),
{
    if s.len() == 0 {
        s
    } else if s.last() == c {
        replace_char(s.drop_last(), c, r) + r
    } else {
        replace_char(s.drop_last(), c, r).push(s.last())
    }
}

pub fn replace_char_chars(s: &[char], c: char, r: &[char]) -> (out: Vec<char>)
    ensures
        out@ == replace_char(s@, c, r@),
{
    let mut out: Vec<char> = Vec::new();
    let mut i: usize = 0;
    while i < s.len()
        invariant
            i <= s@.len(),
            out@ == replace_char(s@.subrange(0, i as int), c, r@),
        decreases s.len() - i,
    {
        let ghost pre = s@.subrange(0, i as int);
        let ghost next = s@.subrange(0, i + 1);
        assert(next.drop_last() =~= pre);
        if s[i] == c {
            append_chars(&mut out, r);
        } else {
            out.push(s[i]);
        }
        i = i + 1;
    }
    assert(s@.subrange(0, s@.len() as int) =~= s@);
    out
}

/// The number of non-overlapping occurrences of `p` in `s`, scanning from
/// the left (`str::matches(..).count()`).
pub open spec fn count_matches(s: Seq<char>, p: Seq<char>) -> nat
    decreases s.len(),
{
    if p.len() == 0 || s.len() < p.len() {
        0
    } else if starts_with(s, p) {
        1 + count_matches(s.skip(p.len() as int), p)
    } else {
        count_matches(s.drop_first(), p)
    }
}

pub fn count_matches_chars(s: &[char], p: &[char]) -> (r: usize)
    requires
        p@.len() > 0,
    ensures
        r as nat == count_matches(s@, p@),
{
    let n = s.len();
    let m = p.len();
    let mut i: usize = 0;
    let mut count: usize = 0;
    proof {
        assert(s@.subrange(0, n as int) =~= s@);
    }
    while i < n && m <= n - i
        invariant
            i <= n == s@.len(),
            m == p@.len() > 0,
            count <= i,
            count + count_matches(s@.subrange(i as int, n as int), p@) == count_matches(s@, p@),
        decreases n - i,
    {
        let ghost t = s@.subrange(i as int, n as int);
        if occurs_at_exec(s, p, i) {
            assert(t.subrange(0, m as int) =~= s@.subrange(i as int, i + m));
            assert(t.skip(m as int) =~= s@.subrange(i + m, n as int));
            count = count + 1;
            i = i + m;
        } else {
            assert(t.subrange(0, m as int) =~= s@.subrange(i as int, i + m));
            assert(t.drop_first() =~= s@.subrange(i + 1, n as int));
            i = i + 1;
        }
    }
    count
}

/// The part of `s` after the last `c`, or all of `s` when there is none
/// (`str::rsplit(c).next()`).
pub open spec fn after_last(s: Seq<char>, c: char) -> Seq<char>
    decreases s.len(),
{
    if s.len() == 0 {
        s
    } else if s.last() == c {
        Seq::<char>::empty()
    } else {
        after_last(s.drop_last(), c).push(s.last())
    }
}

pub fn after_last_chars(s: &[char], c: char) -> (r: Vec<char>)
    ensures
        r@ == after_last(s@, c),
{
    let mut start: usize = 0;
    let mut i: usize = 0;
    while i < s.len()
        invariant
            start <= i <= s@.len(),
            s@.subrange(start as int, i as int) == after_last(s@.subrange(0, i as int), c),
        decreases s.len() - i,
    {
        let ghost pre = s@.subrange(0, i as int);
        let ghost next = s@.subrange(0, i + 1);
        assert(next.drop_last() =~= pre);
        if s[i] == c {
            start = i + 1;
            assert(s@.subrange(start as int, i + 1) =~= Seq::<char>::empty());
        } else {
            assert(s@.subrange(start as int, i + 1) =~= s@.subrange(start as int, i as int).push(
                s@[i as int],
            ));
        }
        i = i + 1;
    }
    assert(s@.subrange(0, s@.len() as int) =~= s@);
    slice_range(s, start, s.len())
}


// ---------------------------------------------------------------------------
// Trimming a set of characters (`str::trim_matches` with a char set).
// ---------------------------------------------------------------------------

/// `s` without leading characters that belong to `set`.
pub open spec fn trim_start_in(s: Seq<char>, set: Seq<char>) -> Seq<char>
    decreases s.len(),
{
    if s.len() > 0 && set.contains(s[0]) {
        trim_start_in(s.drop_first(), set)
    } else {
        s
    }
}

/// `s` without trailing characters that belong to `set`.
pub open spec fn trim_end_in(s: Seq<char>, set: Seq<char>) -> Seq<char>
    decreases s.len(),
{
    if s.len() > 0 && set.contains(s.last()) {
        trim_end_in(s.drop_last(), set)
    } else {
        s
    }
}

/// `s` without leading and trailing characters that belong to `set`.
pub open spec fn trim_in(s: Seq<char>, set: Seq<char>) -> Seq<char> {
    trim_end_in(trim_start_in(s, set), set)
}

pub fn char_in(c: char, set: &[char]) -> (r: bool)
    ensures
        r == set@.contains(c),
{
    let mut i: usize = 0;
    while i < set.len()
        invariant
            i <= set@.len(),
            forall|k: int| 0 <= k < i ==> set@[k] != c,
        decreases set.len() - i,
    {
        if set[i] == c {
            return true;
        }
        i = i + 1;
    }
    false
}

/// `trim_start_in(s, set)` as a new vector.
pub fn trim_start_in_chars(s: &[char], set: &[char]) -> (r: Vec<char>)
    ensures
        r@ == trim_start_in(s@, set@),
{
    let n = s.len();
    let mut i: usize = 0;
    proof {
        assert(s@.subrange(0, n as int) =~= s@);
    }
    while i < n && char_in(s[i], set)
        invariant
            i <= n == s@.len(),
            trim_start_in(s@.subrange(i as int, n as int), set@) == trim_start_in(s@, set@),
        decreases n - i,
    {
        assert(s@.subrange(i as int, n as int).drop_first() =~= s@.subrange(i + 1, n as int));
        i = i + 1;
    }
    let ghost t = s@.subrange(i as int, n as int);
    assert(trim_start_in(t, set@) == t) by {
        if t.len() > 0 {
            assert(t[0] == s@[i as int]);
        }
    }
    slice_range(s, i, n)
}

/// `trim_in(s, set)` as a new vector.
pub fn trim_in_chars(s: &[char], set: &[char]) -> (r: Vec<char>)
    ensures
        r@ == trim_in(s@, set@),
{
    let n = s.len();
    let mut i: usize = 0;
    proof {
        assert(s@.subrange(0, n as int) =~= s@);
    }
    while i < n && char_in(s[i], set)
        invariant
            i <= n == s@.len(),
            trim_start_in(s@.subrange(i as int, n as int), set@) == trim_start_in(s@, set@),
        decreases n - i,
    {
        assert(s@.subrange(i as int, n as int).drop_first() =~= s@.subrange(i + 1, n as int));
        i = i + 1;
    }
    let ghost t = s@.subrange(i as int, n as int);
    assert(trim_start_in(t, set@) == t) by {
        if t.len() > 0 {
            assert(t[0] == s@[i as int]);
        }
    }
    let mut j: usize = n;
    proof {
        assert(t.subrange(0, (j - i) as int) =~= t);
    }
    while j > i && char_in(s[j - 1], set)
        invariant
            i <= j <= n == s@.len(),
            t == s@.subrange(i as int, n as int),
            trim_end_in(t.subrange(0, (j - i) as int), set@) == trim_end_in(t, set@),
        decreases j - i,
    {
        proof {
            assert(t[(j - i) - 1] == s@[j - 1]);
            assert(t.subrange(0, (j - i) as int).drop_last() =~= t.subrange(0, (j - i) - 1));
        }
        j = j - 1;
    }
    let ghost u = t.subrange(0, (j - i) as int);
    assert(trim_end_in(u, set@) == u) by {
        if u.len() > 0 {
            assert(u.last() == s@[j - 1]);
        }
    }
    assert(u =~= s@.subrange(i as int, j as int));
    slice_range(s, i, j)
}


/// `trim_end(s)` as a new vector.
pub fn trim_end_chars(s: &[char]) -> (r: Vec<char>)
    ensures
        r@ == trim_end(s@),
{
    let n = s.len();
    let mut j: usize = n;
    proof {
        assert(s@.subrange(0, n as int) =~= s@);
    }
    while j > 0 && is_white_char(s[j - 1])
        invariant
            j <= n == s@.len(),
            trim_end(s@.subrange(0, j as int)) == trim_end(s@),
        decreases j,
    {
        proof {
            lemma_trim_end_step(s@, j as int);
        }
        j = j - 1;
    }
    let ghost u = s@.subrange(0, j as int);
    assert(trim_end(u) == u) by {
        if u.len() > 0 {
            assert(u.last() == s@[j - 1]);
        }
    }
    slice_range(s, 0, j)
}


// ---------------------------------------------------------------------------
// Laws of decimal spelling.
// ---------------------------------------------------------------------------

/// A decimal spelling is a non-empty run of digits.
pub proof fn lemma_decimal_digits(n: nat)
    ensures
        decimal(n).len() >= 1,
        all_digits(decimal(n)),
        digits_value(decimal(n)) == n,
    decreases n,
{
    assert(digit_value(digit_char((n % 10) as nat)) == n % 10);
    if n < 10 {
        assert(decimal(n).drop_last() =~= Seq::<char>::empty());
        assert(digit_value(digit_char(n)) == n);
        assert(digits_value(Seq::<char>::empty()) == 0);
        assert(decimal(n).last() == digit_char(n));
        assert(digits_value(decimal(n)) == digits_value(decimal(n).drop_last()) * 10 + digit_value(decimal(n).last()));
    }
    if n >= 10 {
        lemma_decimal_digits(n / 10);
        let d = decimal(n / 10);
        let s = decimal(n);
        assert(s.drop_last() =~= d);
        assert(s.last() == digit_char((n % 10) as nat));
        assert(digits_value(s) == digits_value(d) * 10 + digit_value(s.last()));
        assert((n / 10) * 10 + n % 10 == n);
        assert forall|i: int| 0 <= i < s.len() implies is_digit(#[trigger] s[i]) by {
            if i < d.len() {
                assert(s[i] == d[i]);
            }
        }
    }
}

/// Different numbers are spelled differently.
pub proof fn lemma_decimal_injective(a: nat, b: nat)
    requires
        decimal(a) == decimal(b),
    ensures
        a == b,
{
    lemma_decimal_digits(a);
    lemma_decimal_digits(b);
}

/// Reading back a decimal spelling gives the number (`FromStr` after `Display`).
pub proof fn lemma_parse_decimal(n: nat, max: nat)
    requires
        n <= max,
    ensures
        parse_unsigned(decimal(n), max) == Some(n),
{
    lemma_decimal_digits(n);
    assert(decimal(n)[0] != '+');
}

/// Where neither `a1` nor `a2` holds `c`, `a1 c b1` and `a2 c b2` are equal
/// only when `a1 == a2` and `b1 == b2`.
pub proof fn lemma_split_at_first(a1: Seq<char>, b1: Seq<char>, a2: Seq<char>, b2: Seq<char>, c: char)
    requires
        !a1.contains(c),
        !a2.contains(c),
        a1.push(c) + b1 == a2.push(c) + b2,
    ensures
        a1 == a2,
        b1 == b2,
{
    let s = a1.push(c) + b1;
    if a1.len() < a2.len() {
        assert(s[a1.len() as int] == c);
        assert((a2.push(c) + b2)[a1.len() as int] == a2[a1.len() as int]);
    } else if a2.len() < a1.len() {
        assert((a2.push(c) + b2)[a2.len() as int] == c);
        assert(s[a2.len() as int] == a1[a2.len() as int]);
    } else {
        assert forall|i: int| 0 <= i < a1.len() implies a1[i] == a2[i] by {
            assert(s[i] == a1[i]);
            assert((a2.push(c) + b2)[i] == a2[i]);
        }
        assert(a1 =~= a2);
        assert(b1 =~= s.subrange(a1.len() as int + 1, s.len() as int));
        assert(b2 =~= (a2.push(c) + b2).subrange(a2.len() as int + 1, s.len() as int));
    }
}


/// Replacing a character distributes over concatenation.
pub proof fn lemma_replace_char_concat(a: Seq<char>, b: Seq<char>, c: char, r: Seq<char>)
    ensures
        replace_char(a + b, c, r) == replace_char(a, c, r) + replace_char(b, c, r),
    decreases b.len(),
{
    if b.len() == 0 {
        assert(a + b =~= a);
        assert(replace_char(a, c, r) + replace_char(b, c, r) =~= replace_char(a, c, r));
    } else {
        lemma_replace_char_concat(a, b.drop_last(), c, r);
        assert((a + b).drop_last() =~= a + b.drop_last());
        assert((a + b).last() == b.last());
        if b.last() == c {
            assert(replace_char(a, c, r) + replace_char(b, c, r) =~= replace_char(a, c, r) + replace_char(b.drop_last(), c, r) + r);
        } else {
            assert(replace_char(a, c, r) + replace_char(b, c, r) =~= (replace_char(a, c, r) + replace_char(b.drop_last(), c, r)).push(b.last()));
        }
    }
}

} // verus!
