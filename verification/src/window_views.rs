//! Fingerprints of the archives that `cmd window dump-visible-window-views`
//! writes: one zip entry per visible window, named after the window.
//!
//! The fingerprint hashes the entries in name order, so two archives with the
//! same entries give the same fingerprint however they were packed. With a
//! target package, only that package's windows and the windows it shares with
//! every application (input method, pop-ups) count; where no window belongs to
//! the package, every window counts.
use std::collections::hash_map::DefaultHasher;
use std::hash::Hasher;
use std::io::Read;
use vstd::prelude::*;
use crate::error::{ErrorKind, McpError};
use crate::text::{append_str, chars_of, is_hex_digit, is_hex_digit_char, split_once_char, split_once_chars, starts_with, str_eq, str_eq_chars, string_of, string_views, trim, trim_chars};
use crate::verification::{opt_str};
use vstd::std_specs::hash::DefaultHasherAdditionalSpecFns;
use vstd::utf8::encode_utf8;

verus! {

// ---------------------------------------------------------------------------
// Entry names.
// ---------------------------------------------------------------------------

#[derive(Debug, Clone, Copy, PartialEq, Eq, Structural)]
pub enum VisibleWindowEntryKind {
    PackageWindow,
    InputMethod,
    PopupWindow,
    Other,
}

impl VisibleWindowEntryKind {
    pub open spec fn shared(self) -> bool {
        self is InputMethod || self is PopupWindow
    }

    /// Windows that overlay every application, so that a change in them is a
    /// change for the target package too.
    pub fn is_shared_with_target_package(self) -> (r: bool)
        ensures
            r == self.shared(),
    {
        match self {
            VisibleWindowEntryKind::InputMethod | VisibleWindowEntryKind::PopupWindow => true,
            _ => false,
        }
    }
}

pub struct VisibleWindowEntryMetadata {
    pub package_name: Option<String>,
    pub kind: VisibleWindowEntryKind,
}

/// A non-empty run of ASCII hex digits: the window token that prefixes an entry name.
pub open spec fn is_window_token(p: Seq<char>) -> bool {
    p.len() > 0 && forall|i: int| 0 <= i < p.len() ==> is_hex_digit(#[trigger] p[i])
}

/// The entry name without its leading window token, trimmed.
pub open spec fn entry_descriptor(name: Seq<char>) -> Seq<char> {
    trim(
        match split_once_char(name, ' ') {
            Some((prefix, rest)) => if is_window_token(prefix) {
                rest
            } else {
                name
            },
            None => name,
        },
    )
}

/// The package that owns the window an entry describes (`package/activity`).
pub open spec fn entry_package(name: Seq<char>) -> Option<Seq<char>> {
    match split_once_char(entry_descriptor(name), '/') {
        Some((package, _)) => if trim(package).len() > 0 {
            Some(trim(package))
        } else {
            None
        },
        None => None,
    }
}

pub open spec fn entry_kind(name: Seq<char>) -> VisibleWindowEntryKind {
    if entry_package(name) is Some {
        VisibleWindowEntryKind::PackageWindow
    } else if entry_descriptor(name) == "InputMethod"@ {
        VisibleWindowEntryKind::InputMethod
    } else if entry_descriptor(name) == "Pop-Up Window"@ {
        VisibleWindowEntryKind::PopupWindow
    } else {
        VisibleWindowEntryKind::Other
    }
}

fn is_window_token_exec(p: &[char]) -> (r: bool)
    ensures
        r == is_window_token(p@),
{
    if p.len() == 0 {
        return false;
    }
    let mut i: usize = 0;
    while i < p.len()
        invariant
            i <= p.len(),
            forall|k: int| 0 <= k < i ==> is_hex_digit(#[trigger] p@[k]),
        decreases p.len() - i,
    {
        if !is_hex_digit_char(p[i]) {
            return false;
        }
        i = i + 1;
    }
    true
}

/// The package and kind of the window that a dump entry describes.
pub fn visible_window_entry_metadata(entry_name: &str) -> (r: VisibleWindowEntryMetadata)
    ensures
        r.kind == entry_kind(entry_name@),
        match r.package_name {
            Some(p) => entry_package(entry_name@) == Some(p@),
            None => entry_package(entry_name@) is None,
        },
{
    let name = chars_of(entry_name);
    let stripped: Vec<char> = match split_once_chars(&name, ' ') {
        Some((prefix, rest)) => if is_window_token_exec(&prefix) {
            rest
        } else {
            name.clone()
        },
        None => name.clone(),
    };
    let descriptor = trim_chars(&stripped);
    assert(descriptor@ == entry_descriptor(entry_name@));
    match split_once_chars(&descriptor, '/') {
        Some((package, _activity)) => {
            let package = trim_chars(&package);
            if package.len() > 0 {
                return VisibleWindowEntryMetadata {
                    package_name: Some(string_of(&package)),
                    kind: VisibleWindowEntryKind::PackageWindow,
                };
            }
        },
        None => {},
    }
    let kind = if str_eq_chars("InputMethod", &descriptor) {
        VisibleWindowEntryKind::InputMethod
    } else if str_eq_chars("Pop-Up Window", &descriptor) {
        VisibleWindowEntryKind::PopupWindow
    } else {
        VisibleWindowEntryKind::Other
    };
    VisibleWindowEntryMetadata { package_name: None, kind }
}

// ---------------------------------------------------------------------------
// Name order.
// ---------------------------------------------------------------------------

/// Lexicographic order on characters. It is the order of `str`'s `Ord`, which
/// compares UTF-8 bytes: UTF-8 keeps the order of code points.
pub open spec fn chars_before(a: Seq<char>, b: Seq<char>) -> bool
    decreases a.len(),
{
    if a.len() == 0 {
        b.len() > 0
    } else if b.len() == 0 {
        false
    } else if a[0] != b[0] {
        a[0] < b[0]
    } else {
        chars_before(a.drop_first(), b.drop_first())
    }
}

pub open spec fn names_sorted(s: Seq<Seq<char>>) -> bool {
    forall|i: int, j: int| 0 <= i < j < s.len() ==> !chars_before(#[trigger] s[j], #[trigger] s[i])
}

/// No name comes before itself.
pub proof fn lemma_chars_before_irreflexive(a: Seq<char>)
    ensures
        !chars_before(a, a),
    decreases a.len(),
{
    if a.len() > 0 {
        lemma_chars_before_irreflexive(a.drop_first());
    }
}

/// Of two different names, one comes before the other.
pub proof fn lemma_chars_before_total(a: Seq<char>, b: Seq<char>)
    ensures
        a == b || chars_before(a, b) || chars_before(b, a),
    decreases a.len(),
{
    if a.len() > 0 && b.len() > 0 && a[0] == b[0] {
        lemma_chars_before_total(a.drop_first(), b.drop_first());
        if a.drop_first() == b.drop_first() {
            assert(a =~= seq![a[0]] + a.drop_first());
            assert(b =~= seq![b[0]] + b.drop_first());
        }
    } else if a.len() == 0 && b.len() == 0 {
        assert(a =~= b);
    }
}

/// Two names never each come before the other.
pub proof fn lemma_chars_before_asymmetric(a: Seq<char>, b: Seq<char>)
    ensures
        !(chars_before(a, b) && chars_before(b, a)),
    decreases a.len(),
{
    if a.len() > 0 && b.len() > 0 && a[0] == b[0] {
        lemma_chars_before_asymmetric(a.drop_first(), b.drop_first());
    }
}

/// The name order is transitive.
pub proof fn lemma_chars_before_transitive(a: Seq<char>, b: Seq<char>, c: Seq<char>)
    requires
        chars_before(a, b),
        chars_before(b, c),
    ensures
        chars_before(a, c),
    decreases a.len(),
{
    if a.len() > 0 && b.len() > 0 && c.len() > 0 && a[0] == b[0] && b[0] == c[0] {
        lemma_chars_before_transitive(a.drop_first(), b.drop_first(), c.drop_first());
    }
}

/// `chars_before` on executable character slices.
pub fn chars_before_exec(a: &[char], b: &[char]) -> (r: bool)
    ensures
        r == chars_before(a@, b@),
{
    let mut i: usize = 0;
    assert(a@.subrange(0, a@.len() as int) =~= a@);
    assert(b@.subrange(0, b@.len() as int) =~= b@);
    while i < a.len() && i < b.len()
        invariant
            i <= a.len(),
            i <= b.len(),
            chars_before(a@, b@) == chars_before(
                a@.subrange(i as int, a@.len() as int),
                b@.subrange(i as int, b@.len() as int),
            ),
        decreases a.len() - i,
    {
        assert(a@.subrange(i as int, a@.len() as int).drop_first() =~= a@.subrange(
            i + 1,
            a@.len() as int,
        ));
        assert(b@.subrange(i as int, b@.len() as int).drop_first() =~= b@.subrange(
            i + 1,
            b@.len() as int,
        ));
        if a[i] != b[i] {
            return a[i] < b[i];
        }
        i = i + 1;
    }
    i < b.len()
}

/// The names in ascending order (`slice::sort` on strings).
pub fn sort_entry_names(names: Vec<String>) -> (r: Vec<String>)
    ensures
        names_sorted(string_views(r@)),
        string_views(r@).to_multiset() == string_views(names@).to_multiset(),
{
    let mut sorted: Vec<String> = Vec::new();
    let mut keys: Vec<Vec<char>> = Vec::new();
    let mut i: usize = 0;
    assert(string_views(sorted@) =~= string_views(names@.subrange(0, 0)));
    while i < names.len()
        invariant
            i <= names.len(),
            keys.len() == sorted.len(),
            forall|k: int| 0 <= k < keys.len() ==> #[trigger] keys@[k]@ == sorted@[k]@,
            names_sorted(string_views(sorted@)),
            string_views(sorted@).to_multiset() == string_views(
                names@.subrange(0, i as int),
            ).to_multiset(),
        decreases names.len() - i,
    {
        let key = chars_of(names[i].as_str());
        let mut j: usize = 0;
        while j < keys.len() && !chars_before_exec(&key, &keys[j])
            invariant
                j <= keys.len(),
                keys.len() == sorted.len(),
                forall|k: int| 0 <= k < keys.len() ==> #[trigger] keys@[k]@ == sorted@[k]@,
                forall|k: int| 0 <= k < j ==> !chars_before(key@, #[trigger] sorted@[k]@),
            decreases keys.len() - j,
        {
            j = j + 1;
        }
        let ghost old_views = string_views(sorted@);
        let name = names[i].clone();
        proof {
            assert(name@ == names@[i as int]@);
            assert(key@ == name@);
            assert forall|k: int| j <= k < old_views.len() implies !chars_before(
                #[trigger] old_views[k],
                key@,
            ) by {
                if chars_before(old_views[k], key@) {
                    if k == j {
                        lemma_chars_before_asymmetric(old_views[k], key@);
                    } else {
                        lemma_chars_before_transitive(old_views[k], key@, old_views[j as int]);
                        assert(!chars_before(old_views[k], old_views[j as int]));
                    }
                }
            }
        }
        sorted.insert(j, name);
        keys.insert(j, key);
        proof {
            let new_views = string_views(sorted@);
            assert(new_views =~= old_views.insert(j as int, key@));
            vstd::seq_lib::to_multiset_insert(old_views, j as int, key@);
            let prefix = string_views(names@.subrange(0, i as int));
            let next = string_views(names@.subrange(0, i + 1));
            assert(next =~= prefix.push(key@));
            assert(prefix.push(key@) =~= prefix.insert(prefix.len() as int, key@));
            vstd::seq_lib::to_multiset_insert(prefix, prefix.len() as int, key@);
            assert forall|a: int, b: int| 0 <= a < b < new_views.len() implies !chars_before(
                #[trigger] new_views[b],
                #[trigger] new_views[a],
            ) by {
                if a < j && b < j {
                } else if a < j && b == j {
                } else if a < j && b > j {
                } else if a == j {
                } else {
                    assert(new_views[a] == old_views[a - 1]);
                    assert(new_views[b] == old_views[b - 1]);
                }
            }
            assert forall|k: int| 0 <= k < keys.len() implies #[trigger] keys@[k]@ == sorted@[k]@ by {
            }
        }
        i = i + 1;
    }
    assert(names@.subrange(0, names.len() as int) =~= names@);
    sorted
}

/// Two sorted sequences with the same names, counted with repetition, are equal.
pub proof fn lemma_sorted_names_unique(a: Seq<Seq<char>>, b: Seq<Seq<char>>)
    requires
        names_sorted(a),
        names_sorted(b),
        a.to_multiset() == b.to_multiset(),
    ensures
        a == b,
    decreases a.len(),
{
    vstd::seq_lib::to_multiset_len(a);
    vstd::seq_lib::to_multiset_len(b);
    if a.len() == 0 {
        assert(a =~= b);
    } else {
        vstd::seq_lib::to_multiset_contains(a, a[0]);
        vstd::seq_lib::to_multiset_contains(b, b[0]);
        assert(a.to_multiset().count(a[0]) > 0);
        vstd::seq_lib::to_multiset_contains(b, a[0]);
        vstd::seq_lib::to_multiset_contains(a, b[0]);
        let ka = choose|k: int| 0 <= k < b.len() && b[k] == a[0];
        let kb = choose|k: int| 0 <= k < a.len() && a[k] == b[0];
        if ka > 0 {
            assert(!chars_before(b[ka], b[0]));
        }
        if kb > 0 {
            assert(!chars_before(a[kb], a[0]));
        }
        lemma_chars_before_irreflexive(a[0]);
        lemma_chars_before_total(a[0], b[0]);
        assert(a[0] == b[0]);
        vstd::seq_lib::to_multiset_remove(a, 0);
        vstd::seq_lib::to_multiset_remove(b, 0);
        assert(a.remove(0) =~= a.drop_first());
        assert(b.remove(0) =~= b.drop_first());
        lemma_sorted_names_unique(a.drop_first(), b.drop_first());
        assert(a =~= seq![a[0]] + a.drop_first());
        assert(b =~= seq![b[0]] + b.drop_first());
    }
}

/// `name` inserted into `s` before the first name that it precedes.
spec fn insert_name(s: Seq<Seq<char>>, name: Seq<char>) -> Seq<Seq<char>>
    decreases s.len(),
{
    if s.len() == 0 {
        seq![name]
    } else if chars_before(name, s[0]) {
        seq![name] + s
    } else {
        seq![s[0]] + insert_name(s.drop_first(), name)
    }
}

proof fn lemma_insert_name(s: Seq<Seq<char>>, name: Seq<char>)
    requires
        names_sorted(s),
    ensures
        names_sorted(insert_name(s, name)),
        insert_name(s, name).to_multiset() == s.to_multiset().insert(name),
        insert_name(s, name).len() == s.len() + 1,
        insert_name(s, name).len() > 0,
        insert_name(s, name)[0] == name || (s.len() > 0 && insert_name(s, name)[0] == s[0]),
    decreases s.len(),
{
    broadcast use vstd::seq_lib::group_to_multiset_ensures;
    let r = insert_name(s, name);
    if s.len() == 0 {
        assert(r =~= seq![name]);
        assert(seq![name] =~= Seq::<Seq<char>>::empty().push(name));
    } else if chars_before(name, s[0]) {
        assert(r =~= s.insert(0, name));
        vstd::seq_lib::to_multiset_insert(s, 0, name);
        assert forall|a: int, b: int| 0 <= a < b < r.len() implies !chars_before(
            #[trigger] r[b],
            #[trigger] r[a],
        ) by {
            if a == 0 {
                if b == 1 {
                    lemma_chars_before_asymmetric(name, s[0]);
                } else {
                    assert(!chars_before(s[b - 1], s[0]));
                    if chars_before(s[b - 1], name) {
                        lemma_chars_before_transitive(s[b - 1], name, s[0]);
                    }
                }
            } else {
                assert(r[a] == s[a - 1] && r[b] == s[b - 1]);
            }
        }
    } else {
        let rest = s.drop_first();
        assert(names_sorted(rest)) by {
            assert forall|a: int, b: int| 0 <= a < b < rest.len() implies !chars_before(
                #[trigger] rest[b],
                #[trigger] rest[a],
            ) by {
                assert(rest[a] == s[a + 1] && rest[b] == s[b + 1]);
            }
        }
        lemma_insert_name(rest, name);
        let tail = insert_name(rest, name);
        assert(r =~= seq![s[0]] + tail);
        assert(s =~= seq![s[0]] + rest);
        vstd::seq_lib::lemma_multiset_commutative(seq![s[0]], tail);
        vstd::seq_lib::lemma_multiset_commutative(seq![s[0]], rest);
        assert(tail.to_multiset() == rest.to_multiset().insert(name));
        assert(r.to_multiset() =~= s.to_multiset().insert(name));
        lemma_chars_before_total(name, s[0]);
        assert forall|a: int, b: int| 0 <= a < b < r.len() implies !chars_before(
            #[trigger] r[b],
            #[trigger] r[a],
        ) by {
            if a == 0 {
                assert(r[a] == s[0]);
                assert(r[b] == tail[b - 1]);
                if tail[b - 1] != name {
                    vstd::seq_lib::to_multiset_contains(tail, tail[b - 1]);
                    assert(tail.to_multiset().count(tail[b - 1]) > 0);
                    assert(rest.to_multiset().count(tail[b - 1]) > 0);
                    vstd::seq_lib::to_multiset_contains(rest, tail[b - 1]);
                    let k = choose|k: int| 0 <= k < rest.len() && rest[k] == tail[b - 1];
                    assert(s[k + 1] == rest[k]);
                } else {
                    lemma_chars_before_irreflexive(name);
                }
            } else {
                assert(r[a] == tail[a - 1] && r[b] == tail[b - 1]);
            }
        }
    }
}

/// Insertion sort, as a witness that every sequence of names has a sorted order.
spec fn insertion_sorted(names: Seq<Seq<char>>) -> Seq<Seq<char>>
    decreases names.len(),
{
    if names.len() == 0 {
        names
    } else {
        insert_name(insertion_sorted(names.drop_last()), names.last())
    }
}

proof fn lemma_insertion_sorted(names: Seq<Seq<char>>)
    ensures
        names_sorted(insertion_sorted(names)),
        insertion_sorted(names).to_multiset() == names.to_multiset(),
    decreases names.len(),
{
    broadcast use vstd::seq_lib::group_to_multiset_ensures;
    if names.len() > 0 {
        lemma_insertion_sorted(names.drop_last());
        lemma_insert_name(insertion_sorted(names.drop_last()), names.last());
        assert(names =~= names.drop_last().push(names.last()));
    }
}

/// `sorted_names` is sorted and holds the same names.
pub proof fn lemma_sorted_names(names: Seq<Seq<char>>)
    ensures
        names_sorted(sorted_names(names)),
        sorted_names(names).to_multiset() == names.to_multiset(),
{
    lemma_insertion_sorted(names);
    let w = insertion_sorted(names);
    assert(names_sorted(w) && w.to_multiset() == names.to_multiset());
}

// ---------------------------------------------------------------------------
// Hexadecimal rendering.
// ---------------------------------------------------------------------------

pub open spec fn hex_digit_char(d: nat) -> char {
    if d < 10 {
        (('0' as u32) + d) as char
    } else {
        (('a' as u32) + d - 10) as char
    }
}

/// The last `width` lowercase hexadecimal digits of `n`, most significant first.
pub open spec fn hex_fixed(n: nat, width: nat) -> Seq<char>
    decreases width,
{
    if width == 0 {
        Seq::empty()
    } else {
        hex_fixed(n / 16, (width - 1) as nat).push(hex_digit_char(n % 16))
    }
}

fn hex_digit(d: u64) -> (c: char)
    requires
        d < 16,
    ensures
        c == hex_digit_char(d as nat),
{
    let chars = ['0', '1', '2', '3', '4', '5', '6', '7', '8', '9', 'a', 'b', 'c', 'd', 'e', 'f'];
    let c = chars[d as usize];
    assert(c == hex_digit_char(d as nat)) by {
        assert(chars@ == seq!['0', '1', '2', '3', '4', '5', '6', '7', '8', '9', 'a', 'b', 'c', 'd', 'e', 'f']);
    }
    c
}

fn push_hex_fixed(out: &mut Vec<char>, n: u64, width: u64)
    ensures
        final(out)@ == old(out)@ + hex_fixed(n as nat, width as nat),
    decreases width,
{
    if width > 0 {
        push_hex_fixed(out, n / 16, width - 1);
        out.push(hex_digit(n % 16));
    }
}

/// `format!("{:016x}", value)`: sixteen lowercase hexadecimal digits.
pub fn format_fingerprint_hex(value: u64) -> (r: String)
    ensures
        r@ == hex_fixed(value as nat, 16),
{
    let mut out: Vec<char> = Vec::new();
    push_hex_fixed(&mut out, value, 16);
    string_of(&out)
}

// ---------------------------------------------------------------------------
// The archive.
// ---------------------------------------------------------------------------

#[verifier::external_type_specification]
#[verifier::external_body]
#[verifier::reject_recursive_types(T)]
pub struct ExCursor<T>(std::io::Cursor<T>);

#[verifier::external_type_specification]
#[verifier::external_body]
#[verifier::reject_recursive_types(R)]
pub struct ExZipArchive<R>(zip::ZipArchive<R>);

/// What `zip::ZipArchive::new` reads from an archive's bytes: `None` where it
/// refuses them; else the entry names in central-directory order and, for each
/// entry that can be found and decompressed, its bytes.
pub uninterp spec fn zip_directory(payload: Seq<u8>) -> Option<(Seq<Seq<char>>, Map<Seq<char>, Seq<u8>>)>;

/// The entry names of an opened archive, in central-directory order.
pub uninterp spec fn zip_archive_names(archive: zip::ZipArchive<std::io::Cursor<Vec<u8>>>) -> Seq<Seq<char>>;

/// The bytes of each entry of an opened archive that can be found and decompressed.
pub uninterp spec fn zip_archive_contents(archive: zip::ZipArchive<std::io::Cursor<Vec<u8>>>) -> Map<Seq<char>, Seq<u8>>;

/// `zip::ZipArchive::new` over a copy of the bytes. Claimed: it succeeds exactly
/// where `zip_directory` has a value, and the archive then holds those names and
/// contents. The error is the crate's message for the failure.
#[verifier::external_body]
fn open_zip_archive(payload: &[u8]) -> (r: Result<zip::ZipArchive<std::io::Cursor<Vec<u8>>>, String>)
    ensures
        r is Ok <==> zip_directory(payload@) is Some,
        r matches Ok(archive) ==> zip_archive_names(archive) == zip_directory(payload@).unwrap().0
            && zip_archive_contents(archive) == zip_directory(payload@).unwrap().1,
{
    zip::ZipArchive::new(std::io::Cursor::new(payload.to_vec())).map_err(|error| error.to_string())
}

/// `zip::ZipArchive::file_names`, collected. Claimed: the archive's names in order.
#[verifier::external_body]
fn zip_entry_names(archive: &zip::ZipArchive<std::io::Cursor<Vec<u8>>>) -> (names: Vec<String>)
    ensures
        string_views(names@) == zip_archive_names(*archive),
{
    archive.file_names().map(|name| name.to_string()).collect()
}

/// Why an entry could not be read: `by_name` did not find or open it, or its
/// data did not decompress.
pub enum ZipEntryFailure {
    Unopened(String),
    Undecoded(String),
}

/// `zip::ZipArchive::by_name` followed by `Read::read_to_end` on the entry.
/// Claimed: it succeeds exactly for the entries that `zip_archive_contents`
/// holds and returns their bytes; the archive's names and contents stay as
/// they were.
#[verifier::external_body]
fn read_zip_entry(archive: &mut zip::ZipArchive<std::io::Cursor<Vec<u8>>>, name: &str) -> (r: Result<Vec<u8>, ZipEntryFailure>)
    ensures
        r is Ok <==> zip_archive_contents(*old(archive)).contains_key(name@),
        r matches Ok(data) ==> data@ == zip_archive_contents(*old(archive))[name@],
        zip_archive_names(*final(archive)) == zip_archive_names(*old(archive)),
        zip_archive_contents(*final(archive)) == zip_archive_contents(*old(archive)),
{
    let mut entry = match archive.by_name(name) {
        Ok(entry) => entry,
        Err(error) => return Err(ZipEntryFailure::Unopened(error.to_string())),
    };
    let mut data = Vec::new();
    match entry.read_to_end(&mut data) {
        Ok(_) => Ok(data),
        Err(error) => Err(ZipEntryFailure::Undecoded(error.to_string())),
    }
}

// ---------------------------------------------------------------------------
// The fingerprint.
// ---------------------------------------------------------------------------

/// The `count` bytes of `n`, least significant first.
pub open spec fn le_bytes(n: nat, count: nat) -> Seq<u8>
    decreases count,
{
    if count == 0 {
        Seq::empty()
    } else {
        seq![(n % 256) as u8] + le_bytes(n / 256, (count - 1) as nat)
    }
}

/// What `Hash::hash` hands the hasher for one entry's name and data: the name's
/// UTF-8 bytes with the `0xff` that ends a `str`, then the data's length as a
/// little-endian `usize` and the data.
pub open spec fn entry_writes(name: Seq<char>, data: Seq<u8>) -> Seq<Seq<u8>> {
    seq![encode_utf8(name), seq![0xffu8], le_bytes(data.len(), (usize::BITS / 8) as nat), data]
}

/// Whether an entry counts toward the fingerprint for the target package.
pub open spec fn entry_counts_for(name: Seq<char>, target: Option<Seq<char>>) -> bool {
    match target {
        None => true,
        Some(t) => entry_package(name) == Some(t) || entry_kind(name).shared(),
    }
}

/// The writes, in order, for the entries of `names` that count.
pub open spec fn fingerprint_writes(
    names: Seq<Seq<char>>,
    contents: Map<Seq<char>, Seq<u8>>,
    target: Option<Seq<char>>,
) -> Seq<Seq<u8>>
    decreases names.len(),
{
    if names.len() == 0 {
        Seq::empty()
    } else {
        let earlier = fingerprint_writes(names.drop_last(), contents, target);
        if entry_counts_for(names.last(), target) {
            earlier + entry_writes(names.last(), contents[names.last()])
        } else {
            earlier
        }
    }
}

/// Every entry that counts can be read.
pub open spec fn counted_entries_readable(
    names: Seq<Seq<char>>,
    contents: Map<Seq<char>, Seq<u8>>,
    target: Option<Seq<char>>,
) -> bool {
    forall|i: int|
        0 <= i < names.len() && entry_counts_for(#[trigger] names[i], target)
            ==> contents.contains_key(names[i])
}

pub open spec fn names_mention_package(names: Seq<Seq<char>>, package: Seq<char>) -> bool {
    exists|i: int| 0 <= i < names.len() && entry_package(#[trigger] names[i]) == Some(package)
}

/// The target that takes effect: none where no window belongs to it.
pub open spec fn effective_target(names: Seq<Seq<char>>, target: Option<Seq<char>>) -> Option<Seq<char>> {
    match target {
        Some(t) => if names_mention_package(names, t) {
            target
        } else {
            None
        },
        None => None,
    }
}

/// The names in ascending order.
pub open spec fn sorted_names(names: Seq<Seq<char>>) -> Seq<Seq<char>> {
    choose|s: Seq<Seq<char>>| names_sorted(s) && s.to_multiset() == names.to_multiset()
}

/// The fingerprint of an archive with these names and contents.
pub open spec fn dump_fingerprint(
    names: Seq<Seq<char>>,
    contents: Map<Seq<char>, Seq<u8>>,
    target: Option<Seq<char>>,
) -> u64 {
    let sorted = sorted_names(names);
    DefaultHasher::spec_finish(fingerprint_writes(sorted, contents, effective_target(sorted, target)))
}

pub open spec fn dump_readable(
    names: Seq<Seq<char>>,
    contents: Map<Seq<char>, Seq<u8>>,
    target: Option<Seq<char>>,
) -> bool {
    let sorted = sorted_names(names);
    counted_entries_readable(sorted, contents, effective_target(sorted, target))
}

/// Any sorted arrangement of the names is `sorted_names`.
pub proof fn lemma_sorted_names_of(names: Seq<Seq<char>>, sorted: Seq<Seq<char>>)
    requires
        names_sorted(sorted),
        sorted.to_multiset() == names.to_multiset(),
    ensures
        sorted_names(names) == sorted,
{
    let s = sorted_names(names);
    assert(names_sorted(s) && s.to_multiset() == names.to_multiset());
    lemma_sorted_names_unique(s, sorted);
}

fn le_bytes_exec(n: usize, count: usize) -> (r: Vec<u8>)
    ensures
        r@ == le_bytes(n as nat, count as nat),
    decreases count,
{
    if count == 0 {
        Vec::new()
    } else {
        let mut r: Vec<u8> = Vec::new();
        r.push((n % 256) as u8);
        let mut rest = le_bytes_exec(n / 256, count - 1);
        r.append(&mut rest);
        r
    }
}

proof fn lemma_starts_with_concat(p: Seq<char>, rest: Seq<char>)
    ensures
        starts_with(p + rest, p),
{
    assert((p + rest).subrange(0, p.len() as int) =~= p);
}

/// Feeds one entry to the hasher as `name.hash(..)` and `data.hash(..)` do.
fn hash_entry(hasher: &mut DefaultHasher, name: &str, data: &Vec<u8>, width: usize)
    requires
        width == usize::BITS / 8,
    ensures
        final(hasher)@ == old(hasher)@ + entry_writes(name@, data@),
{
    hasher.write(name.as_bytes());
    let terminator: Vec<u8> = vec![0xffu8];
    hasher.write(terminator.as_slice());
    let length = le_bytes_exec(data.len(), width);
    hasher.write(length.as_slice());
    hasher.write(data.as_slice());
    assert(terminator@ == seq![0xffu8]);
    assert(hasher@ =~= old(hasher)@ + entry_writes(name@, data@));
}

proof fn lemma_readable_step(
    before: Seq<Seq<char>>,
    name: Seq<char>,
    contents: Map<Seq<char>, Seq<u8>>,
    target: Option<Seq<char>>,
)
    ensures
        counted_entries_readable(before.push(name), contents, target) <==> (
        counted_entries_readable(before, contents, target) && (entry_counts_for(name, target)
            ==> contents.contains_key(name))),
{
    let after = before.push(name);
    if counted_entries_readable(after, contents, target) {
        assert forall|k: int| 0 <= k < before.len() && entry_counts_for(#[trigger] before[k], target)
            implies contents.contains_key(before[k]) by {
            assert(after[k] == before[k]);
        }
        assert(after[before.len() as int] == name);
    }
    if counted_entries_readable(before, contents, target) && (entry_counts_for(name, target)
        ==> contents.contains_key(name)) {
        assert forall|k: int| 0 <= k < after.len() && entry_counts_for(#[trigger] after[k], target)
            implies contents.contains_key(after[k]) by {
            if k < before.len() {
                assert(after[k] == before[k]);
            }
        }
    }
}

proof fn lemma_mention_step(before: Seq<Seq<char>>, name: Seq<char>, package: Seq<char>)
    ensures
        names_mention_package(before.push(name), package) <==> (names_mention_package(
            before,
            package,
        ) || entry_package(name) == Some(package)),
{
    let after = before.push(name);
    if names_mention_package(before, package) {
        let k = choose|k: int| 0 <= k < before.len() && entry_package(#[trigger] before[k]) == Some(package);
        assert(after[k] == before[k]);
    }
    if names_mention_package(after, package) {
        let k = choose|k: int| 0 <= k < after.len() && entry_package(#[trigger] after[k]) == Some(package);
        if k < before.len() {
            assert(before[k] == after[k]);
        }
    }
    if entry_package(name) == Some(package) {
        assert(after[before.len() as int] == name);
    }
}

/// Whether an entry counts for the target, and whether it belongs to it.
fn entry_counted(name: &str, target_package: Option<&str>) -> (r: (bool, bool))
    ensures
        r.0 == entry_counts_for(name@, opt_str(target_package)),
        r.1 == (target_package matches Some(t) && entry_package(name@) == Some(t@)),
{
    let metadata = visible_window_entry_metadata(name);
    match target_package {
        None => (true, false),
        Some(t) => {
            let belongs = match &metadata.package_name {
                Some(p) => str_eq(p.as_str(), t),
                None => false,
            };
            (belongs || metadata.kind.is_shared_with_target_package(), belongs)
        },
    }
}

fn entry_failure_message(name: &str, failure: ZipEntryFailure) -> (s: String)
    ensures
        starts_with(s@, "failed to read visible-window entry `"@) || starts_with(
            s@,
            "failed to decode visible-window entry `"@,
        ),
{
    match failure {
        ZipEntryFailure::Unopened(detail) => {
            let s = entry_error("failed to read visible-window entry `", name, detail.as_str());
            proof {
                lemma_starts_with_concat("failed to read visible-window entry `"@, name@ + "`: "@ + detail@);
                assert(s@ =~= "failed to read visible-window entry `"@ + (name@ + "`: "@ + detail@));
            }
            s
        },
        ZipEntryFailure::Undecoded(detail) => {
            let s = entry_error("failed to decode visible-window entry `", name, detail.as_str());
            proof {
                lemma_starts_with_concat("failed to decode visible-window entry `"@, name@ + "`: "@ + detail@);
                assert(s@ =~= "failed to decode visible-window entry `"@ + (name@ + "`: "@ + detail@));
            }
            s
        },
    }
}

fn entry_error(prefix: &str, name: &str, detail: &str) -> (s: String)
    ensures
        s@ == prefix@ + name@ + "`: "@ + detail@,
{
    let mut v = chars_of(prefix);
    append_str(&mut v, name);
    append_str(&mut v, "`: ");
    append_str(&mut v, detail);
    string_of(v.as_slice())
}

/// Hashes the counted entries of `sorted`, in order. Also says whether one of
/// them belongs to the target package.
fn hash_window_entries(
    archive: &mut zip::ZipArchive<std::io::Cursor<Vec<u8>>>,
    sorted: &Vec<String>,
    target_package: Option<&str>,
) -> (r: (Result<u64, String>, bool))
    ensures
        zip_archive_names(*final(archive)) == zip_archive_names(*old(archive)),
        zip_archive_contents(*final(archive)) == zip_archive_contents(*old(archive)),
        r.0 is Ok <==> counted_entries_readable(
            string_views(sorted@),
            zip_archive_contents(*old(archive)),
            opt_str(target_package),
        ),
        r.0 matches Ok(value) ==> value == DefaultHasher::spec_finish(
            fingerprint_writes(
                string_views(sorted@),
                zip_archive_contents(*old(archive)),
                opt_str(target_package),
            ),
        ),
        r.0 is Ok ==> (r.1 <==> (target_package matches Some(t) && names_mention_package(
            string_views(sorted@),
            t@,
        ))),
        r.0 matches Err(e) ==> starts_with(e@, "failed to read visible-window entry `"@)
            || starts_with(e@, "failed to decode visible-window entry `"@),
{
    let ghost names = string_views(sorted@);
    let ghost contents = zip_archive_contents(*archive);
    let ghost target = opt_str(target_package);
    let mut hasher = DefaultHasher::new();
    let mut matched = false;
    let width: usize = (usize::BITS / 8) as usize;
    let mut i: usize = 0;
    assert(names.take(0) =~= Seq::<Seq<char>>::empty());
    while i < sorted.len()
        invariant
            i <= sorted.len(),
            names == string_views(sorted@),
            target == opt_str(target_package),
            width == usize::BITS / 8,
            zip_archive_names(*archive) == zip_archive_names(*old(archive)),
            zip_archive_contents(*archive) == contents,
            contents == zip_archive_contents(*old(archive)),
            hasher@ == fingerprint_writes(names.take(i as int), contents, target),
            counted_entries_readable(names.take(i as int), contents, target),
            matched <==> (target_package matches Some(t) && names_mention_package(
                names.take(i as int),
                t@,
            )),
        decreases sorted.len() - i,
    {
        let name: &str = sorted[i].as_str();
        let ghost before = names.take(i as int);
        let ghost after = names.take(i + 1);
        assert(after =~= before.push(name@));
        proof {
            lemma_readable_step(before, name@, contents, target);
            if let Some(t) = target_package {
                lemma_mention_step(before, name@, t@);
            }
        }
        let (counted, belongs) = entry_counted(name, target_package);
        if belongs {
            matched = true;
        }
        if counted {
            match read_zip_entry(archive, name) {
                Ok(data) => {
                    hash_entry(&mut hasher, name, &data, width);
                    assert(after.drop_last() =~= before);
                },
                Err(failure) => {
                    let message = entry_failure_message(name, failure);
                    assert(!counted_entries_readable(names, contents, target)) by {
                        assert(names[i as int] == name@);
                    }
                    return (Err(message), matched);
                },
            }
        } else {
            assert(after.drop_last() =~= before);
        }
        i = i + 1;
    }
    assert(names.take(sorted.len() as int) =~= names);
    (Ok(hasher.finish()), matched)
}

/// The fingerprint of a visible-window dump over every window.
pub fn normalized_visible_window_dump_fingerprint(payload: &[u8]) -> (r: Result<String, String>)
    ensures
        fingerprint_outcome_ok(payload@, None, r),
{
    normalized_visible_window_dump_fingerprint_for_package(payload, None)
}

/// The fast UI fingerprint of a visible-window dump, for a target package
/// where one is given; a failure becomes the tool's error, prefixed.
pub fn visible_window_fingerprint(payload: &[u8], target_package: Option<&str>) -> (r: Result<
    String,
    McpError,
>)
    ensures
        exists|inner: Result<String, String>|
            fingerprint_outcome_ok(payload@, opt_str(target_package), inner) && match inner {
                Ok(s) => r matches Ok(t) && t@ == s@,
                Err(m) => r matches Err(e) && e.kind == ErrorKind::InternalError && e.message@
                    == "failed to normalize visible-window dump fingerprint: "@ + m@,
            },
{
    let inner = normalized_visible_window_dump_fingerprint_for_package(payload, target_package);
    match inner {
        Ok(s) => Ok(s),
        Err(m) => {
            let mut v = chars_of("failed to normalize visible-window dump fingerprint: ");
            append_str(&mut v, m.as_str());
            Err(McpError::internal_error(string_of(v.as_slice())))
        },
    }
}

/// What the fingerprint of a dump comes to: an error where the archive cannot
/// be opened or a counted entry cannot be read, else the fingerprint in hex.
pub open spec fn fingerprint_outcome_ok(payload: Seq<u8>, target: Option<Seq<char>>, r: Result<String, String>) -> bool {
    match zip_directory(payload) {
        None => r matches Err(e) && starts_with(e@, "failed to open visible-window dump zip: "@),
        Some((names, contents)) => {
            &&& (r is Ok <==> dump_readable(names, contents, target))
            &&& (r matches Ok(s) ==> s@ == hex_fixed(dump_fingerprint(names, contents, target) as nat, 16))
            &&& (r matches Err(e) ==> starts_with(e@, "failed to read visible-window entry `"@)
                || starts_with(e@, "failed to decode visible-window entry `"@))
        },
    }
}

/// The fingerprint of a visible-window dump. With a target package, only that
/// package's windows and the input-method and pop-up windows count, unless no
/// window belongs to the package: then every window counts.
pub fn normalized_visible_window_dump_fingerprint_for_package(
    payload: &[u8],
    target_package: Option<&str>,
) -> (r: Result<String, String>)
    ensures
        fingerprint_outcome_ok(payload@, opt_str(target_package), r),
    decreases if target_package is Some { 1nat } else { 0nat },
{
    let mut archive = match open_zip_archive(payload) {
        Ok(archive) => archive,
        Err(detail) => {
            let mut v = chars_of("failed to open visible-window dump zip: ");
            append_str(&mut v, detail.as_str());
            let message = string_of(v.as_slice());
            proof {
                lemma_starts_with_concat("failed to open visible-window dump zip: "@, detail@);
            }
            return Err(message);
        },
    };
    let ghost names = zip_directory(payload@).unwrap().0;
    let ghost contents = zip_directory(payload@).unwrap().1;
    let listed = zip_entry_names(&archive);
    let sorted = sort_entry_names(listed);
    proof {
        lemma_sorted_names_of(names, string_views(sorted@));
    }
    let (result, matched) = hash_window_entries(&mut archive, &sorted, target_package);
    let value = match result {
        Ok(value) => value,
        Err(message) => {
            proof {
                if let Some(t) = target_package {
                    if !names_mention_package(string_views(sorted@), t@) {
                        lemma_all_counted_readable(string_views(sorted@), contents, t@);
                    }
                }
            }
            return Err(message);
        },
    };
    if target_package.is_some() && !matched {
        return normalized_visible_window_dump_fingerprint_for_package(payload, None);
    }
    Ok(format_fingerprint_hex(value))
}

// ---------------------------------------------------------------------------
// Laws of the fingerprint.
// ---------------------------------------------------------------------------

proof fn lemma_writes_agree(
    names: Seq<Seq<char>>,
    c1: Map<Seq<char>, Seq<u8>>,
    c2: Map<Seq<char>, Seq<u8>>,
    target: Option<Seq<char>>,
)
    requires
        forall|k: int|
            0 <= k < names.len() && entry_counts_for(#[trigger] names[k], target) ==> (
            c1.contains_key(names[k]) == c2.contains_key(names[k]) && c1[names[k]] == c2[names[k]]),
    ensures
        fingerprint_writes(names, c1, target) == fingerprint_writes(names, c2, target),
        counted_entries_readable(names, c1, target) == counted_entries_readable(names, c2, target),
    decreases names.len(),
{
    if names.len() > 0 {
        let earlier = names.drop_last();
        assert forall|k: int|
            0 <= k < earlier.len() && entry_counts_for(#[trigger] earlier[k], target) implies (
            c1.contains_key(earlier[k]) == c2.contains_key(earlier[k]) && c1[earlier[k]]
                == c2[earlier[k]]) by {
            assert(earlier[k] == names[k]);
        }
        lemma_writes_agree(earlier, c1, c2, target);
        assert(names.last() == names[names.len() - 1]);
        assert(names =~= earlier.push(names.last()));
        lemma_readable_step(earlier, names.last(), c1, target);
        lemma_readable_step(earlier, names.last(), c2, target);
    }
}

proof fn lemma_mention_sorted(names: Seq<Seq<char>>, package: Seq<char>)
    ensures
        names_mention_package(sorted_names(names), package) == names_mention_package(names, package),
{
    let s = sorted_names(names);
    lemma_sorted_names(names);
    if names_mention_package(names, package) {
        let k = choose|k: int| 0 <= k < names.len() && entry_package(#[trigger] names[k]) == Some(package);
        vstd::seq_lib::to_multiset_contains(names, names[k]);
        vstd::seq_lib::to_multiset_contains(s, names[k]);
        let j = choose|j: int| 0 <= j < s.len() && s[j] == names[k];
        assert(entry_package(s[j]) == Some(package));
    }
    if names_mention_package(s, package) {
        let k = choose|k: int| 0 <= k < s.len() && entry_package(#[trigger] s[k]) == Some(package);
        vstd::seq_lib::to_multiset_contains(s, s[k]);
        vstd::seq_lib::to_multiset_contains(names, s[k]);
        let j = choose|j: int| 0 <= j < names.len() && names[j] == s[k];
        assert(entry_package(names[j]) == Some(package));
    }
}

/// The fingerprint does not depend on how the archive was packed: two archives
/// whose entries have the same names, in whatever order, and the same contents
/// give the same fingerprint, and both or neither can be read.
pub proof fn lemma_fingerprint_ignores_entry_order(
    names1: Seq<Seq<char>>,
    names2: Seq<Seq<char>>,
    contents: Map<Seq<char>, Seq<u8>>,
    target: Option<Seq<char>>,
)
    requires
        names1.to_multiset() == names2.to_multiset(),
    ensures
        dump_fingerprint(names1, contents, target) == dump_fingerprint(names2, contents, target),
        dump_readable(names1, contents, target) == dump_readable(names2, contents, target),
{
    lemma_sorted_names(names1);
    lemma_sorted_names(names2);
    lemma_sorted_names_unique(sorted_names(names1), sorted_names(names2));
}

/// With a target package that no window belongs to, the fingerprint is the one
/// over every window.
pub proof fn lemma_fingerprint_falls_back_to_global(
    names: Seq<Seq<char>>,
    contents: Map<Seq<char>, Seq<u8>>,
    package: Seq<char>,
)
    requires
        !names_mention_package(names, package),
    ensures
        dump_fingerprint(names, contents, Some(package)) == dump_fingerprint(names, contents, None),
        dump_readable(names, contents, Some(package)) == dump_readable(names, contents, None),
{
    lemma_mention_sorted(names, package);
}

/// With a target package that a window belongs to, windows of other packages
/// and other system windows do not change the fingerprint: archives that
/// agree on the target's windows and on the shared ones give the same one.
pub proof fn lemma_fingerprint_ignores_unrelated_windows(
    names: Seq<Seq<char>>,
    contents1: Map<Seq<char>, Seq<u8>>,
    contents2: Map<Seq<char>, Seq<u8>>,
    package: Seq<char>,
)
    requires
        names_mention_package(names, package),
        forall|k: int|
            0 <= k < names.len() && entry_counts_for(#[trigger] names[k], Some(package)) ==> (
            contents1.contains_key(names[k]) == contents2.contains_key(names[k])
                && contents1[names[k]] == contents2[names[k]]),
    ensures
        dump_fingerprint(names, contents1, Some(package)) == dump_fingerprint(
            names,
            contents2,
            Some(package),
        ),
        dump_readable(names, contents1, Some(package)) == dump_readable(
            names,
            contents2,
            Some(package),
        ),
{
    lemma_mention_sorted(names, package);
    let s = sorted_names(names);
    lemma_sorted_names(names);
    assert forall|k: int|
        0 <= k < s.len() && entry_counts_for(#[trigger] s[k], Some(package)) implies (
        contents1.contains_key(s[k]) == contents2.contains_key(s[k]) && contents1[s[k]]
            == contents2[s[k]]) by {
        vstd::seq_lib::to_multiset_contains(s, s[k]);
        vstd::seq_lib::to_multiset_contains(names, s[k]);
        let j = choose|j: int| 0 <= j < names.len() && names[j] == s[k];
        assert(entry_counts_for(names[j], Some(package)));
    }
    lemma_writes_agree(s, contents1, contents2, Some(package));
}

proof fn lemma_writes_len(
    names: Seq<Seq<char>>,
    c1: Map<Seq<char>, Seq<u8>>,
    c2: Map<Seq<char>, Seq<u8>>,
    target: Option<Seq<char>>,
)
    ensures
        fingerprint_writes(names, c1, target).len() == fingerprint_writes(names, c2, target).len(),
    decreases names.len(),
{
    if names.len() > 0 {
        lemma_writes_len(names.drop_last(), c1, c2, target);
    }
}

proof fn lemma_concat_differs(a1: Seq<Seq<u8>>, a2: Seq<Seq<u8>>, b1: Seq<Seq<u8>>, b2: Seq<Seq<u8>>)
    requires
        a1.len() == a2.len(),
        a1 != a2 || b1 != b2,
    ensures
        a1 + b1 != a2 + b2,
{
    if a1 + b1 == a2 + b2 {
        assert((a1 + b1).subrange(0, a1.len() as int) =~= a1);
        assert((a2 + b2).subrange(0, a2.len() as int) =~= a2);
        assert((a1 + b1).subrange(a1.len() as int, (a1 + b1).len() as int) =~= b1);
        assert((a2 + b2).subrange(a2.len() as int, (a2 + b2).len() as int) =~= b2);
    }
}

/// A counted entry whose contents differ changes what the hasher is handed.
#[verifier::rlimit(60)]
#[verifier::spinoff_prover]
proof fn lemma_changed_entry_changes_writes(
    names: Seq<Seq<char>>,
    c1: Map<Seq<char>, Seq<u8>>,
    c2: Map<Seq<char>, Seq<u8>>,
    target: Option<Seq<char>>,
    x: Seq<char>,
)
    requires
        names.contains(x),
        entry_counts_for(x, target),
        c1.contains_key(x) && c2.contains_key(x),
        c1[x] != c2[x],
        forall|k: int| 0 <= k < names.len() && #[trigger] names[k] != x ==> c1[names[k]] == c2[names[k]],
    ensures
        fingerprint_writes(names, c1, target) != fingerprint_writes(names, c2, target),
    decreases names.len(),
{
    let p = names.drop_last();
    let last = names.last();
    let e1 = fingerprint_writes(p, c1, target);
    let e2 = fingerprint_writes(p, c2, target);
    lemma_writes_len(p, c1, c2, target);
    if last == x {
        let w1 = entry_writes(x, c1[x]);
        let w2 = entry_writes(x, c2[x]);
        assert(w1[3] == c1[x]);
        assert(w2[3] == c2[x]);
        lemma_concat_differs(e1, e2, w1, w2);
    } else {
        let j = choose|j: int| 0 <= j < names.len() && names[j] == x;
        assert(j < names.len() - 1);
        assert(p[j] == x);
        assert forall|k: int| 0 <= k < p.len() && #[trigger] p[k] != x implies c1[p[k]] == c2[p[k]] by {
            assert(p[k] == names[k]);
        }
        lemma_changed_entry_changes_writes(p, c1, c2, target, x);
        assert(names[names.len() - 1] == last);
        assert(c1[last] == c2[last]);
        if entry_counts_for(last, target) {
            lemma_concat_differs(e1, e2, entry_writes(last, c1[last]), entry_writes(last, c2[last]));
        }
    }
}

/// An entry named `... Pop-Up Window` or `... InputMethod` belongs to no
/// package: its descriptor holds no `/`.
proof fn lemma_shared_descriptor_kind(x: Seq<char>)
    ensures
        entry_descriptor(x) == "Pop-Up Window"@ ==> entry_kind(x) == VisibleWindowEntryKind::PopupWindow,
        entry_descriptor(x) == "InputMethod"@ ==> entry_kind(x) == VisibleWindowEntryKind::InputMethod,
        entry_kind(x) == VisibleWindowEntryKind::PopupWindow ==> entry_descriptor(x) == "Pop-Up Window"@,
        entry_kind(x) == VisibleWindowEntryKind::InputMethod ==> entry_descriptor(x) == "InputMethod"@,
{
    reveal_strlit("Pop-Up Window");
    reveal_strlit("InputMethod");
    let d = entry_descriptor(x);
    if d == "Pop-Up Window"@ || d == "InputMethod"@ {
        assert(!d.contains('/')) by {
            if d.contains('/') {
                let k = choose|k: int| 0 <= k < d.len() && d[k] == '/';
                assert(d[k] != '/');
            }
        }
        assert(split_once_char(d, '/') is None);
    }
}

/// The windows that a fingerprint for `target` covers: every window without
/// a target or where no window belongs to the target; else the target's own
/// windows, the input method and Pop-Up Windows.
pub open spec fn covered_window(names: Seq<Seq<char>>, x: Seq<char>, target: Option<Seq<char>>) -> bool {
    ||| target is None
    ||| !names_mention_package(names, target->0)
    ||| entry_package(x) == target
    ||| entry_descriptor(x) == "Pop-Up Window"@
    ||| entry_descriptor(x) == "InputMethod"@
}

/// A covered window counts toward the fingerprint: two archives with the
/// same entries whose contents differ only in that window hand the hasher
/// different inputs (the fingerprint is the hash of `fingerprint_writes`
/// over the sorted names).
pub proof fn lemma_covered_change_changes_fingerprint_input(
    names: Seq<Seq<char>>,
    c1: Map<Seq<char>, Seq<u8>>,
    c2: Map<Seq<char>, Seq<u8>>,
    target: Option<Seq<char>>,
    x: Seq<char>,
)
    requires
        names.contains(x),
        covered_window(names, x, target),
        c1.contains_key(x) && c2.contains_key(x),
        c1[x] != c2[x],
        forall|k: int| 0 <= k < names.len() && #[trigger] names[k] != x ==> c1[names[k]] == c2[names[k]],
    ensures
        fingerprint_writes(sorted_names(names), c1, effective_target(sorted_names(names), target))
            != fingerprint_writes(sorted_names(names), c2, effective_target(sorted_names(names), target)),
{
    let s = sorted_names(names);
    lemma_sorted_names(names);
    lemma_shared_descriptor_kind(x);
    if target is Some {
        lemma_mention_sorted(names, target->0);
    }
    vstd::seq_lib::to_multiset_contains(names, x);
    vstd::seq_lib::to_multiset_contains(s, x);
    assert forall|k: int| 0 <= k < s.len() && #[trigger] s[k] != x implies c1[s[k]] == c2[s[k]] by {
        vstd::seq_lib::to_multiset_contains(s, s[k]);
        vstd::seq_lib::to_multiset_contains(names, s[k]);
        let j = choose|j: int| 0 <= j < names.len() && names[j] == s[k];
        assert(names[j] != x);
    }
    assert(entry_counts_for(x, effective_target(s, target)));
    lemma_changed_entry_changes_writes(s, c1, c2, effective_target(s, target), x);
}

/// Pop-Up Windows count toward the fingerprint, with a target package as
/// without: two archives with the same entries whose contents differ only in
/// a Pop-Up Window hand the hasher different inputs.
pub proof fn lemma_popup_change_changes_fingerprint_input(
    names: Seq<Seq<char>>,
    c1: Map<Seq<char>, Seq<u8>>,
    c2: Map<Seq<char>, Seq<u8>>,
    target: Option<Seq<char>>,
    popup: Seq<char>,
)
    requires
        names.contains(popup),
        entry_descriptor(popup) == "Pop-Up Window"@,
        c1.contains_key(popup) && c2.contains_key(popup),
        c1[popup] != c2[popup],
        forall|k: int| 0 <= k < names.len() && #[trigger] names[k] != popup ==> c1[names[k]] == c2[names[k]],
    ensures
        fingerprint_writes(sorted_names(names), c1, effective_target(sorted_names(names), target))
            != fingerprint_writes(sorted_names(names), c2, effective_target(sorted_names(names), target)),
{
    lemma_covered_change_changes_fingerprint_input(names, c1, c2, target, popup);
}

/// With a target package that a window belongs to, a window that is not
/// covered (another package's window, or another system window) does not
/// count: archives that differ only in it give the same fingerprint and are
/// readable alike.
pub proof fn lemma_uncovered_change_keeps_fingerprint(
    names: Seq<Seq<char>>,
    c1: Map<Seq<char>, Seq<u8>>,
    c2: Map<Seq<char>, Seq<u8>>,
    package: Seq<char>,
    x: Seq<char>,
)
    requires
        names_mention_package(names, package),
        !covered_window(names, x, Some(package)),
        forall|k: int|
            0 <= k < names.len() && #[trigger] names[k] != x ==> c1.contains_key(names[k]) == c2.contains_key(
                names[k],
            ) && c1[names[k]] == c2[names[k]],
    ensures
        dump_fingerprint(names, c1, Some(package)) == dump_fingerprint(names, c2, Some(package)),
        dump_readable(names, c1, Some(package)) == dump_readable(names, c2, Some(package)),
{
    lemma_shared_descriptor_kind(x);
    assert(!entry_counts_for(x, Some(package)));
    lemma_fingerprint_ignores_unrelated_windows(names, c1, c2, package);
}

/// Where every entry can be read, so can every entry that counts for a target.
proof fn lemma_all_counted_readable(names: Seq<Seq<char>>, contents: Map<Seq<char>, Seq<u8>>, t: Seq<char>)
    ensures
        counted_entries_readable(names, contents, None) ==> counted_entries_readable(names, contents, Some(t)),
{
}

} // verus!
