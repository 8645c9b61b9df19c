//! Finding an emulator's gRPC port and token in the `avd/running` metadata
//! the emulator publishes.
use vstd::prelude::*;
use crate::artifact::{file_name_of, path_file_name};
use crate::text::{slice_range, string_views, chars_of, ends_with, ends_with_str, lines, lines_of, parse_u16, parse_unsigned, split_once_char, split_once_chars, starts_with, starts_with_str, str_eq, string_of, trim, trim_chars, trim_in, trim_in_chars, trimmed, views};
use crate::ui::{opt_view};

verus! {

/// Where an emulator listens for gRPC, and the token it expects.
#[derive(Debug, Clone, PartialEq, Eq)]
pub struct GrpcEndpoint {
    pub port: u16,
    pub auth_token: Option<String>,
}

/// The `key=value` pairs of an ini file, in file order; a later pair for
/// the same key replaces an earlier one.
#[derive(Debug, Clone)]
pub struct IniMap {
    pub entries: Vec<(String, String)>,
}

/// The map that pairs build when each replaces the earlier ones.
pub open spec fn pairs_map(es: Seq<(String, String)>) -> Map<Seq<char>, Seq<char>>
    decreases es.len(),
{
    if es.len() == 0 {
        Map::empty()
    } else {
        pairs_map(es.drop_last()).insert(es.last().0@, es.last().1@)
    }
}

impl View for IniMap {
    type V = Map<Seq<char>, Seq<char>>;

    open spec fn view(&self) -> Map<Seq<char>, Seq<char>> {
        pairs_map(self.entries@)
    }
}

proof fn lemma_pairs_map_last(es: Seq<(String, String)>, i: int, key: Seq<char>)
    requires
        0 <= i < es.len(),
        es[i].0@ == key,
        forall|j: int| i < j < es.len() ==> es[j].0@ != key,
    ensures
        pairs_map(es).contains_key(key),
        pairs_map(es)[key] == es[i].1@,
    decreases es.len(),
{
    if i < es.len() - 1 {
        lemma_pairs_map_last(es.drop_last(), i, key);
    }
}

proof fn lemma_pairs_map_absent(es: Seq<(String, String)>, key: Seq<char>)
    requires
        forall|j: int| 0 <= j < es.len() ==> es[j].0@ != key,
    ensures
        !pairs_map(es).contains_key(key),
    decreases es.len(),
{
    if es.len() > 0 {
        lemma_pairs_map_absent(es.drop_last(), key);
    }
}

impl IniMap {
    pub fn new() -> (r: Self)
        ensures
            r@ == Map::<Seq<char>, Seq<char>>::empty(),
    {
        IniMap { entries: Vec::new() }
    }

    pub fn insert(&mut self, key: String, value: String)
        ensures
            final(self)@ == old(self)@.insert(key@, value@),
    {
        let ghost before = self.entries@;
        self.entries.push((key, value));
        assert(self.entries@.drop_last() =~= before);
    }

    /// The value of `key`: that of its last pair.
    pub fn get(&self, key: &str) -> (r: Option<&String>)
        ensures
            match r {
                Some(v) => self@.contains_key(key@) && self@[key@] == v@,
                None => !self@.contains_key(key@),
            },
    {
        let mut i: usize = self.entries.len();
        while i > 0
            invariant
                i <= self.entries@.len(),
                forall|j: int| i <= j < self.entries@.len() ==> #[trigger] self.entries@[j].0@ != key@,
            decreases i,
        {
            if str_eq(self.entries[i - 1].0.as_str(), key) {
                proof {
                    lemma_pairs_map_last(self.entries@, i - 1, key@);
                }
                return Some(&self.entries[i - 1].1);
            }
            i = i - 1;
        }
        proof {
            lemma_pairs_map_absent(self.entries@, key@);
        }
        None
    }
}

/// The value of an ini line: trimmed, then without surrounding quotes.
pub open spec fn ini_value(v: Seq<char>) -> Seq<char> {
    trim_in(trim(v), seq!['"'])
}

/// The ini file as a map, line by line over the non-blank trimmed lines;
/// none when such a line has no `=`.
pub open spec fn spec_ini_lines(ls: Seq<Seq<char>>) -> Option<Map<Seq<char>, Seq<char>>>
    decreases ls.len(),
{
    if ls.len() == 0 {
        Some(Map::empty())
    } else {
        match spec_ini_lines(ls.drop_last()) {
            None => None,
            Some(m) => {
                let line = trim(ls.last());
                if line.len() == 0 {
                    Some(m)
                } else {
                    match split_once_char(line, '=') {
                        Some((k, v)) => Some(m.insert(trim(k), ini_value(v))),
                        None => None,
                    }
                }
            },
        }
    }
}

pub open spec fn spec_ini(contents: Seq<char>) -> Option<Map<Seq<char>, Seq<char>>> {
    spec_ini_lines(lines(contents))
}

pub fn parse_ini_map(contents: &str) -> (r: Option<IniMap>)
    ensures
        match r {
            Some(m) => spec_ini(contents@) == Some(m@),
            None => spec_ini(contents@) is None,
        },
{
    let cv = chars_of(contents);
    let ls = lines_of(cv.as_slice());
    let ghost lv = views(ls@);
    let mut map = IniMap::new();
    let quote: Vec<char> = vec!['"'];
    assert(quote@ =~= seq!['"']);
    let mut i: usize = 0;
    while i < ls.len()
        invariant
            i <= ls@.len(),
            lv == views(ls@),
            lv == lines(contents@),
            quote@ == seq!['"'],
            spec_ini_lines(lv.subrange(0, i as int)) == Some(map@),
        decreases ls.len() - i,
    {
        let ghost pre = lv.subrange(0, i as int);
        let ghost next = lv.subrange(0, i + 1);
        assert(next.drop_last() =~= pre);
        assert(next.last() == ls@[i as int]@);
        let line = trim_chars(ls[i].as_slice());
        if line.len() > 0 {
            match split_once_chars(line.as_slice(), '=') {
                Some((k, v)) => {
                    let kt = trim_chars(k.as_slice());
                    let vt = trim_chars(v.as_slice());
                    let vq = trim_in_chars(vt.as_slice(), quote.as_slice());
                    map.insert(string_of(kt.as_slice()), string_of(vq.as_slice()));
                },
                None => {
                    assert(spec_ini_lines(next) is None);
                    assert(spec_ini(contents@) is None) by {
                        lemma_ini_none_extends(lv, i as int + 1);
                    }
                    return None;
                },
            }
        }
        i = i + 1;
    }
    assert(lv.subrange(0, lv.len() as int) =~= lv);
    Some(map)
}

proof fn lemma_ini_none_extends(ls: Seq<Seq<char>>, k: int)
    requires
        0 <= k <= ls.len(),
        spec_ini_lines(ls.subrange(0, k)) is None,
    ensures
        spec_ini_lines(ls) is None,
    decreases ls.len() - k,
{
    if k < ls.len() {
        assert(ls.subrange(0, k + 1).drop_last() =~= ls.subrange(0, k));
        lemma_ini_none_extends(ls, k + 1);
    } else {
        assert(ls.subrange(0, k) =~= ls);
    }
}

/// The value of `key`, read as a `u16`.
pub open spec fn u16_field(m: Map<Seq<char>, Seq<char>>, key: Seq<char>) -> Option<nat> {
    if m.contains_key(key) {
        parse_unsigned(m[key], u16::MAX as nat)
    } else {
        None
    }
}

/// The endpoint an ini entry publishes for the emulator on `serial_port`:
/// its gRPC port, and its token when not blank; none when the entry is for
/// another emulator or a port is missing or unreadable.
pub open spec fn spec_endpoint(m: Map<Seq<char>, Seq<char>>, serial_port: u16) -> Option<(u16, Option<Seq<char>>)> {
    match u16_field(m, "port.serial"@) {
        Some(s) => if s != serial_port {
            None
        } else {
            match u16_field(m, "grpc.port"@) {
                Some(p) => Some(
                    (
                        p as u16,
                        if m.contains_key("grpc.token"@) && trim(m["grpc.token"@]).len() > 0 {
                            Some(trim(m["grpc.token"@]))
                        } else {
                            None
                        },
                    ),
                ),
                None => None,
            }
        },
        None => None,
    }
}

fn u16_field_exec(entry: &IniMap, key: &str) -> (r: Option<u16>)
    ensures
        match r {
            Some(v) => u16_field(entry@, key@) == Some(v as nat),
            None => u16_field(entry@, key@) is None,
        },
{
    match entry.get(key) {
        Some(v) => {
            let vv = chars_of(v.as_str());
            parse_u16(vv.as_slice())
        },
        None => None,
    }
}

pub fn grpc_endpoint_from_entry(entry: &IniMap, serial_port: u16) -> (r: Option<GrpcEndpoint>)
    ensures
        match spec_endpoint(entry@, serial_port) {
            Some((p, t)) => r matches Some(e) && e.port == p && opt_view(e.auth_token) == t,
            None => r is None,
        },
{
    let published = match u16_field_exec(entry, "port.serial") {
        Some(v) => v,
        None => {
            return None;
        },
    };
    if published != serial_port {
        return None;
    }
    let port = match u16_field_exec(entry, "grpc.port") {
        Some(v) => v,
        None => {
            return None;
        },
    };
    let auth_token = match entry.get("grpc.token") {
        Some(t) => {
            let tt = trimmed(t.as_str());
            if tt.len() > 0 {
                Some(string_of(tt.as_slice()))
            } else {
                None
            }
        },
        None => None,
    };
    Some(GrpcEndpoint { port, auth_token })
}

/// The console port of an emulator serial `emulator-<port>`.
pub open spec fn spec_serial_port(serial: Seq<char>) -> Option<nat> {
    if starts_with(serial, "emulator-"@) {
        parse_unsigned(serial.subrange(9, serial.len() as int), u16::MAX as nat)
    } else {
        None
    }
}

/// The endpoint that the first of these ini files to publish one for the
/// emulator on `serial_port` publishes; files that do not parse are passed over.
pub open spec fn endpoint_in(files: Seq<Seq<char>>, serial_port: u16) -> Option<(u16, Option<Seq<char>>)>
    decreases files.len(),
{
    if files.len() == 0 {
        None
    } else {
        match file_endpoint(files[0], serial_port) {
            Some(e) => Some(e),
            None => endpoint_in(files.drop_first(), serial_port),
        }
    }
}

/// The endpoint that one ini file publishes for the emulator on `serial_port`.
pub open spec fn file_endpoint(file: Seq<char>, serial_port: u16) -> Option<(u16, Option<Seq<char>>)> {
    match spec_ini(file) {
        Some(m) => spec_endpoint(m, serial_port),
        None => None,
    }
}

fn endpoint_of_file(contents: &str, serial_port: u16) -> (r: Option<GrpcEndpoint>)
    ensures
        endpoint_matches(r, file_endpoint(contents@, serial_port)),
{
    match parse_ini_map(contents) {
        Some(entry) => grpc_endpoint_from_entry(&entry, serial_port),
        None => None,
    }
}

fn file_publishes_port(contents: &str) -> (r: bool)
    ensures
        r == publishes_port(contents@),
{
    match parse_ini_map(contents) {
        Some(entry) => u16_field_exec(&entry, "grpc.port").is_some(),
        None => false,
    }
}

pub open spec fn endpoint_matches(r: Option<GrpcEndpoint>, e: Option<(u16, Option<Seq<char>>)>) -> bool {
    match e {
        Some((p, t)) => r matches Some(x) && x.port == p && opt_view(x.auth_token) == t,
        None => r is None,
    }
}

fn serial_port_of(serial: &str) -> (r: Option<u16>)
    ensures
        match r {
            Some(p) => spec_serial_port(serial@) == Some(p as nat),
            None => spec_serial_port(serial@) is None,
        },
{
    let v = chars_of(serial);
    if !starts_with_str(v.as_slice(), "emulator-") {
        return None;
    }
    proof {
        reveal_strlit("emulator-");
    }
    let rest = slice_range(v.as_slice(), 9, v.len());
    parse_u16(rest.as_slice())
}

/// The gRPC endpoint that the running emulators' ini files publish for the
/// emulator with this serial, given the contents of those files in path
/// order: none when the serial is not `emulator-<port>`.
pub fn grpc_endpoint_for_serial(serial: &str, running_ini_contents: &[String]) -> (r: Option<
    GrpcEndpoint,
>)
    ensures
        match spec_serial_port(serial@) {
            Some(p) => endpoint_matches(r, endpoint_in(string_views(running_ini_contents@), p as u16)),
            None => r is None,
        },
{
    let serial_port = match serial_port_of(serial) {
        Some(p) => p,
        None => {
            return None;
        },
    };
    assert((spec_serial_port(serial@).unwrap() as u16) == serial_port);
    let ghost files = string_views(running_ini_contents@);
    assert(files.subrange(0, files.len() as int) =~= files);
    let mut i: usize = 0;
    while i < running_ini_contents.len()
        invariant
            i <= running_ini_contents@.len(),
            files == string_views(running_ini_contents@),
            spec_serial_port(serial@) is Some,
            (spec_serial_port(serial@).unwrap() as u16) == serial_port,
            endpoint_in(files, serial_port) == endpoint_in(files.subrange(i as int, files.len() as int), serial_port),
        decreases running_ini_contents.len() - i,
    {
        let ghost rest = files.subrange(i as int, files.len() as int);
        assert(rest.drop_first() =~= files.subrange(i + 1, files.len() as int));
        assert(rest[0] == running_ini_contents@[i as int]@);
        match endpoint_of_file(running_ini_contents[i].as_str(), serial_port) {
            Some(e) => {
                assert(rest.len() > 0);
                assert(endpoint_in(rest, serial_port) == file_endpoint(rest[0], serial_port));
                assert(endpoint_matches(Some(e), endpoint_in(files, serial_port)));
                return Some(e);
            },
            None => {},
        }
        i = i + 1;
    }
    assert(files.subrange(i as int, files.len() as int) =~= Seq::<Seq<char>>::empty());
    None
}

/// Whether any of these ini files publishes a gRPC port.
pub open spec fn any_port_published(files: Seq<Seq<char>>) -> bool {
    exists|i: int| 0 <= i < files.len() && #[trigger] publishes_port(files[i])
}

/// Whether an ini file parses and publishes a readable gRPC port.
pub open spec fn publishes_port(file: Seq<char>) -> bool {
    match spec_ini(file) {
        Some(m) => u16_field(m, "grpc.port"@) is Some,
        None => false,
    }
}

/// Whether any running emulator publishes a gRPC port, given the contents of
/// the running emulators' ini files.
pub fn any_grpc_endpoint_published(running_ini_contents: &[String]) -> (r: bool)
    ensures
        r == any_port_published(string_views(running_ini_contents@)),
{
    let ghost files = string_views(running_ini_contents@);
    let mut i: usize = 0;
    while i < running_ini_contents.len()
        invariant
            i <= running_ini_contents@.len(),
            files == string_views(running_ini_contents@),
            forall|k: int| 0 <= k < i ==> !#[trigger] publishes_port(files[k]),
        decreases running_ini_contents.len() - i,
    {
        assert(files[i as int] == running_ini_contents@[i as int]@);
        if file_publishes_port(running_ini_contents[i].as_str()) {
            assert(publishes_port(files[i as int]));
            return true;
        }
        i = i + 1;
    }
    false
}

/// The endpoint for a serial when a gRPC port is configured: the configured
/// port, with the token that the emulator publishes if it publishes one; else
/// the published endpoint. Only emulator serials have one.
pub fn configured_grpc_endpoint(
    serial: &str,
    configured_port: Option<u16>,
    running_ini_contents: &[String],
) -> (r: Option<GrpcEndpoint>)
    ensures
        !starts_with(serial@, "emulator-"@) ==> r is None,
        starts_with(serial@, "emulator-"@) ==> {
            let discovered = match spec_serial_port(serial@) {
                Some(p) => endpoint_in(string_views(running_ini_contents@), p as u16),
                None => None,
            };
            match configured_port {
                Some(port) => r matches Some(e) && e.port == port && opt_view(e.auth_token) == match discovered {
                    Some((_, t)) => t,
                    None => None,
                },
                None => endpoint_matches(r, discovered),
            }
        },
{
    let v = chars_of(serial);
    if !starts_with_str(v.as_slice(), "emulator-") {
        return None;
    }
    let discovered = grpc_endpoint_for_serial(serial, running_ini_contents);
    match configured_port {
        Some(port) => match discovered {
            Some(endpoint) => Some(GrpcEndpoint { port, auth_token: endpoint.auth_token }),
            None => Some(GrpcEndpoint { port, auth_token: None }),
        },
        None => discovered,
    }
}

/// A running emulator's ini file is named `pid_*.ini`.
pub open spec fn spec_is_running_ini(path: Seq<char>) -> bool {
    match path_file_name(path) {
        Some(n) => starts_with(n, "pid_"@) && ends_with(n, ".ini"@),
        None => false,
    }
}

pub fn is_running_ini(path: &str) -> (r: bool)
    ensures
        r == spec_is_running_ini(path@),
{
    match file_name_of(path) {
        Some(n) => {
            let nv = chars_of(n.as_str());
            starts_with_str(nv.as_slice(), "pid_") && ends_with_str(nv.as_slice(), ".ini")
        },
        None => false,
    }
}


/// The latest pair for a key gives its value: adding `key=value` to the
/// pairs makes `value` what the key maps to, and leaves the other keys as
/// they were.
pub proof fn lemma_later_pair_wins(es: Seq<(String, String)>, key: String, value: String, other: Seq<char>)
    requires
        other != key@,
    ensures
        pairs_map(es.push((key, value)))[key@] == value@,
        pairs_map(es.push((key, value))).contains_key(other) == pairs_map(es).contains_key(other),
        pairs_map(es).contains_key(other) ==> pairs_map(es.push((key, value)))[other] == pairs_map(es)[other],
{
    assert(es.push((key, value)).drop_last() =~= es);
}

} // verus!
