//! Turning what a Linux system shows of itself into a benchmark environment.

use crate::benchmark::snapshot::BenchmarkEnvironmentSnapshot;
use crate::domain::NicProbe;
use crate::dpdk::preflight;
use crate::dpdk::preflight::find_nic_named;
use crate::error::{ErrorCode, NetToolError};
use crate::text;
use crate::text::{
    byte_len, decimal_text, is_blank, lines_of, parse_unsigned, same, same_ignoring_case,
    split_once, starts_with, strip_prefix, strip_suffix, trim, trim_end_char, trim_start_char,
    words_of,
};
use vstd::prelude::*;
use vstd::utf8::encode_utf8;

verus! {

/// What a backend has verified that the system itself does not show.
#[derive(Clone, Debug, PartialEq, Eq)]
pub struct LinuxBenchmarkSnapshotRequest {
    /// The name of the interface.
    pub interface_name: String,
    /// Its expected PCI address.
    pub pci_address: String,
    /// The backend and its version.
    pub backend: String,
    /// The DPDK version, where it is known.
    pub dpdk_version: Option<String>,
    /// The RSS configuration, where it is verified.
    pub verified_rss: Option<String>,
    /// The offload configuration, where it is verified.
    pub verified_offloads: Option<String>,
}

/// A partial or complete environment, and what is missing.
#[derive(Clone, Debug, PartialEq, Eq)]
pub struct EnvironmentCollection {
    /// The environment.
    pub snapshot: BenchmarkEnvironmentSnapshot,
    /// Why something is missing.
    pub warnings: Vec<String>,
}

/// What is known of RSS.
#[derive(Clone, Copy, Debug, PartialEq, Eq, Structural)]
pub struct RssEvidence {
    /// Whether it is active.
    pub active: bool,
    /// The number of receive queues, where it is given.
    pub queue_count: Option<u32>,
}

/// The contents of the files and directories that describe a Linux system. A file that could
/// not be read is missing; three of them say why, with their place.
#[derive(Debug, PartialEq, Eq)]
pub struct LinuxReadings {
    /// The name of the device directory of the interface.
    pub device_name: Option<String>,
    /// The release file of the operating system.
    pub os_release: Result<String, String>,
    /// The processor information.
    pub cpuinfo: Result<String, String>,
    /// The memory information.
    pub meminfo: Result<String, String>,
    /// The name of the driver.
    pub driver: Option<String>,
    /// The version of the driver.
    pub driver_version: Option<String>,
    /// The vendor of the device.
    pub vendor: Option<String>,
    /// The model of the device.
    pub device: Option<String>,
    /// The speed of the bus link.
    pub link_speed: Option<String>,
    /// The width of the bus link.
    pub link_width: Option<String>,
    /// The firmware of the device.
    pub firmware: Option<String>,
    /// The names in the directory of the NUMA nodes.
    pub node_entries: Option<Vec<String>>,
    /// The NUMA node of the device.
    pub numa_node: Option<String>,
    /// The frequency of the first processor.
    pub cpu_frequency: Option<String>,
    /// The release of the kernel.
    pub kernel: Option<String>,
    /// The maximum transmission unit.
    pub mtu: Option<String>,
    /// The names in the directory of the queues.
    pub queue_entries: Option<Vec<String>>,
}

// ------------------------------------------------------------------------- reading contents

/// The first line with a given beginning.
pub open spec fn line_with_prefix(ls: Seq<Seq<char>>, key: Seq<char>) -> Option<Seq<char>>
    decreases ls.len(),
{
    if ls.len() == 0 {
        None
    } else if text::has_prefix(ls[0], key) {
        Some(ls[0])
    } else {
        line_with_prefix(ls.drop_first(), key)
    }
}

/// The number that is the second word of the first line with a given beginning.
pub open spec fn number_after(contents: Seq<char>, key: Seq<char>) -> Option<nat> {
    match line_with_prefix(text::lines(contents), key) {
        None => None,
        Some(line) => {
            let w = text::words(line);
            if w.len() >= 2 {
                text::unsigned_value(w[1], u64::MAX as nat)
            } else {
                None
            }
        },
    }
}

/// Returns the number after a key, such as `HugePages_Free:`.
pub fn meminfo_value(contents: &str, key: &str) -> (r: Option<u64>)
    ensures
        match r {
            Some(n) => number_after(contents@, key@) == Some(n as nat),
            None => number_after(contents@, key@) is None,
        },
{
    let all = lines_of(contents);
    let ghost ls = text::lines(contents@);
    let mut i: usize = 0;
    proof {
        assert(ls.skip(0) == ls);
    }
    while i < all.len()
        invariant
            text::texts(all@) == ls,
            ls == text::lines(contents@),
            i <= all@.len(),
            line_with_prefix(ls, key@) == line_with_prefix(ls.skip(i as int), key@),
        decreases all@.len() - i,
    {
        proof {
            assert(text::texts(all@)[i as int] == all@[i as int]@);
            assert(ls.skip(i as int)[0] == all@[i as int]@);
            assert(ls.skip(i as int).drop_first() == ls.skip(i + 1));
        }
        if starts_with(all[i].as_str(), key) {
            let w = words_of(all[i].as_str());
            proof {
                assert(text::texts(w@).len() == w@.len());
            }
            if w.len() < 2 {
                return None;
            }
            proof {
                assert(text::texts(w@)[1] == w@[1]@);
            }
            return parse_unsigned(w[1].as_str(), 0xffff_ffff_ffff_ffff);
        }
        i += 1;
    }
    None
}

/// The value of the first line whose part before a colon is a given key.
pub open spec fn colon_field(ls: Seq<Seq<char>>, key: Seq<char>) -> Option<Seq<char>>
    decreases ls.len(),
{
    if ls.len() == 0 {
        None
    } else {
        let at = text::first_index(ls[0], ':');
        if ls[0].contains(':') && text::trimmed(ls[0].take(at)) == key {
            Some(text::trimmed(ls[0].skip(at + 1)))
        } else {
            colon_field(ls.drop_first(), key)
        }
    }
}

fn proc_text(contents: &str, key: &str) -> (r: Option<String>)
    ensures
        text::optional(r) == colon_field(text::lines(contents@), key@),
{
    let all = lines_of(contents);
    let ghost ls = text::lines(contents@);
    let mut i: usize = 0;
    proof {
        assert(ls.skip(0) == ls);
    }
    while i < all.len()
        invariant
            text::texts(all@) == ls,
            ls == text::lines(contents@),
            i <= all@.len(),
            colon_field(ls, key@) == colon_field(ls.skip(i as int), key@),
        decreases all@.len() - i,
    {
        proof {
            assert(text::texts(all@)[i as int] == all@[i as int]@);
            assert(ls.skip(i as int)[0] == all@[i as int]@);
            assert(ls.skip(i as int).drop_first() == ls.skip(i + 1));
        }
        match split_once(all[i].as_str(), ':') {
            Some((field, value)) => {
                let name = trim(field.as_str());
                if same(name.as_str(), key) {
                    return Some(trim(value.as_str()));
                }
            },
            None => {},
        }
        i += 1;
    }
    None
}

/// The value of the first line whose part before an equals sign is a given key, without
/// quotes.
pub open spec fn equals_field(ls: Seq<Seq<char>>, key: Seq<char>) -> Option<Seq<char>>
    decreases ls.len(),
{
    if ls.len() == 0 {
        None
    } else {
        let at = text::first_index(ls[0], '=');
        if ls[0].contains('=') && ls[0].take(at) == key {
            Some(text::without_trailing(text::without_leading(ls[0].skip(at + 1), '"'), '"'))
        } else {
            equals_field(ls.drop_first(), key)
        }
    }
}

fn os_release_value(contents: &str, key: &str) -> (r: Option<String>)
    ensures
        text::optional(r) == equals_field(text::lines(contents@), key@),
{
    let all = lines_of(contents);
    let ghost ls = text::lines(contents@);
    let mut i: usize = 0;
    proof {
        assert(ls.skip(0) == ls);
    }
    while i < all.len()
        invariant
            text::texts(all@) == ls,
            ls == text::lines(contents@),
            i <= all@.len(),
            equals_field(ls, key@) == equals_field(ls.skip(i as int), key@),
        decreases all@.len() - i,
    {
        proof {
            assert(text::texts(all@)[i as int] == all@[i as int]@);
            assert(ls.skip(i as int)[0] == all@[i as int]@);
            assert(ls.skip(i as int).drop_first() == ls.skip(i + 1));
        }
        match split_once(all[i].as_str(), '=') {
            Some((field, value)) => {
                if same(field.as_str(), key) {
                    let left = trim_start_char(value.as_str(), '"');
                    return Some(trim_end_char(left.as_str(), '"'));
                }
            },
            None => {},
        }
        i += 1;
    }
    None
}

/// Whether a name is a prefix with a number behind it.
pub open spec fn numbered(name: Seq<char>, prefix: Seq<char>) -> bool {
    text::has_prefix(name, prefix) && name.len() > prefix.len() && text::all_digits(
        name.skip(prefix.len() as int),
    )
}

/// Decides whether a name is a prefix with a number behind it.
pub fn is_numbered_name(name: &str, prefix: &str) -> (r: bool)
    ensures
        r == numbered(name@, prefix@),
{
    match strip_prefix(name, prefix) {
        None => false,
        Some(rest) => {
            let v = text::chars_of(rest.as_str());
            if v.len() == 0 {
                return false;
            }
            let mut i: usize = 0;
            while i < v.len()
                invariant
                    v@ == name@.skip(prefix@.len() as int),
                    i <= v@.len(),
                    forall|j: int| 0 <= j < i ==> text::is_digit(#[trigger] v@[j]),
                decreases v@.len() - i,
            {
                if !text::digit(v[i]) {
                    return false;
                }
                i += 1;
            }
            true
        },
    }
}

/// How many names are a prefix with a number behind it.
pub open spec fn count_numbered(names: Seq<String>, prefix: Seq<char>) -> nat
    decreases names.len(),
{
    if names.len() == 0 {
        0
    } else {
        count_numbered(names.drop_last(), prefix) + (if numbered(names.last()@, prefix) {
            1nat
        } else {
            0nat
        })
    }
}

/// How many names begin with a prefix.
pub open spec fn count_prefixed(names: Seq<String>, prefix: Seq<char>) -> nat
    decreases names.len(),
{
    if names.len() == 0 {
        0
    } else {
        count_prefixed(names.drop_last(), prefix) + (if text::has_prefix(names.last()@, prefix) {
            1nat
        } else {
            0nat
        })
    }
}

/// A count that fits in 32 bits.
pub open spec fn fitting(n: nat) -> Option<u32> {
    if n <= u32::MAX {
        Some(n as u32)
    } else {
        None
    }
}

/// Returns how many names are a prefix with a number behind it.
pub fn numbered_entries(names: &[String], prefix: &str) -> (r: Option<u32>)
    ensures
        r == fitting(count_numbered(names@, prefix@)),
{
    let mut n: usize = 0;
    let mut i: usize = 0;
    while i < names.len()
        invariant
            n <= i <= names@.len(),
            n == count_numbered(names@.take(i as int), prefix@),
        decreases names@.len() - i,
    {
        proof {
            assert(names@.take(i + 1).drop_last() == names@.take(i as int));
            assert(names@.take(i + 1).last() == names@[i as int]);
        }
        if is_numbered_name(names[i].as_str(), prefix) {
            n += 1;
        }
        i += 1;
    }
    proof {
        assert(names@.take(i as int) == names@);
    }
    if n <= 0xffff_ffff {
        Some(n as u32)
    } else {
        None
    }
}

/// Returns how many names begin with a prefix.
pub fn count_entries(names: &[String], prefix: &str) -> (r: Option<u32>)
    ensures
        r == fitting(count_prefixed(names@, prefix@)),
{
    let mut n: usize = 0;
    let mut i: usize = 0;
    while i < names.len()
        invariant
            n <= i <= names@.len(),
            n == count_prefixed(names@.take(i as int), prefix@),
        decreases names@.len() - i,
    {
        proof {
            assert(names@.take(i + 1).drop_last() == names@.take(i as int));
            assert(names@.take(i + 1).last() == names@[i as int]);
        }
        if starts_with(names[i].as_str(), prefix) {
            n += 1;
        }
        i += 1;
    }
    proof {
        assert(names@.take(i as int) == names@);
    }
    if n <= 0xffff_ffff {
        Some(n as u32)
    } else {
        None
    }
}

// --------------------------------------------------------------------------- management port

/// The interface of the first default route, in lines after the heading.
pub open spec fn default_route(ls: Seq<Seq<char>>) -> Option<Seq<char>>
    decreases ls.len(),
{
    if ls.len() == 0 {
        None
    } else {
        let w = text::words(ls[0]);
        if w.len() >= 2 && w[1] == "00000000"@ {
            Some(w[0])
        } else {
            default_route(ls.drop_first())
        }
    }
}

/// The PCI address of the interface that carries the default route, where that interface was
/// probed and has one.
pub open spec fn management_pci(route: Seq<char>, nics: Seq<NicProbe>) -> Option<Seq<char>> {
    let ls = text::lines(route);
    let body = if ls.len() > 0 {
        ls.skip(1)
    } else {
        ls
    };
    match default_route(body) {
        None => None,
        Some(name) => match preflight::nic_named(nics, name) {
            None => None,
            Some(nic) => text::optional(nic.pci_address),
        },
    }
}

/// Finds the PCI address of the management interface in a route table. An interface that was
/// not probed is not guessed.
#[must_use]
pub fn resolve_management_pci_from_route(route_contents: &str, nics: &[NicProbe]) -> (r: Option<
    String,
>)
    ensures
        text::optional(r) == management_pci(route_contents@, nics@),
{
    let all = lines_of(route_contents);
    let ghost ls = text::lines(route_contents@);
    let ghost body = if ls.len() > 0 {
        ls.skip(1)
    } else {
        ls
    };
    let mut i: usize = if all.len() > 0 {
        1
    } else {
        0
    };
    proof {
        assert(text::texts(all@).len() == all@.len());
        assert(ls.skip(i as int) == body);
    }
    while i < all.len()
        invariant
            text::texts(all@) == ls,
            ls == text::lines(route_contents@),
            body == (if ls.len() > 0 {
                ls.skip(1)
            } else {
                ls
            }),
            i <= all@.len(),
            default_route(body) == default_route(ls.skip(i as int)),
        decreases all@.len() - i,
    {
        proof {
            assert(text::texts(all@)[i as int] == all@[i as int]@);
            assert(ls.skip(i as int)[0] == all@[i as int]@);
            assert(ls.skip(i as int).drop_first() == ls.skip(i + 1));
        }
        let w = words_of(all[i].as_str());
        proof {
            assert(text::texts(w@).len() == w@.len());
            if w@.len() >= 2 {
                assert(text::texts(w@)[0] == w@[0]@);
                assert(text::texts(w@)[1] == w@[1]@);
            }
        }
        if w.len() >= 2 && same(w[1].as_str(), "00000000") {
            return match find_nic_named(nics, w[0].as_str()) {
                Some(nic) => nic.pci_address.clone(),
                None => None,
            };
        }
        i += 1;
    }
    None
}

// ------------------------------------------------------------------------------------- RSS

/// What a description of RSS says, or why it is refused.
pub open spec fn rss_value(value: Seq<char>) -> Result<RssEvidence, Seq<char>> {
    let v = text::trimmed(value);
    let rest = v.skip("enabled:"@.len() as int);
    let number = rest.take(rest.len() - " queues"@.len());
    if text::lowercase(v) == text::lowercase("enabled"@) {
        Ok(RssEvidence { active: true, queue_count: None })
    } else if text::lowercase(v) == text::lowercase("disabled"@) {
        Ok(RssEvidence { active: false, queue_count: None })
    } else if !text::has_prefix(v, "enabled:"@) || !text::has_suffix(rest, " queues"@) {
        Err("RSS evidence must be enabled, disabled, or enabled:<n> queues"@)
    } else {
        match text::unsigned_value(number, u32::MAX as nat) {
            None => Err("RSS evidence queue count must be a u32"@),
            Some(n) => if n == 0 {
                Err("RSS evidence queue count must be non-zero"@)
            } else {
                Ok(RssEvidence { active: true, queue_count: Some(n as u32) })
            },
        }
    }
}

/// Reads a description of RSS: `enabled`, `disabled` or `enabled:<n> queues`.
///
/// # Errors
///
/// Fails on any other text, and where the number is zero or does not fit.
pub fn parse_rss_evidence(value: &str) -> (r: Result<RssEvidence, NetToolError>)
    ensures
        match r {
            Ok(evidence) => rss_value(value@) == Ok::<_, Seq<char>>(evidence),
            Err(e) => rss_value(value@) matches Err(message) && e.is(
                ErrorCode::InvalidArgument,
                message,
                false,
            ),
        },
{
    let v = trim(value);
    if same_ignoring_case(v.as_str(), "enabled") {
        return Ok(RssEvidence { active: true, queue_count: None });
    }
    if same_ignoring_case(v.as_str(), "disabled") {
        return Ok(RssEvidence { active: false, queue_count: None });
    }
    let number: Option<String> = match strip_prefix(v.as_str(), "enabled:") {
        Some(rest) => strip_suffix(rest.as_str(), " queues"),
        None => None,
    };
    match number {
        None => Err(invalid("RSS evidence must be enabled, disabled, or enabled:<n> queues")),
        Some(number) => match parse_unsigned(number.as_str(), 0xffff_ffff) {
            None => Err(invalid("RSS evidence queue count must be a u32")),
            Some(n) => {
                if n == 0 {
                    Err(invalid("RSS evidence queue count must be non-zero"))
                } else {
                    Ok(RssEvidence { active: true, queue_count: Some(n as u32) })
                }
            },
        },
    }
}

// ------------------------------------------------------------------------------- validation

/// Whether a character is safe in an interface name.
pub open spec fn safe_char(c: char) -> bool {
    text::is_alphanumeric(c) || c == '_' || c == '-' || c == '.' || c == ':'
}

/// Whether a name is safe as a part of a path: short, not empty and of safe characters.
pub open spec fn safe_identifier(s: Seq<char>) -> bool {
    &&& s.len() > 0
    &&& encode_utf8(s).len() <= 64
    &&& forall|i: int| 0 <= i < s.len() ==> safe_char(#[trigger] s[i])
}

/// Whether a text has the form of a PCI address: hexadecimal digits as in `dddd:bb:ss.f`.
pub open spec fn pci_form(s: Seq<char>) -> bool {
    &&& s.len() == 12
    &&& s[4] == ':'
    &&& s[7] == ':'
    &&& s[10] == '.'
    &&& forall|i: int|
        0 <= i < 12 && i != 4 && i != 7 && i != 10 ==> text::is_hex_digit(#[trigger] s[i])
}

fn is_safe_identifier(s: &str) -> (r: bool)
    ensures
        r == safe_identifier(s@),
{
    let v = text::chars_of(s);
    if v.len() == 0 || byte_len(s) > 64 {
        return false;
    }
    let mut i: usize = 0;
    while i < v.len()
        invariant
            v@ == s@,
            i <= v@.len(),
            forall|j: int| 0 <= j < i ==> safe_char(#[trigger] v@[j]),
        decreases v@.len() - i,
    {
        let c = v[i];
        if !(text::alphanumeric(c) || c == '_' || c == '-' || c == '.' || c == ':') {
            proof {
                assert(!safe_char(v@[i as int]));
            }
            return false;
        }
        i += 1;
    }
    true
}

/// Decides whether a text has the form of a PCI address.
pub fn valid_pci_address(s: &str) -> (r: bool)
    ensures
        r == pci_form(s@),
{
    let v = text::chars_of(s);
    if v.len() != 12 {
        return false;
    }
    if v[4] != ':' || v[7] != ':' || v[10] != '.' {
        return false;
    }
    let mut i: usize = 0;
    while i < 12
        invariant
            v@ == s@,
            v@.len() == 12,
            i <= 12,
            forall|j: int|
                0 <= j < i && j != 4 && j != 7 && j != 10 ==> text::is_hex_digit(#[trigger] v@[j]),
        decreases 12 - i,
    {
        if i != 4 && i != 7 && i != 10 && !text::hex_digit(v[i]) {
            return false;
        }
        i += 1;
    }
    true
}

/// Whether evidence, where it is given, is blank or too long.
pub open spec fn evidence_bad(value: Option<String>) -> bool {
    value matches Some(s) && (text::blank(s@) || encode_utf8(s@).len() > 4096)
}

/// What is wrong with a request, if something is.
pub open spec fn request_fault(q: LinuxBenchmarkSnapshotRequest) -> Option<Seq<char>> {
    if !safe_identifier(q.interface_name@) {
        Some("interface name is empty or contains unsafe characters"@)
    } else if !pci_form(q.pci_address@) {
        Some("PCI address must use dddd:bb:ss.f format"@)
    } else if text::blank(q.backend@) || encode_utf8(q.backend@).len() > 128 {
        Some("backend identity is empty or too long"@)
    } else if evidence_bad(q.dpdk_version) {
        Some("DPDK version evidence is empty or too long"@)
    } else if evidence_bad(q.verified_rss) {
        Some("RSS evidence is empty or too long"@)
    } else if evidence_bad(q.verified_offloads) {
        Some("offloads evidence is empty or too long"@)
    } else {
        None
    }
}

fn is_evidence_bad(value: &Option<String>) -> (r: bool)
    ensures
        r == evidence_bad(*value),
{
    match value {
        Some(s) => is_blank(s.as_str()) || byte_len(s.as_str()) > 4096,
        None => false,
    }
}

/// Checks a request before anything is read: its names become parts of paths.
///
/// # Errors
///
/// Fails when a name is unsafe, the PCI address has another form or evidence is blank or too
/// long.
pub fn validate_request(request: &LinuxBenchmarkSnapshotRequest) -> (r: Result<(), NetToolError>)
    ensures
        match r {
            Ok(_) => request_fault(*request) is None,
            Err(e) => request_fault(*request) is Some && e.is(
                ErrorCode::InvalidArgument,
                request_fault(*request)->0,
                false,
            ),
        },
{
    if !is_safe_identifier(request.interface_name.as_str()) {
        return Err(invalid("interface name is empty or contains unsafe characters"));
    }
    if !valid_pci_address(request.pci_address.as_str()) {
        return Err(invalid("PCI address must use dddd:bb:ss.f format"));
    }
    if is_blank(request.backend.as_str()) || byte_len(request.backend.as_str()) > 128 {
        return Err(invalid("backend identity is empty or too long"));
    }
    if is_evidence_bad(&request.dpdk_version) {
        return Err(invalid("DPDK version evidence is empty or too long"));
    }
    if is_evidence_bad(&request.verified_rss) {
        return Err(invalid("RSS evidence is empty or too long"));
    }
    if is_evidence_bad(&request.verified_offloads) {
        return Err(invalid("offloads evidence is empty or too long"));
    }
    Ok(())
}

fn invalid(message: &str) -> (r: NetToolError)
    ensures
        r.is(ErrorCode::InvalidArgument, message@, false),
{
    NetToolError::new(ErrorCode::InvalidArgument, message, false)
}

/// A name that passed the check cannot lead out of a directory: it holds no slash.
pub proof fn law_safe_names_stay_in_their_directory(q: LinuxBenchmarkSnapshotRequest)
    requires
        request_fault(q) is None,
    ensures
        !q.interface_name@.contains('/'),
        !q.interface_name@.contains('\\'),
        !q.interface_name@.contains('\0'),
{
    let s = q.interface_name@;
    assert(forall|i: int| 0 <= i < s.len() ==> safe_char(#[trigger] s[i]));
}

// ------------------------------------------------------------------------------- collecting

/// The content of a file without surrounding white space; missing where nothing is left.
pub open spec fn content(s: Option<String>) -> Option<Seq<char>> {
    match s {
        Some(t) if text::trimmed(t@).len() > 0 => Some(text::trimmed(t@)),
        _ => None,
    }
}

/// Two contents with texts around them; missing where one of them is.
pub open spec fn both(
    before: Seq<char>,
    a: Option<Seq<char>>,
    between: Seq<char>,
    b: Option<Seq<char>>,
) -> Option<Seq<char>> {
    match (a, b) {
        (Some(x), Some(y)) => Some(before + x + between + y),
        _ => None,
    }
}

/// The driver with its version, where it has one.
pub open spec fn driver_text(d: LinuxReadings) -> Option<Seq<char>> {
    match d.driver {
        None => None,
        Some(name) => match content(d.driver_version) {
            Some(version) => Some(name@ + " "@ + version),
            None => Some(name@),
        },
    }
}

/// The NUMA nodes and that of the device.
pub open spec fn numa_text(d: LinuxReadings) -> Option<Seq<char>> {
    match d.node_entries {
        None => None,
        Some(names) => match (
            fitting(count_numbered(names@, "node"@)),
            content(d.numa_node),
        ) {
            (Some(n), Some(node)) => Some(
                "nodes="@ + text::decimal(n as nat) + ",nic_node="@ + node,
            ),
            _ => None,
        },
    }
}

/// The size of the memory.
pub open spec fn memory_text(d: LinuxReadings) -> Option<Seq<char>> {
    match d.meminfo {
        Ok(m) => match number_after(m@, "MemTotal:"@) {
            Some(n) => Some("MemTotal="@ + text::decimal(n) + " kB"@),
            None => None,
        },
        Err(_) => None,
    }
}

/// The huge pages.
pub open spec fn huge_page_text(d: LinuxReadings) -> Option<Seq<char>> {
    match d.meminfo {
        Ok(m) => match (
            number_after(m@, "HugePages_Total:"@),
            number_after(m@, "HugePages_Free:"@),
            number_after(m@, "Hugepagesize:"@),
        ) {
            (Some(total), Some(free), Some(size)) => Some(
                "total="@ + text::decimal(total) + ",free="@ + text::decimal(free) + ",size_kib="@
                    + text::decimal(size),
            ),
            _ => None,
        },
        Err(_) => None,
    }
}

/// The processor.
pub open spec fn cpu_text(d: LinuxReadings) -> Option<Seq<char>> {
    match d.cpuinfo {
        Ok(c) => colon_field(text::lines(c@), "model name"@),
        Err(_) => None,
    }
}

/// The frequency of the processor: the current one, else the nominal one.
pub open spec fn frequency_text(d: LinuxReadings) -> Option<Seq<char>> {
    match content(d.cpu_frequency) {
        Some(f) => Some(f + " kHz"@),
        None => match d.cpuinfo {
            Ok(c) => match colon_field(text::lines(c@), "cpu MHz"@) {
                Some(f) => Some(f + " MHz"@),
                None => None,
            },
            Err(_) => None,
        },
    }
}

/// The operating system.
pub open spec fn os_text(d: LinuxReadings) -> Option<Seq<char>> {
    match d.os_release {
        Ok(c) => equals_field(text::lines(c@), "PRETTY_NAME"@),
        Err(_) => None,
    }
}

/// The maximum transmission unit.
pub open spec fn mtu_number(d: LinuxReadings) -> Option<u32> {
    match content(d.mtu) {
        Some(s) => match text::unsigned_value(s, u32::MAX as nat) {
            Some(n) => Some(n as u32),
            None => None,
        },
        None => None,
    }
}

/// The number of queues of one direction.
pub open spec fn queue_number(d: LinuxReadings, prefix: Seq<char>) -> Option<u32> {
    match d.queue_entries {
        Some(names) => fitting(count_prefixed(names@, prefix)),
        None => None,
    }
}

/// The verified RSS configuration: none where it is refused, or where its number of queues
/// is not that of the interface.
pub open spec fn rss_text(d: LinuxReadings, q: LinuxBenchmarkSnapshotRequest) -> Option<
    Seq<char>,
> {
    match q.verified_rss {
        None => None,
        Some(value) => match rss_value(value@) {
            Err(_) => None,
            Ok(evidence) => match (evidence.queue_count, queue_number(d, "rx-"@)) {
                (Some(n), Some(actual)) if n != actual => None,
                _ => Some(value@),
            },
        },
    }
}

/// Why a given RSS configuration was not taken.
pub open spec fn rss_warning(d: LinuxReadings, q: LinuxBenchmarkSnapshotRequest) -> Seq<
    Seq<char>,
> {
    match q.verified_rss {
        None => Seq::empty(),
        Some(value) => match rss_value(value@) {
            Err(message) => seq!["RSS evidence rejected: "@ + message],
            Ok(evidence) => match (evidence.queue_count, queue_number(d, "rx-"@)) {
                (Some(n), Some(actual)) if n != actual => seq![
                    "RSS queue count mismatch: evidence="@ + text::decimal(n as nat) + ", sysfs="@
                        + text::decimal(actual as nat),
                ],
                _ => Seq::empty(),
            },
        },
    }
}

/// The warning that something could not be verified.
pub open spec fn unverified(label: Seq<char>, missing: bool) -> Seq<Seq<char>> {
    if missing {
        seq![label + " could not be verified"@]
    } else {
        Seq::empty()
    }
}

/// The warning that a file could not be read.
pub open spec fn unavailable(label: Seq<char>, reading: Result<String, String>) -> Seq<Seq<char>> {
    match reading {
        Ok(_) => Seq::empty(),
        Err(place) => seq![label + " is unavailable at "@ + place@],
    }
}

/// The warning that the device is not the expected one.
pub open spec fn identity_warning(d: LinuxReadings, q: LinuxBenchmarkSnapshotRequest) -> Seq<
    Seq<char>,
> {
    if d.device_name matches Some(n) && n@ == q.pci_address@ {
        Seq::empty()
    } else {
        seq![
            "PCI identity mismatch: expected "@ + q.pci_address@ + ", discovered "@ + (
            match d.device_name {
                Some(n) => n@,
                None => "unknown"@,
            }),
        ]
    }
}

/// The warnings of a collection, in order.
pub open spec fn collection_warnings(d: LinuxReadings, q: LinuxBenchmarkSnapshotRequest) -> Seq<
    Seq<char>,
> {
    reading_warnings(d, q) + hardware_warnings(d) + system_warnings(d) + evidence_warnings(d, q)
}

/// The warnings about identity and unreadable files.
pub open spec fn reading_warnings(d: LinuxReadings, q: LinuxBenchmarkSnapshotRequest) -> Seq<
    Seq<char>,
> {
    identity_warning(d, q) + unavailable("OS release"@, d.os_release) + unavailable(
        "CPU information"@,
        d.cpuinfo,
    ) + unavailable("memory information"@, d.meminfo)
}

/// The warnings about the device.
pub open spec fn hardware_warnings(d: LinuxReadings) -> Seq<Seq<char>> {
    unverified("driver"@, driver_text(d) is None) + unverified(
        "NIC identity"@,
        nic_text(d) is None,
    ) + unverified("PCIe link"@, pcie_text(d) is None) + unverified(
        "NIC firmware"@,
        content(d.firmware) is None,
    ) + unverified("NUMA topology"@, numa_text(d) is None) + unverified(
        "memory capacity"@,
        memory_text(d) is None,
    ) + unverified("Huge Pages"@, huge_page_text(d) is None)
}

/// The warnings about the system.
pub open spec fn system_warnings(d: LinuxReadings) -> Seq<Seq<char>> {
    unverified("CPU model"@, cpu_text(d) is None) + unverified(
        "CPU frequency"@,
        frequency_text(d) is None,
    ) + unverified("OS"@, os_text(d) is None) + unverified("kernel"@, content(d.kernel) is None)
        + unverified("MTU"@, mtu_number(d) is None) + unverified(
        "RX queues"@,
        queue_number(d, "rx-"@) is None,
    ) + unverified("TX queues"@, queue_number(d, "tx-"@) is None)
}

/// The warnings about what the request gives.
pub open spec fn evidence_warnings(d: LinuxReadings, q: LinuxBenchmarkSnapshotRequest) -> Seq<
    Seq<char>,
> {
    unverified("DPDK version"@, q.dpdk_version is None) + rss_warning(d, q) + unverified(
        "RSS configuration"@,
        rss_text(d, q) is None,
    ) + unverified("offload configuration"@, q.verified_offloads is None)
}

/// The interface.
pub open spec fn nic_text(d: LinuxReadings) -> Option<Seq<char>> {
    both("PCI "@, content(d.vendor), ":"@, content(d.device))
}

/// The bus link.
pub open spec fn pcie_text(d: LinuxReadings) -> Option<Seq<char>> {
    both(""@, content(d.link_speed), " x"@, content(d.link_width))
}

/// Whether an environment is what the readings and the request say.
pub open spec fn is_collected(
    s: BenchmarkEnvironmentSnapshot,
    d: LinuxReadings,
    q: LinuxBenchmarkSnapshotRequest,
) -> bool {
    &&& text::optional(s.os) == os_text(d)
    &&& text::optional(s.kernel) == content(d.kernel)
    &&& text::optional(s.cpu) == cpu_text(d)
    &&& text::optional(s.cpu_frequency) == frequency_text(d)
    &&& text::optional(s.numa) == numa_text(d)
    &&& text::optional(s.memory) == memory_text(d)
    &&& text::optional(s.huge_pages) == huge_page_text(d)
    &&& text::optional(s.nic) == nic_text(d)
    &&& text::optional(s.pcie) == pcie_text(d)
    &&& text::optional(s.firmware) == content(d.firmware)
    &&& text::optional(s.driver) == driver_text(d)
    &&& text::optional(s.dpdk_version) == text::optional(q.dpdk_version)
    &&& text::optional(s.backend) == Some(q.backend@)
    &&& s.mtu == mtu_number(d)
    &&& s.rx_queues == queue_number(d, "rx-"@)
    &&& s.tx_queues == queue_number(d, "tx-"@)
    &&& text::optional(s.rss) == rss_text(d, q)
    &&& text::optional(s.offloads) == text::optional(q.verified_offloads)
}

fn trimmed_content(s: &Option<String>) -> (r: Option<String>)
    ensures
        text::optional(r) == content(*s),
{
    match s {
        None => None,
        Some(t) => {
            let v = trim(t.as_str());
            if v.as_str().is_empty() {
                None
            } else {
                Some(v)
            }
        },
    }
}

fn join_both(before: &str, a: Option<String>, between: &str, b: Option<String>) -> (r: Option<
    String,
>)
    ensures
        text::optional(r) == both(before@, text::optional(a), between@, text::optional(b)),
{
    match (a, b) {
        (Some(x), Some(y)) => {
            let mut out = before.to_owned();
            out.append(x.as_str());
            out.append(between);
            out.append(y.as_str());
            Some(out)
        },
        _ => None,
    }
}

fn describe_driver(d: &LinuxReadings) -> (r: Option<String>)
    ensures
        text::optional(r) == driver_text(*d),
{
    match &d.driver {
        None => None,
        Some(name) => match trimmed_content(&d.driver_version) {
            Some(version) => {
                let mut out = name.clone();
                out.append(" ");
                out.append(version.as_str());
                Some(out)
            },
            None => Some(name.clone()),
        },
    }
}

fn describe_numa(d: &LinuxReadings) -> (r: Option<String>)
    ensures
        text::optional(r) == numa_text(*d),
{
    match &d.node_entries {
        None => None,
        Some(names) => {
            let nodes = numbered_entries(names.as_slice(), "node");
            let node = trimmed_content(&d.numa_node);
            match (nodes, node) {
                (Some(n), Some(node)) => {
                    let mut out = "nodes=".to_owned();
                    out.append(decimal_text(n as u64).as_str());
                    out.append(",nic_node=");
                    out.append(node.as_str());
                    Some(out)
                },
                _ => None,
            }
        },
    }
}

fn describe_memory(d: &LinuxReadings) -> (r: Option<String>)
    ensures
        text::optional(r) == memory_text(*d),
{
    match &d.meminfo {
        Ok(m) => match meminfo_value(m.as_str(), "MemTotal:") {
            Some(n) => {
                let mut out = "MemTotal=".to_owned();
                out.append(decimal_text(n).as_str());
                out.append(" kB");
                Some(out)
            },
            None => None,
        },
        Err(_) => None,
    }
}

fn describe_huge_pages(d: &LinuxReadings) -> (r: Option<String>)
    ensures
        text::optional(r) == huge_page_text(*d),
{
    match &d.meminfo {
        Ok(m) => {
            let total = meminfo_value(m.as_str(), "HugePages_Total:");
            let free = meminfo_value(m.as_str(), "HugePages_Free:");
            let size = meminfo_value(m.as_str(), "Hugepagesize:");
            match (total, free, size) {
                (Some(total), Some(free), Some(size)) => {
                    let mut out = "total=".to_owned();
                    out.append(decimal_text(total).as_str());
                    out.append(",free=");
                    out.append(decimal_text(free).as_str());
                    out.append(",size_kib=");
                    out.append(decimal_text(size).as_str());
                    Some(out)
                },
                _ => None,
            }
        },
        Err(_) => None,
    }
}

fn describe_cpu(d: &LinuxReadings) -> (r: Option<String>)
    ensures
        text::optional(r) == cpu_text(*d),
{
    match &d.cpuinfo {
        Ok(c) => proc_text(c.as_str(), "model name"),
        Err(_) => None,
    }
}

fn describe_frequency(d: &LinuxReadings) -> (r: Option<String>)
    ensures
        text::optional(r) == frequency_text(*d),
{
    match trimmed_content(&d.cpu_frequency) {
        Some(f) => {
            let mut out = f;
            out.append(" kHz");
            Some(out)
        },
        None => match &d.cpuinfo {
            Ok(c) => match proc_text(c.as_str(), "cpu MHz") {
                Some(f) => {
                    let mut out = f;
                    out.append(" MHz");
                    Some(out)
                },
                None => None,
            },
            Err(_) => None,
        },
    }
}

fn describe_os(d: &LinuxReadings) -> (r: Option<String>)
    ensures
        text::optional(r) == os_text(*d),
{
    match &d.os_release {
        Ok(c) => os_release_value(c.as_str(), "PRETTY_NAME"),
        Err(_) => None,
    }
}

fn read_mtu(d: &LinuxReadings) -> (r: Option<u32>)
    ensures
        r == mtu_number(*d),
{
    match trimmed_content(&d.mtu) {
        Some(s) => match parse_unsigned(s.as_str(), 0xffff_ffff) {
            Some(n) => Some(n as u32),
            None => None,
        },
        None => None,
    }
}

fn read_queues(d: &LinuxReadings, prefix: &str) -> (r: Option<u32>)
    ensures
        r == queue_number(*d, prefix@),
{
    match &d.queue_entries {
        Some(names) => count_entries(names.as_slice(), prefix),
        None => None,
    }
}

fn note_missing(warnings: &mut Vec<String>, label: &str, missing: bool)
    ensures
        text::texts(final(warnings)@) == text::texts(old(warnings)@) + unverified(label@, missing),
{
    let ghost before = text::texts(warnings@);
    if missing {
        let mut out = label.to_owned();
        out.append(" could not be verified");
        warnings.push(out);
    }
    proof {
        assert(text::texts(warnings@) =~= before + unverified(label@, missing));
    }
}

fn note_unavailable(warnings: &mut Vec<String>, label: &str, reading: &Result<String, String>)
    ensures
        text::texts(final(warnings)@) == text::texts(old(warnings)@) + unavailable(
            label@,
            *reading,
        ),
{
    let ghost before = text::texts(warnings@);
    match reading {
        Ok(_) => {},
        Err(place) => {
            let mut out = label.to_owned();
            out.append(" is unavailable at ");
            out.append(place.as_str());
            warnings.push(out);
        },
    }
    proof {
        assert(text::texts(warnings@) =~= before + unavailable(label@, *reading));
    }
}

fn note_identity(
    warnings: &mut Vec<String>,
    d: &LinuxReadings,
    q: &LinuxBenchmarkSnapshotRequest,
)
    ensures
        text::texts(final(warnings)@) == text::texts(old(warnings)@) + identity_warning(*d, *q),
{
    let ghost before = text::texts(warnings@);
    let (found, matches): (&str, bool) = match &d.device_name {
        Some(n) => (n.as_str(), same(n.as_str(), q.pci_address.as_str())),
        None => ("unknown", false),
    };
    if !matches {
        let mut out = "PCI identity mismatch: expected ".to_owned();
        out.append(q.pci_address.as_str());
        out.append(", discovered ");
        out.append(found);
        warnings.push(out);
    }
    proof {
        assert(text::texts(warnings@) =~= before + identity_warning(*d, *q));
    }
}

fn take_rss(
    warnings: &mut Vec<String>,
    d: &LinuxReadings,
    q: &LinuxBenchmarkSnapshotRequest,
) -> (r: Option<String>)
    ensures
        text::optional(r) == rss_text(*d, *q),
        text::texts(final(warnings)@) == text::texts(old(warnings)@) + rss_warning(*d, *q),
{
    let ghost before = text::texts(warnings@);
    proof {
        assert(before + Seq::<Seq<char>>::empty() == before);
    }
    match &q.verified_rss {
        None => None,
        Some(value) => match parse_rss_evidence(value.as_str()) {
            Err(error) => {
                let mut out = "RSS evidence rejected: ".to_owned();
                out.append(error.message.as_str());
                warnings.push(out);
                proof {
                    assert(text::texts(warnings@) =~= before + rss_warning(*d, *q));
                }
                None
            },
            Ok(evidence) => match (evidence.queue_count, read_queues(d, "rx-")) {
                (Some(n), Some(actual)) => {
                    if n != actual {
                        let mut out = "RSS queue count mismatch: evidence=".to_owned();
                        out.append(decimal_text(n as u64).as_str());
                        out.append(", sysfs=");
                        out.append(decimal_text(actual as u64).as_str());
                        warnings.push(out);
                        proof {
                            assert(text::texts(warnings@) =~= before + rss_warning(*d, *q));
                        }
                        None
                    } else {
                        Some(value.clone())
                    }
                },
                _ => Some(value.clone()),
            },
        },
    }
}

fn append_texts(all: &mut Vec<String>, more: Vec<String>)
    ensures
        text::texts(final(all)@) == text::texts(old(all)@) + text::texts(more@),
{
    let ghost before = text::texts(all@);
    let ghost added = text::texts(more@);
    let mut more = more;
    all.append(&mut more);
    proof {
        assert(text::texts(all@) =~= before + added);
    }
}

/// The parts of an environment that describe the device.
struct HardwareParts {
    driver: Option<String>,
    nic: Option<String>,
    pcie: Option<String>,
    firmware: Option<String>,
    numa: Option<String>,
    memory: Option<String>,
    huge_pages: Option<String>,
}

fn collect_hardware(warnings: &mut Vec<String>, d: &LinuxReadings) -> (r: HardwareParts)
    ensures
        text::texts(final(warnings)@) == text::texts(old(warnings)@) + hardware_warnings(*d),
        text::optional(r.driver) == driver_text(*d),
        text::optional(r.nic) == nic_text(*d),
        text::optional(r.pcie) == pcie_text(*d),
        text::optional(r.firmware) == content(d.firmware),
        text::optional(r.numa) == numa_text(*d),
        text::optional(r.memory) == memory_text(*d),
        text::optional(r.huge_pages) == huge_page_text(*d),
{
    let driver = describe_driver(d);
    let nic = join_both("PCI ", trimmed_content(&d.vendor), ":", trimmed_content(&d.device));
    let pcie = join_both("", trimmed_content(&d.link_speed), " x", trimmed_content(&d.link_width));
    let firmware = trimmed_content(&d.firmware);
    let numa = describe_numa(d);
    let memory = describe_memory(d);
    let huge_pages = describe_huge_pages(d);
    let mut mine: Vec<String> = Vec::new();
    proof {
        assert(text::texts(mine@) == Seq::<Seq<char>>::empty());
        assert(Seq::<Seq<char>>::empty() + unverified("driver"@, driver_text(*d) is None) == unverified("driver"@, driver_text(*d) is None));
    }
    note_missing(&mut mine, "driver", driver.is_none());
    note_missing(&mut mine, "NIC identity", nic.is_none());
    note_missing(&mut mine, "PCIe link", pcie.is_none());
    note_missing(&mut mine, "NIC firmware", firmware.is_none());
    note_missing(&mut mine, "NUMA topology", numa.is_none());
    note_missing(&mut mine, "memory capacity", memory.is_none());
    note_missing(&mut mine, "Huge Pages", huge_pages.is_none());
    append_texts(warnings, mine);
    HardwareParts { driver, nic, pcie, firmware, numa, memory, huge_pages }
}

/// The parts of an environment that describe the system.
struct SystemParts {
    cpu: Option<String>,
    cpu_frequency: Option<String>,
    os: Option<String>,
    kernel: Option<String>,
    mtu: Option<u32>,
    rx_queues: Option<u32>,
    tx_queues: Option<u32>,
}

fn collect_system(warnings: &mut Vec<String>, d: &LinuxReadings) -> (r: SystemParts)
    ensures
        text::texts(final(warnings)@) == text::texts(old(warnings)@) + system_warnings(*d),
        text::optional(r.cpu) == cpu_text(*d),
        text::optional(r.cpu_frequency) == frequency_text(*d),
        text::optional(r.os) == os_text(*d),
        text::optional(r.kernel) == content(d.kernel),
        r.mtu == mtu_number(*d),
        r.rx_queues == queue_number(*d, "rx-"@),
        r.tx_queues == queue_number(*d, "tx-"@),
{
    let cpu = describe_cpu(d);
    let cpu_frequency = describe_frequency(d);
    let os = describe_os(d);
    let kernel = trimmed_content(&d.kernel);
    let mtu = read_mtu(d);
    let rx_queues = read_queues(d, "rx-");
    let tx_queues = read_queues(d, "tx-");
    let mut mine: Vec<String> = Vec::new();
    proof {
        assert(text::texts(mine@) == Seq::<Seq<char>>::empty());
        assert(Seq::<Seq<char>>::empty() + unverified("CPU model"@, cpu_text(*d) is None) == unverified("CPU model"@, cpu_text(*d) is None));
    }
    note_missing(&mut mine, "CPU model", cpu.is_none());
    note_missing(&mut mine, "CPU frequency", cpu_frequency.is_none());
    note_missing(&mut mine, "OS", os.is_none());
    note_missing(&mut mine, "kernel", kernel.is_none());
    note_missing(&mut mine, "MTU", mtu.is_none());
    note_missing(&mut mine, "RX queues", rx_queues.is_none());
    note_missing(&mut mine, "TX queues", tx_queues.is_none());
    append_texts(warnings, mine);
    SystemParts { cpu, cpu_frequency, os, kernel, mtu, rx_queues, tx_queues }
}

fn collect_evidence(
    warnings: &mut Vec<String>,
    d: &LinuxReadings,
    q: &LinuxBenchmarkSnapshotRequest,
) -> (r: Option<String>)
    ensures
        text::texts(final(warnings)@) == text::texts(old(warnings)@) + evidence_warnings(*d, *q),
        text::optional(r) == rss_text(*d, *q),
{
    note_missing(warnings, "DPDK version", q.dpdk_version.is_none());
    let rss = take_rss(warnings, d, q);
    note_missing(warnings, "RSS configuration", rss.is_none());
    note_missing(warnings, "offload configuration", q.verified_offloads.is_none());
    proof {
        assert(text::texts(warnings@) =~= text::texts(old(warnings)@) + evidence_warnings(*d, *q));
    }
    rss
}

/// Puts together the environment that readings of a Linux system describe. What is missing
/// stays missing and is warned about; nothing is guessed.
///
/// # Errors
///
/// Fails when the request is not valid.
pub fn collect_linux_environment(
    readings: &LinuxReadings,
    request: &LinuxBenchmarkSnapshotRequest,
) -> (r: Result<EnvironmentCollection, NetToolError>)
    ensures
        match r {
            Ok(c) => {
                &&& request_fault(*request) is None
                &&& is_collected(c.snapshot, *readings, *request)
                &&& text::texts(c.warnings@) == collection_warnings(*readings, *request)
            },
            Err(e) => request_fault(*request) is Some && e.is(
                ErrorCode::InvalidArgument,
                request_fault(*request)->0,
                false,
            ),
        },
{
    match validate_request(request) {
        Ok(_) => {},
        Err(e) => {
            return Err(e);
        },
    }
    let mut warnings: Vec<String> = Vec::new();
    proof {
        assert(text::texts(warnings@) == Seq::<Seq<char>>::empty());
    }
    note_identity(&mut warnings, readings, request);
    note_unavailable(&mut warnings, "OS release", &readings.os_release);
    note_unavailable(&mut warnings, "CPU information", &readings.cpuinfo);
    note_unavailable(&mut warnings, "memory information", &readings.meminfo);
    proof {
        assert(text::texts(warnings@) =~= reading_warnings(*readings, *request));
    }
    let hardware = collect_hardware(&mut warnings, readings);
    let system = collect_system(&mut warnings, readings);
    let rss = collect_evidence(&mut warnings, readings, request);
    let snapshot = BenchmarkEnvironmentSnapshot {
        os: system.os,
        kernel: system.kernel,
        cpu: system.cpu,
        cpu_frequency: system.cpu_frequency,
        numa: hardware.numa,
        memory: hardware.memory,
        huge_pages: hardware.huge_pages,
        nic: hardware.nic,
        pcie: hardware.pcie,
        firmware: hardware.firmware,
        driver: hardware.driver,
        dpdk_version: request.dpdk_version.clone(),
        backend: Some(request.backend.clone()),
        mtu: system.mtu,
        rx_queues: system.rx_queues,
        tx_queues: system.tx_queues,
        rss,
        offloads: request.verified_offloads.clone(),
    };
    Ok(EnvironmentCollection { snapshot, warnings })
}

/// Whether a warning says that something could not be verified.
pub open spec fn warned(warnings: Seq<Seq<char>>, label: Seq<char>) -> bool {
    warnings.contains(label + " could not be verified"@)
}

broadcast proof fn lemma_warned_concat(a: Seq<Seq<char>>, b: Seq<Seq<char>>, label: Seq<char>)
    ensures
        #[trigger] warned(a + b, label) <==> warned(a, label) || warned(b, label),
{
    let x = label + " could not be verified"@;
    if a.contains(x) {
        let i = choose|i: int| 0 <= i < a.len() && a[i] == x;
        assert((a + b)[i] == x);
    }
    if b.contains(x) {
        let i = choose|i: int| 0 <= i < b.len() && b[i] == x;
        assert((a + b)[a.len() + i] == x);
    }
}

broadcast proof fn lemma_warned_one(label: Seq<char>)
    ensures
        #[trigger] warned(unverified(label, true), label),
{
    assert(unverified(label, true)[0] == label + " could not be verified"@);
}

/// Nothing is guessed: for every field that is missing a warning says so.
pub proof fn law_missing_fields_are_warned_about(
    c: EnvironmentCollection,
    d: LinuxReadings,
    q: LinuxBenchmarkSnapshotRequest,
)
    requires
        is_collected(c.snapshot, d, q),
        text::texts(c.warnings@) == collection_warnings(d, q),
    ensures
        ({
            let w = text::texts(c.warnings@);
            &&& c.snapshot.driver is None ==> warned(w, "driver"@)
            &&& c.snapshot.nic is None ==> warned(w, "NIC identity"@)
            &&& c.snapshot.pcie is None ==> warned(w, "PCIe link"@)
            &&& c.snapshot.firmware is None ==> warned(w, "NIC firmware"@)
            &&& c.snapshot.numa is None ==> warned(w, "NUMA topology"@)
            &&& c.snapshot.memory is None ==> warned(w, "memory capacity"@)
            &&& c.snapshot.huge_pages is None ==> warned(w, "Huge Pages"@)
            &&& c.snapshot.cpu is None ==> warned(w, "CPU model"@)
            &&& c.snapshot.cpu_frequency is None ==> warned(w, "CPU frequency"@)
            &&& c.snapshot.os is None ==> warned(w, "OS"@)
            &&& c.snapshot.kernel is None ==> warned(w, "kernel"@)
            &&& c.snapshot.mtu is None ==> warned(w, "MTU"@)
            &&& c.snapshot.rx_queues is None ==> warned(w, "RX queues"@)
            &&& c.snapshot.tx_queues is None ==> warned(w, "TX queues"@)
            &&& c.snapshot.dpdk_version is None ==> warned(w, "DPDK version"@)
            &&& c.snapshot.rss is None ==> warned(w, "RSS configuration"@)
            &&& c.snapshot.offloads is None ==> warned(w, "offload configuration"@)
        }),
{
    broadcast use lemma_warned_concat;
    broadcast use lemma_warned_one;

}

} // verus!
