//! What is made of what Linux shows of itself.

use crate::benchmark::snapshot::BenchmarkEnvironmentSnapshot;
use crate::domain::{NicBusType, NicProbe, Platform};
use crate::dpdk::environment;
use crate::dpdk::environment::{LinuxBenchmarkSnapshotRequest, LinuxReadings, RssEvidence};
use crate::dpdk::preflight;
use crate::dpdk::probe;
use crate::dpdk::probe::{LinuxProbeReadings, RawNic};
use crate::text;
use crate::text_laws;
use vstd::prelude::*;
use vstd::utf8::encode_utf8;

verus! {

// -------------------------------------------------------------------------------------- fields

/// A number is read from the first line that begins with its key, where it is the second word.
pub proof fn law_numbers_behind_keys(ls: Seq<Seq<char>>, key: Seq<char>)
    ensures
        match environment::line_with_prefix(ls, key) {
            Some(line) => exists|i: int|
                {
                    &&& 0 <= i < ls.len()
                    &&& #[trigger] ls[i] == line
                    &&& text::has_prefix(line, key)
                    &&& forall|j: int| 0 <= j < i ==> !text::has_prefix(#[trigger] ls[j], key)
                },
            None => forall|i: int| 0 <= i < ls.len() ==> !text::has_prefix(#[trigger] ls[i], key),
        },
    decreases ls.len(),
{
    if ls.len() > 0 && !text::has_prefix(ls[0], key) {
        let rest = ls.drop_first();
        law_numbers_behind_keys(rest, key);
        match environment::line_with_prefix(rest, key) {
            Some(line) => {
                let i = choose|i: int|
                    {
                        &&& 0 <= i < rest.len()
                        &&& #[trigger] rest[i] == line
                        &&& text::has_prefix(line, key)
                        &&& forall|j: int| 0 <= j < i ==> !text::has_prefix(#[trigger] rest[j], key)
                    };
                assert(ls[i + 1] == line);
                assert forall|j: int| 0 <= j < i + 1 implies !text::has_prefix(
                    #[trigger] ls[j],
                    key,
                ) by {
                    if j > 0 {
                        assert(rest[j - 1] == ls[j]);
                    }
                }
            },
            None => {
                assert forall|j: int| 0 <= j < ls.len() implies !text::has_prefix(
                    #[trigger] ls[j],
                    key,
                ) by {
                    if j > 0 {
                        assert(rest[j - 1] == ls[j]);
                    }
                }
            },
        }
    } else if ls.len() > 0 {
        assert(ls[0] == ls[0]);
    }
}

/// The memory information is read back: a key, white space and a number are read as that
/// number, whatever stands behind them.
pub proof fn law_memory_information(key: Seq<char>, blank: char, n: u64, rest: Seq<char>)
    requires
        text::is_whitespace(blank),
        key.len() > 0,
        forall|i: int| 0 <= i < key.len() ==> !text::is_whitespace(#[trigger] key[i]),
    ensures
        text::words(key.push(blank) + text::decimal(n as nat)) == seq![
            key,
            text::decimal(n as nat),
        ],
        text::unsigned_value(text::decimal(n as nat), u64::MAX as nat) == Some(n as nat),
{
    let digits = text::decimal(n as nat);
    text_laws::law_numbers_are_read_back(n as nat, u64::MAX as nat);
    text::lemma_decimal_value(n as nat);
    assert forall|i: int| 0 <= i < digits.len() implies !text::is_whitespace(
        #[trigger] digits[i],
    ) by {
        text_laws::law_blanks_are_white_space(digits[i]);
    }
    text_laws::law_words_are_apart(key, blank, digits);
    text_laws::law_words_are_apart(key, blank, key);
    assert(seq![key].push(digits) =~= seq![key, digits]);
}

/// A field with a colon is the first whose name is the key: its value is what stands behind the
/// first colon of its line, trimmed.
pub proof fn law_fields_with_colons(line: Seq<char>, rest: Seq<Seq<char>>, key: Seq<char>, at: int)
    requires
        0 <= at < line.len(),
        line[at] == ':',
        forall|i: int| 0 <= i < at ==> line[i] != ':',
    ensures
        text::trimmed(line.take(at)) == key ==> environment::colon_field(seq![line] + rest, key)
            == Some(text::trimmed(line.skip(at + 1))),
        text::trimmed(line.take(at)) != key ==> environment::colon_field(seq![line] + rest, key)
            == environment::colon_field(rest, key),
{
    lemma_first_index(line, ':', at);
    assert((seq![line] + rest).drop_first() =~= rest);
    assert(line.contains(line[at]));
}

/// A field with an equals sign is the first whose name is the key: its value is what stands
/// behind the first such sign of its line, without the quotation marks around it.
pub proof fn law_fields_with_equals_signs(
    line: Seq<char>,
    rest: Seq<Seq<char>>,
    key: Seq<char>,
    at: int,
)
    requires
        0 <= at < line.len(),
        line[at] == '=',
        forall|i: int| 0 <= i < at ==> line[i] != '=',
    ensures
        line.take(at) == key ==> environment::equals_field(seq![line] + rest, key) == Some(
            text::without_trailing(text::without_leading(line.skip(at + 1), '"'), '"'),
        ),
        line.take(at) != key ==> environment::equals_field(seq![line] + rest, key)
            == environment::equals_field(rest, key),
{
    lemma_first_index(line, '=', at);
    assert((seq![line] + rest).drop_first() =~= rest);
    assert(line.contains(line[at]));
}

proof fn lemma_first_index(s: Seq<char>, c: char, at: int)
    requires
        0 <= at < s.len(),
        s[at] == c,
        forall|i: int| 0 <= i < at ==> s[i] != c,
    ensures
        text::first_index(s, c) == at,
    decreases s.len(),
{
    if at > 0 {
        assert(s[0] != c);
        let t = s.drop_first();
        assert forall|i: int| 0 <= i < at - 1 implies t[i] != c by {
            assert(s[i + 1] != c);
        }
        lemma_first_index(t, c, at - 1);
    }
}

/// Names are counted where they are the prefix and a number; one name more is counted exactly
/// where it is such a name.
pub proof fn law_numbered_names(names: Seq<String>, name: String, prefix: Seq<char>)
    ensures
        environment::count_numbered(Seq::<String>::empty(), prefix) == 0,
        environment::count_numbered(names.push(name), prefix) == environment::count_numbered(
            names,
            prefix,
        ) + (if text::has_prefix(name@, prefix) && name@.len() > prefix.len() && (forall|i: int|
            prefix.len() <= i < name@.len() ==> 0x30 <= #[trigger] name@[i] as u32 <= 0x39) {
            1int
        } else {
            0int
        }),
        environment::count_prefixed(Seq::<String>::empty(), prefix) == 0,
        environment::count_prefixed(names.push(name), prefix) == environment::count_prefixed(
            names,
            prefix,
        ) + (if text::has_prefix(name@, prefix) {
            1int
        } else {
            0int
        }),
{
    assert(names.push(name).drop_last() =~= names);
    let rest = name@.skip(prefix.len() as int);
    if text::has_prefix(name@, prefix) && text::all_digits(rest) {
        assert forall|i: int| prefix.len() <= i < name@.len() implies 0x30
            <= #[trigger] name@[i] as u32 <= 0x39 by {
            assert(text::is_digit(rest[i - prefix.len()]));
        }
    }
    if text::has_prefix(name@, prefix) && (forall|i: int|
        prefix.len() <= i < name@.len() ==> 0x30 <= #[trigger] name@[i] as u32 <= 0x39) {
        assert forall|i: int| 0 <= i < rest.len() implies text::is_digit(#[trigger] rest[i]) by {
            assert(rest[i] == name@[i + prefix.len()]);
        }
    }
}

/// The default route is on the first line whose destination is zero, and its interface is the
/// first word there.
pub proof fn law_default_routes(line: Seq<char>, rest: Seq<Seq<char>>)
    ensures
        environment::default_route(Seq::empty()) is None,
        ({
            let w = text::words(line);
            &&& w.len() >= 2 && w[1] == "00000000"@ ==> environment::default_route(
                seq![line] + rest,
            ) == Some(w[0])
            &&& !(w.len() >= 2 && w[1] == "00000000"@) ==> environment::default_route(
                seq![line] + rest,
            ) == environment::default_route(rest)
        }),
{
    assert((seq![line] + rest).drop_first() =~= rest);
}

/// The evidence of the distribution of packets: it is on, it is off, or it is on with a number
/// of queues that is not zero. Everything else is refused.
pub proof fn law_evidence_of_distribution(value: Seq<char>)
    ensures
        match environment::rss_value(value) {
            Ok(RssEvidence { active, queue_count }) => {
                let v = text::trimmed(value);
                ||| active && queue_count is None && text::lowercase(v) == text::lowercase(
                    "enabled"@,
                )
                ||| !active && queue_count is None && text::lowercase(v) == text::lowercase(
                    "disabled"@,
                )
                ||| active && (queue_count matches Some(n) && n > 0 && text::has_prefix(
                    v,
                    "enabled:"@,
                ) && text::has_suffix(v.skip("enabled:"@.len() as int), " queues"@)
                    && text::unsigned_value(
                    v.subrange("enabled:"@.len() as int, v.len() - " queues"@.len()),
                    0xffff_ffff,
                ) == Some(n as nat))
            },
            Err(_) => true,
        },
{
    let v = text::trimmed(value);
    let k = "enabled:"@.len() as int;
    let rest = v.skip(k);
    if text::has_prefix(v, "enabled:"@) && text::has_suffix(rest, " queues"@) {
        assert(rest.take(rest.len() - " queues"@.len()) =~= v.subrange(
            k,
            v.len() - " queues"@.len(),
        ));
    }
}

// ------------------------------------------------------------------------------------ requests

proof fn lemma_sign(c: char)
    ensures
        c as u32 == 0x2d <==> c == '-',
        c as u32 == 0x2e <==> c == '.',
        c as u32 == 0x3a <==> c == ':',
        c as u32 == 0x5f <==> c == '_',
{
}

/// A name is a safe part of a path exactly where it has one to 64 bytes of letters, digits,
/// underscores, hyphens, dots and colons.
pub proof fn law_safe_names(s: Seq<char>)
    ensures
        environment::safe_identifier(s) <==> {
            &&& 0 < s.len()
            &&& encode_utf8(s).len() <= 64
            &&& forall|i: int|
                0 <= i < s.len() ==> {
                    let c = (#[trigger] s[i]) as u32;
                    0x30 <= c <= 0x39 || 0x41 <= c <= 0x5a || 0x61 <= c <= 0x7a || c == 0x2d || c
                        == 0x2e || c == 0x3a || c == 0x5f
                }
        },
{
    assert forall|i: int| 0 <= i < s.len() implies (environment::safe_char(#[trigger] s[i]) <==> {
        let c = s[i] as u32;
        0x30 <= c <= 0x39 || 0x41 <= c <= 0x5a || 0x61 <= c <= 0x7a || c == 0x2d || c == 0x2e || c
            == 0x3a || c == 0x5f
    }) by {
        lemma_sign(s[i]);
    }
}

/// Whether evidence, where it is given, says something in at most 4096 bytes.
pub open spec fn usable(value: Option<String>) -> bool {
    value matches Some(s) ==> !text_laws::all_white(s@) && encode_utf8(s@).len() <= 4096
}

proof fn lemma_usable(value: Option<String>)
    ensures
        environment::evidence_bad(value) <==> !usable(value),
{
    if let Some(s) = value {
        text_laws::law_trimming_takes_white_space_away(s@);
    }
}

/// An environment can be collected exactly where the interface has a safe name, the PCI address
/// has its form, the backend says something in at most 128 bytes, and so does all evidence that
/// is given.
pub proof fn law_requests(q: LinuxBenchmarkSnapshotRequest)
    ensures
        environment::request_fault(q) is None <==> {
            &&& environment::safe_identifier(q.interface_name@)
            &&& environment::pci_form(q.pci_address@)
            &&& !text_laws::all_white(q.backend@)
            &&& encode_utf8(q.backend@).len() <= 128
            &&& usable(q.dpdk_version)
            &&& usable(q.verified_rss)
            &&& usable(q.verified_offloads)
        },
{
    text_laws::law_trimming_takes_white_space_away(q.backend@);
    lemma_usable(q.dpdk_version);
    lemma_usable(q.verified_rss);
    lemma_usable(q.verified_offloads);
}

// -------------------------------------------------------------------------------- environments

/// What a file holds is taken without the white space around it, and not at all where there is
/// nothing else.
pub proof fn law_contents(s: Option<String>)
    ensures
        environment::content(s) is Some <==> (s matches Some(t) && !text_laws::all_white(t@)),
        environment::content(s) matches Some(c) ==> (s matches Some(t) && c == text::trimmed(t@)),
{
    if let Some(t) = s {
        text_laws::law_trimming_takes_white_space_away(t@);
    }
}

/// Each part of an environment is what the reading of its own says: no part is taken from the
/// reading of another, and none is made up.
pub proof fn law_parts_of_environments(
    s: BenchmarkEnvironmentSnapshot,
    d: LinuxReadings,
    q: LinuxBenchmarkSnapshotRequest,
)
    requires
        environment::is_collected(s, d, q),
    ensures
        s.kernel matches Some(t) ==> (d.kernel matches Some(k) && t@ == text::trimmed(k@)),
        s.firmware matches Some(t) ==> (d.firmware matches Some(k) && t@ == text::trimmed(k@)),
        s.nic matches Some(t) ==> (d.vendor matches Some(a) && d.device matches Some(b) && t@
            == "PCI "@ + text::trimmed(a@) + ":"@ + text::trimmed(b@)),
        s.pcie matches Some(t) ==> (d.link_speed matches Some(a) && d.link_width matches Some(b)
            && t@ == ""@ + text::trimmed(a@) + " x"@ + text::trimmed(b@)),
        s.memory matches Some(t) ==> (d.meminfo matches Ok(m) && (environment::number_after(
            m@,
            "MemTotal:"@,
        ) matches Some(n) && t@ == "MemTotal="@ + text::decimal(n) + " kB"@)),
        s.huge_pages matches Some(t) ==> (d.meminfo matches Ok(m) && (environment::number_after(
            m@,
            "HugePages_Total:"@,
        ) matches Some(total) && environment::number_after(m@, "HugePages_Free:"@) matches Some(
            free,
        ) && environment::number_after(m@, "Hugepagesize:"@) matches Some(size) && t@ == "total="@
            + text::decimal(total) + ",free="@ + text::decimal(free) + ",size_kib="@
            + text::decimal(size))),
        s.cpu matches Some(t) ==> (d.cpuinfo matches Ok(c) && environment::colon_field(
            text::lines(c@),
            "model name"@,
        ) == Some(t@)),
        s.os matches Some(t) ==> (d.os_release matches Ok(c) && environment::equals_field(
            text::lines(c@),
            "PRETTY_NAME"@,
        ) == Some(t@)),
        s.mtu matches Some(n) ==> (d.mtu matches Some(t) && text::unsigned_value(
            text::trimmed(t@),
            0xffff_ffff,
        ) == Some(n as nat)),
        s.dpdk_version is Some <==> q.dpdk_version is Some,
        s.dpdk_version matches Some(t) ==> (q.dpdk_version matches Some(v) && t@ == v@),
        s.backend matches Some(t) && t@ == q.backend@,
{
}

/// The frequency is the one that the processor has now, in kilohertz, and only where that is
/// not known the one that it is sold with, in megahertz.
pub proof fn law_frequencies(d: LinuxReadings)
    ensures
        (d.cpu_frequency matches Some(t) && !text_laws::all_white(t@)) ==> (
        environment::frequency_text(d) matches Some(f) && f == text::trimmed(
            (d.cpu_frequency->0)@,
        ) + " kHz"@),
        !(d.cpu_frequency matches Some(t) && !text_laws::all_white(t@)) ==> (
        environment::frequency_text(d) matches Some(f) ==> (d.cpuinfo matches Ok(c) && (
        environment::colon_field(text::lines(c@), "cpu MHz"@) matches Some(m) && f == m
            + " MHz"@))),
{
    law_contents(d.cpu_frequency);
}

/// The driver is named with its version where that is known, and the node of the interface with
/// the number of nodes.
pub proof fn law_drivers_and_nodes(d: LinuxReadings)
    ensures
        environment::driver_text(d) matches Some(t) ==> (d.driver matches Some(name) && (
        match d.driver_version {
            Some(v) => if text_laws::all_white(v@) {
                t == name@
            } else {
                t == name@ + " "@ + text::trimmed(v@)
            },
            None => t == name@,
        })),
        environment::driver_text(d) is Some <==> d.driver is Some,
        environment::numa_text(d) matches Some(t) ==> (d.node_entries matches Some(names)
            && d.numa_node matches Some(node) && t == "nodes="@ + text::decimal(
            environment::count_numbered(names@, "node"@),
        ) + ",nic_node="@ + text::trimmed(node@)),
{
    law_contents(d.driver_version);
    law_contents(d.numa_node);
}

/// The evidence of the distribution of packets is kept only where it is understood and does not
/// contradict the receive queues that the interface has; where it is not kept there is a
/// warning.
pub proof fn law_evidence_that_is_kept(d: LinuxReadings, q: LinuxBenchmarkSnapshotRequest)
    ensures
        environment::rss_text(d, q) matches Some(t) ==> {
            &&& q.verified_rss matches Some(v) && t == v@
            &&& environment::rss_value(t) matches Ok(e) && (e.queue_count matches Some(n) ==> (
            d.queue_entries matches Some(names) ==> environment::count_prefixed(names@, "rx-"@)
                == n || environment::count_prefixed(names@, "rx-"@) > 0xffff_ffff))
        },
        q.verified_rss is Some && environment::rss_text(d, q) is None <==> environment::rss_warning(
            d,
            q,
        ).len() > 0,
{
}

// -------------------------------------------------------------------------------------- probes

/// What is known of an interface: its speed and its node as the files say them, and a queue for
/// each entry of its direction.
pub proof fn law_interfaces(nic: NicProbe, raw: RawNic)
    requires
        probe::describes(nic, raw),
    ensures
        nic.name == raw.name,
        nic.pci_address == raw.pci_address,
        nic.driver == raw.driver,
        nic.link_speed_mbps matches Some(n) ==> (raw.speed matches Some(t) && text::unsigned_value(
            text::trimmed(t@),
            0xffff_ffff_ffff_ffff,
        ) == Some(n as nat)),
        nic.numa_node matches Some(n) ==> (raw.numa_node matches Some(t) && text::signed_value(
            text::trimmed(t@),
        ) == Some(n as int)),
        nic.rx_queues matches Some(n) ==> (raw.queues matches Some(names)
            && environment::count_prefixed(names@, "rx-"@) == n),
        nic.tx_queues matches Some(n) ==> (raw.queues matches Some(names)
            && environment::count_prefixed(names@, "tx-"@) == n),
        nic.ip_addresses@.len() == 0,
        nic.bus_type == NicBusType::Unknown,
{
}

// ------------------------------------------------------------------------------------ reports

proof fn lemma_named(nics: Seq<NicProbe>, name: Seq<char>, i: int) -> (k: int)
    requires
        0 <= i < nics.len(),
        nics[i].name@ == name,
    ensures
        0 <= k < probe::named(nics, name).len(),
        probe::named(nics, name)[k] == nics[i],
    decreases nics.len(),
{
    let head = probe::named(nics.drop_last(), name);
    if i == nics.len() - 1 {
        head.len() as int
    } else {
        assert(nics.drop_last()[i] == nics[i]);
        lemma_named(nics.drop_last(), name, i)
    }
}

proof fn lemma_place_of_named(nics: Seq<NicProbe>, name: Seq<char>, k: int) -> (j: int)
    requires
        0 <= k < probe::named(nics, name).len(),
    ensures
        0 <= j < nics.len(),
        nics[j] == probe::named(nics, name)[k],
        nics[j].name@ == name,
    decreases nics.len(),
{
    let head = probe::named(nics.drop_last(), name);
    if k < head.len() {
        let j = lemma_place_of_named(nics.drop_last(), name, k);
        assert(nics.drop_last()[j] == nics[j]);
        j
    } else {
        nics.len() - 1
    }
}

/// Where two lists hold the same interfaces, each interface of the one stands in the other.
pub proof fn law_interfaces_stay_when_sorted(a: Seq<NicProbe>, b: Seq<NicProbe>, i: int) -> (j: int)
    requires
        probe::same_interfaces(a, b) || probe::same_interfaces(b, a),
        0 <= i < a.len(),
    ensures
        0 <= j < b.len(),
        b[j] == a[i],
{
    let name = a[i].name@;
    let k = lemma_named(a, name, i);
    assert(probe::named(a, name) == probe::named(b, name));
    lemma_place_of_named(b, name, k)
}

/// The surface of the kernel is there exactly on Linux, with the file system of its programs and
/// an interface at least.
pub proof fn law_surface_of_the_kernel(platform: Platform, bpf: bool, nics: nat)
    ensures
        probe::has_af_xdp_surface(platform, bpf, nics) <==> platform is Linux && bpf && nics >= 1,
{
}

/// Every entry that was skipped is warned of, in its place, and missing information on the memory
/// behind them.
pub proof fn law_warnings(d: LinuxProbeReadings, i: int)
    requires
        0 <= i < d.skipped@.len(),
    ensures
        ({
            let all = probe::linux_warnings(d);
            &&& all.len() == d.skipped@.len() + (if d.meminfo is None {
                1int
            } else {
                0
            })
            &&& all[i] == "Network interface entry was skipped: "@ + d.skipped@[i]@
            &&& d.meminfo is None ==> all.last() == "Huge page information is unavailable: "@
                + d.meminfo_error@
        }),
{
}

/// The address of the interface that carries the default route is that of the first interface of
/// its name, where it has one.
pub proof fn law_interfaces_with_names(nics: Seq<NicProbe>, name: Seq<char>, i: int)
    requires
        0 <= i < nics.len(),
        nics[i].name@ == name,
        forall|j: int| 0 <= j < i ==> (#[trigger] nics[j]).name@ != name,
    ensures
        preflight::nic_named(nics, name) == Some(nics[i]),
    decreases i,
{
    if i > 0 {
        assert(nics[0].name@ != name);
        let rest = nics.drop_first();
        assert forall|j: int| 0 <= j < i - 1 implies (#[trigger] rest[j]).name@ != name by {
            assert(rest[j] == nics[j + 1]);
        }
        law_interfaces_with_names(rest, name, i - 1);
    }
}

/// The interface that carries the default route is searched for behind the first line.
pub proof fn law_management_interface(route: Seq<char>, nics: Seq<NicProbe>, i: int)
    requires
        text::lines(route).len() > 0,
        0 <= i < nics.len(),
        environment::default_route(text::lines(route).skip(1)) == Some(nics[i].name@),
        forall|j: int| 0 <= j < i ==> (#[trigger] nics[j]).name@ != nics[i].name@,
    ensures
        environment::management_pci(route, nics) == (match nics[i].pci_address {
            Some(address) => Some(address@),
            None => None,
        }),
{
    law_interfaces_with_names(nics, nics[i].name@, i);
}

} // verus!
