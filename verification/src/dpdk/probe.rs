//! Turning what a host shows of itself into a probe report.

use crate::domain::{NicBusType, NicProbe, Platform, ProbeReport};
use crate::dpdk::environment;
use crate::dpdk::environment::{count_entries, meminfo_value, numbered_entries};
use crate::dpdk_safe::{is_native_dpdk_built, DpdkFeatures};
use crate::text;
use crate::text::{lines_of, parse_signed, parse_unsigned, precedes_or_equals, trim, words_of};
use vstd::prelude::*;
use vstd::utf8::encode_utf8;

verus! {

/// Whether a build is linked with the DPDK runtime.
#[must_use]
pub fn is_backend_built(features: DpdkFeatures) -> (r: bool)
    ensures
        r == features.native_dpdk,
{
    is_native_dpdk_built(features)
}

/// What sysfs shows of one interface: nothing where it cannot be read.
#[derive(Clone, Debug)]
pub struct RawNic {
    /// The name of its directory.
    pub name: String,
    /// The name of its resolved device directory.
    pub pci_address: Option<String>,
    /// The name of its driver directory.
    pub driver: Option<String>,
    /// The contents of `speed`.
    pub speed: Option<String>,
    /// The entries of `queues`.
    pub queues: Option<Vec<String>>,
    /// The contents of `device/numa_node`.
    pub numa_node: Option<String>,
}

/// The unsigned number that a file holds.
pub open spec fn number_in(contents: Option<String>) -> Option<nat> {
    match contents {
        Some(t) => text::unsigned_value(text::trimmed(t@), u64::MAX as nat),
        None => None,
    }
}

/// The signed number that a file holds.
pub open spec fn signed_number_in(contents: Option<String>) -> Option<int> {
    match contents {
        Some(t) => text::signed_value(text::trimmed(t@)),
        None => None,
    }
}

/// The number of queue directories with a prefix.
pub open spec fn queue_count(entries: Option<Vec<String>>, prefix: Seq<char>) -> Option<u32> {
    match entries {
        Some(names) => environment::fitting(environment::count_prefixed(names@, prefix)),
        None => None,
    }
}

/// Whether a probe holds what sysfs shows of an interface.
pub open spec fn describes(nic: NicProbe, raw: RawNic) -> bool {
    &&& nic.name == raw.name
    &&& nic.pci_address == raw.pci_address
    &&& nic.driver == raw.driver
    &&& nic.ip_addresses@.len() == 0
    &&& nic.bus_type == NicBusType::Unknown
    &&& match nic.link_speed_mbps {
        Some(n) => number_in(raw.speed) == Some(n as nat),
        None => number_in(raw.speed) is None,
    }
    &&& nic.rx_queues == queue_count(raw.queues, "rx-"@)
    &&& nic.tx_queues == queue_count(raw.queues, "tx-"@)
    &&& match nic.numa_node {
        Some(n) => signed_number_in(raw.numa_node) == Some(n as int),
        None => signed_number_in(raw.numa_node) is None,
    }
}

/// Whether probes hold what sysfs shows of interfaces, in the same order.
pub open spec fn describes_all(nics: Seq<NicProbe>, raw: Seq<RawNic>) -> bool {
    &&& nics.len() == raw.len()
    &&& forall|i: int| 0 <= i < nics.len() ==> describes(#[trigger] nics[i], raw[i])
}

/// Reads what sysfs shows of one interface.
pub fn probe_linux_nic(raw: RawNic) -> (r: NicProbe)
    ensures
        describes(r, raw),
{
    let link_speed_mbps: Option<u64> = match &raw.speed {
        Some(t) => parse_unsigned(trim(t.as_str()).as_str(), 0xffff_ffff_ffff_ffff),
        None => None,
    };
    let numa_node: Option<i32> = match &raw.numa_node {
        Some(t) => parse_signed(trim(t.as_str()).as_str()),
        None => None,
    };
    let rx_queues: Option<u32> = match &raw.queues {
        Some(names) => count_entries(names.as_slice(), "rx-"),
        None => None,
    };
    let tx_queues: Option<u32> = match &raw.queues {
        Some(names) => count_entries(names.as_slice(), "tx-"),
        None => None,
    };
    NicProbe {
        name: raw.name,
        ip_addresses: Vec::new(),
        pci_address: raw.pci_address,
        bus_type: NicBusType::Unknown,
        driver: raw.driver,
        link_speed_mbps,
        rx_queues,
        tx_queues,
        numa_node,
    }
}

/// An interface of which only the name is known.
pub open spec fn only_named(nic: NicProbe, name: Seq<char>) -> bool {
    &&& nic.name@ == name
    &&& nic.ip_addresses@.len() == 0
    &&& nic.pci_address is None
    &&& nic.bus_type == NicBusType::Unknown
    &&& nic.driver is None
    &&& nic.link_speed_mbps is None
    &&& nic.rx_queues is None
    &&& nic.tx_queues is None
    &&& nic.numa_node is None
}

/// Whether interfaces of which only the names are known have these names, in this order.
pub open spec fn only_names(nics: Seq<NicProbe>, names: Seq<Seq<char>>) -> bool {
    &&& nics.len() == names.len()
    &&& forall|i: int| 0 <= i < nics.len() ==> only_named(#[trigger] nics[i], names[i])
}

fn nic_with_name(name: String) -> (r: NicProbe)
    ensures
        only_named(r, name@),
{
    NicProbe {
        name,
        ip_addresses: Vec::new(),
        pci_address: None,
        bus_type: NicBusType::Unknown,
        driver: None,
        link_speed_mbps: None,
        rx_queues: None,
        tx_queues: None,
        numa_node: None,
    }
}

/// The interfaces in the output of `ifconfig -l`: one for each word.
pub fn nics_from_word_list(output: &str) -> (r: Vec<NicProbe>)
    ensures
        only_names(r@, text::words(output@)),
{
    let words = words_of(output);
    let mut out: Vec<NicProbe> = Vec::new();
    let mut i: usize = 0;
    while i < words.len()
        invariant
            i <= words@.len(),
            text::texts(words@) == text::words(output@),
            out@.len() == i,
            forall|j: int| 0 <= j < i ==> only_named(#[trigger] out@[j], words@[j]@),
        decreases words@.len() - i,
    {
        out.push(nic_with_name(words[i].as_str().to_owned()));
        i += 1;
    }
    proof {
        assert forall|j: int| 0 <= j < out@.len() implies only_named(
            #[trigger] out@[j],
            text::words(output@)[j],
        ) by {
            assert(text::texts(words@)[j] == words@[j]@);
        }
    }
    out
}

/// The interfaces in the output of an adapter query: one for each line that is not blank.
pub fn nics_from_lines(output: &str) -> (r: Vec<NicProbe>)
    ensures
        only_names(r@, text::filled(text::lines(output@))),
{
    let lines = lines_of(output);
    let ghost ls = text::lines(output@);
    let mut out: Vec<NicProbe> = Vec::new();
    let mut i: usize = 0;
    while i < lines.len()
        invariant
            i <= lines@.len(),
            text::texts(lines@) == ls,
            ls == text::lines(output@),
            only_names(out@, text::filled(ls.take(i as int))),
        decreases lines@.len() - i,
    {
        let name = trim(lines[i].as_str());
        proof {
            assert(text::texts(lines@)[i as int] == lines@[i as int]@);
            assert(ls.take(i + 1).drop_last() == ls.take(i as int));
            assert(ls.take(i + 1).last() == lines@[i as int]@);
        }
        if !name.as_str().is_empty() {
            out.push(nic_with_name(name));
        }
        i += 1;
    }
    proof {
        assert(ls.take(ls.len() as int) == ls);
    }
    out
}

// -------------------------------------------------------------------------------- sorting

/// The name of an interface as bytes.
pub open spec fn name_bytes(nic: NicProbe) -> Seq<u8> {
    encode_utf8(nic.name@)
}

/// Whether interfaces are in the order of their names.
pub open spec fn in_name_order(nics: Seq<NicProbe>) -> bool {
    forall|i: int, j: int|
        0 <= i < j < nics.len() ==> text::not_after(
            name_bytes(#[trigger] nics[i]),
            name_bytes(#[trigger] nics[j]),
        )
}

/// The interfaces with a name, in their order.
pub open spec fn named(nics: Seq<NicProbe>, name: Seq<char>) -> Seq<NicProbe>
    decreases nics.len(),
{
    if nics.len() == 0 {
        Seq::empty()
    } else {
        let head = named(nics.drop_last(), name);
        if nics.last().name@ == name {
            head.push(nics.last())
        } else {
            head
        }
    }
}

/// Whether two lists hold the same interfaces, those with one name in the same order.
pub open spec fn same_interfaces(a: Seq<NicProbe>, b: Seq<NicProbe>) -> bool {
    forall|name: Seq<char>| #[trigger] named(a, name) == named(b, name)
}

proof fn lemma_named_concat(a: Seq<NicProbe>, b: Seq<NicProbe>, name: Seq<char>)
    ensures
        named(a + b, name) == named(a, name) + named(b, name),
    decreases b.len(),
{
    if b.len() == 0 {
        assert(a + b == a);
    } else {
        assert((a + b).drop_last() == a + b.drop_last());
        assert((a + b).last() == b.last());
        lemma_named_concat(a, b.drop_last(), name);
    }
}

proof fn lemma_none_named(a: Seq<NicProbe>, name: Seq<char>)
    requires
        forall|i: int| 0 <= i < a.len() ==> (#[trigger] a[i]).name@ != name,
    ensures
        named(a, name) == Seq::<NicProbe>::empty(),
    decreases a.len(),
{
    if a.len() > 0 {
        lemma_none_named(a.drop_last(), name);
    }
}

proof fn lemma_reflexive(a: Seq<u8>)
    ensures
        text::not_after(a, a),
{
    text::lemma_not_after_total(a, a);
}

proof fn lemma_insert_keeps_order(s: Seq<NicProbe>, x: NicProbe, pos: int)
    requires
        in_name_order(s),
        0 <= pos <= s.len(),
        forall|i: int|
            0 <= i < pos ==> !text::not_after(name_bytes(x), name_bytes(#[trigger] s[i])),
        pos < s.len() ==> text::not_after(name_bytes(x), name_bytes(s[pos])),
    ensures
        in_name_order(s.insert(pos, x)),
        forall|name: Seq<char>|
            #[trigger] named(s.insert(pos, x), name) == (if x.name@ == name {
                seq![x] + named(s, name)
            } else {
                named(s, name)
            }),
{
    let t = s.insert(pos, x);
    assert forall|i: int, j: int| 0 <= i < j < t.len() implies text::not_after(
        name_bytes(#[trigger] t[i]),
        name_bytes(#[trigger] t[j]),
    ) by {
        if j == pos {
            assert(t[i] == s[i]);
            text::lemma_not_after_total(name_bytes(x), name_bytes(s[i]));
        } else if i == pos {
            assert(t[j] == s[j - 1]);
            if j - 1 > pos {
                assert(text::not_after(name_bytes(s[pos]), name_bytes(s[j - 1])));
                text::lemma_not_after_transitive(
                    name_bytes(x),
                    name_bytes(s[pos]),
                    name_bytes(s[j - 1]),
                );
            }
        } else {
            let a = if i < pos {
                i
            } else {
                i - 1
            };
            let b = if j < pos {
                j
            } else {
                j - 1
            };
            assert(t[i] == s[a]);
            assert(t[j] == s[b]);
        }
    }
    assert forall|name: Seq<char>| #[trigger] named(t, name) == (if x.name@ == name {
        seq![x] + named(s, name)
    } else {
        named(s, name)
    }) by {
        let before = s.take(pos);
        let after = s.skip(pos);
        assert(t == before + (seq![x] + after));
        assert(s == before + after);
        lemma_named_concat(before, seq![x] + after, name);
        lemma_named_concat(seq![x], after, name);
        lemma_named_concat(before, after, name);
        assert(seq![x].drop_last() == Seq::<NicProbe>::empty());
        assert(seq![x].last() == x);
        assert(named(Seq::<NicProbe>::empty(), name) == Seq::<NicProbe>::empty());
        if x.name@ == name {
            lemma_reflexive(name_bytes(x));
            assert forall|i: int| 0 <= i < before.len() implies (#[trigger] before[i]).name@
                != name by {
                assert(before[i] == s[i]);
            }
            lemma_none_named(before, name);
            assert(named(seq![x], name) == seq![x]);
            assert(named(t, name) == seq![x] + named(s, name));
        } else {
            assert(named(seq![x], name) == Seq::<NicProbe>::empty());
            assert(named(t, name) == named(s, name));
        }
    }
}

/// Sorts interfaces by name; those with the same name keep their order.
pub fn sort_by_name(nics: Vec<NicProbe>) -> (r: Vec<NicProbe>)
    ensures
        in_name_order(r@),
        same_interfaces(r@, nics@),
        r@.len() == nics@.len(),
{
    let ghost all = nics@;
    let mut rest = nics;
    let mut out: Vec<NicProbe> = Vec::new();
    proof {
        assert forall|name: Seq<char>| #[trigger] named(rest@, name) + named(out@, name) == named(
            all,
            name,
        ) by {
            assert(named(rest@, name) + Seq::<NicProbe>::empty() == named(rest@, name));
        }
    }
    while rest.len() > 0
        invariant
            in_name_order(out@),
            rest@.len() + out@.len() == all.len(),
            forall|name: Seq<char>|
                #[trigger] named(rest@, name) + named(out@, name) == named(all, name),
        decreases rest@.len(),
    {
        let ghost rest_before = rest@;
        let ghost out_before = out@;
        if let Some(x) = rest.pop() {
            let mut pos: usize = 0;
            while pos < out.len() && !precedes_or_equals(
                x.name.as_str().as_bytes(),
                out[pos].name.as_str().as_bytes(),
            )
                invariant
                    pos <= out@.len(),
                    forall|i: int|
                        0 <= i < pos ==> !text::not_after(
                            name_bytes(x),
                            name_bytes(#[trigger] out@[i]),
                        ),
                decreases out@.len() - pos,
            {
                pos += 1;
            }
            proof {
                lemma_insert_keeps_order(out@, x, pos as int);
            }
            out.insert(pos, x);
            proof {
                assert forall|name: Seq<char>| #[trigger]
                    named(rest@, name) + named(out@, name) == named(all, name) by {
                    assert(named(rest_before, name) + named(out_before, name) == named(all, name));
                    assert(rest_before.drop_last() == rest@);
                    assert(rest_before.last() == x);
                    if x.name@ == name {
                        assert(named(rest@, name) + (seq![x] + named(out_before, name)) == named(
                            rest@,
                            name,
                        ).push(x) + named(out_before, name));
                    }
                }
            }
        }
    }
    proof {
        assert forall|name: Seq<char>| #[trigger] named(out@, name) == named(all, name) by {
            assert(named(rest@, name) == Seq::<NicProbe>::empty());
            assert(named(rest@, name) + named(out@, name) == named(out@, name));
        }
    }
    out
}

// -------------------------------------------------------------------------------- reports

/// What a Linux system shows of itself.
#[derive(Clone, Debug)]
pub struct LinuxProbeReadings {
    /// The interfaces, in the order of the directory.
    pub nics: Vec<RawNic>,
    /// Why entries of the directory were skipped.
    pub skipped: Vec<String>,
    /// The contents of `/proc/meminfo`, or why there are none.
    pub meminfo: Option<String>,
    /// Why `/proc/meminfo` could not be read.
    pub meminfo_error: String,
    /// The entries of the node directory.
    pub nodes: Option<Vec<String>>,
}

/// What was found out of interfaces, nodes and huge pages.
#[derive(Clone, Debug)]
pub struct Findings {
    /// The interfaces.
    pub nics: Vec<NicProbe>,
    /// The number of NUMA nodes.
    pub numa_nodes: Option<u32>,
    /// The number of huge pages.
    pub huge_pages_total: Option<u64>,
    /// The number of free huge pages.
    pub huge_pages_free: Option<u64>,
    /// The size of a huge page.
    pub huge_page_size_kib: Option<u64>,
    /// What could not be found out.
    pub warnings: Vec<String>,
}

/// Whether an optional number is the one after a key in the memory information.
pub open spec fn is_meminfo(n: Option<u64>, contents: Seq<char>, key: Seq<char>) -> bool {
    match n {
        Some(v) => environment::number_after(contents, key) == Some(v as nat),
        None => environment::number_after(contents, key) is None,
    }
}

/// The warnings of reading a Linux system: one for each skipped entry, and one where the
/// memory information is missing.
pub open spec fn linux_warnings(d: LinuxProbeReadings) -> Seq<Seq<char>> {
    let skipped = Seq::new(
        d.skipped@.len(),
        |i: int| "Network interface entry was skipped: "@ + d.skipped@[i]@,
    );
    if d.meminfo is None {
        skipped.push("Huge page information is unavailable: "@ + d.meminfo_error@)
    } else {
        skipped
    }
}

/// The memory information; empty where there is none.
pub open spec fn meminfo_text(d: LinuxProbeReadings) -> Seq<char> {
    match d.meminfo {
        Some(t) => t@,
        None => ""@,
    }
}

/// Reads what a Linux system shows of itself.
pub fn probe_linux(d: LinuxProbeReadings) -> (r: Findings)
    ensures
        in_name_order(r.nics@),
        r.nics@.len() == d.nics@.len(),
        exists|nics: Seq<NicProbe>|
            #[trigger] same_interfaces(r.nics@, nics) && describes_all(nics, d.nics@),
        r.numa_nodes == (match d.nodes {
            Some(names) => environment::fitting(environment::count_numbered(names@, "node"@)),
            None => None,
        }),
        is_meminfo(r.huge_pages_total, meminfo_text(d), "HugePages_Total:"@),
        is_meminfo(r.huge_pages_free, meminfo_text(d), "HugePages_Free:"@),
        is_meminfo(r.huge_page_size_kib, meminfo_text(d), "Hugepagesize:"@),
        text::texts(r.warnings@) == linux_warnings(d),
{
    let ghost all = d;
    let mut warnings: Vec<String> = Vec::new();
    let mut i: usize = 0;
    while i < d.skipped.len()
        invariant
            i <= d.skipped@.len(),
            warnings@.len() == i,
            forall|j: int|
                0 <= j < i ==> (#[trigger] warnings@[j])@ == "Network interface entry was skipped: "@
                    + d.skipped@[j]@,
        decreases d.skipped@.len() - i,
    {
        let mut message = "Network interface entry was skipped: ".to_owned();
        message.append(d.skipped[i].as_str());
        warnings.push(message);
        i += 1;
    }
    let meminfo: String = match &d.meminfo {
        Some(t) => t.as_str().to_owned(),
        None => {
            let mut message = "Huge page information is unavailable: ".to_owned();
            message.append(d.meminfo_error.as_str());
            warnings.push(message);
            "".to_owned()
        },
    };
    proof {
        assert(text::texts(warnings@) =~= linux_warnings(d));
    }
    let numa_nodes: Option<u32> = match &d.nodes {
        Some(names) => numbered_entries(names.as_slice(), "node"),
        None => None,
    };
    let huge_pages_total = meminfo_value(meminfo.as_str(), "HugePages_Total:");
    let huge_pages_free = meminfo_value(meminfo.as_str(), "HugePages_Free:");
    let huge_page_size_kib = meminfo_value(meminfo.as_str(), "Hugepagesize:");
    let mut raw = d.nics;
    let mut reversed: Vec<NicProbe> = Vec::new();
    while raw.len() > 0
        invariant
            raw@.len() + reversed@.len() == all.nics@.len(),
            raw@ == all.nics@.take(raw@.len() as int),
            forall|j: int|
                0 <= j < reversed@.len() ==> describes(
                    #[trigger] reversed@[j],
                    all.nics@[all.nics@.len() - 1 - j],
                ),
        decreases raw@.len(),
    {
        if let Some(nic) = raw.pop() {
            reversed.push(probe_linux_nic(nic));
        }
    }
    let mut nics: Vec<NicProbe> = Vec::new();
    while reversed.len() > 0
        invariant
            reversed@.len() + nics@.len() == all.nics@.len(),
            forall|j: int|
                0 <= j < reversed@.len() ==> describes(
                    #[trigger] reversed@[j],
                    all.nics@[all.nics@.len() - 1 - j],
                ),
            forall|j: int|
                0 <= j < nics@.len() ==> describes(#[trigger] nics@[j], all.nics@[j]),
        decreases reversed@.len(),
    {
        if let Some(nic) = reversed.pop() {
            nics.push(nic);
        }
    }
    let ghost found = nics@;
    let sorted = sort_by_name(nics);
    proof {
        assert(describes_all(found, d.nics@));
        assert(same_interfaces(sorted@, found));
    }
    Findings {
        nics: sorted,
        numa_nodes,
        huge_pages_total,
        huge_pages_free,
        huge_page_size_kib,
        warnings,
    }
}

/// What is found out on a platform of which only the interfaces are known.
pub fn probe_elsewhere(nics: Vec<NicProbe>, warnings: Vec<String>) -> (r: Findings)
    ensures
        r.nics == nics,
        r.numa_nodes is None,
        r.huge_pages_total is None,
        r.huge_pages_free is None,
        r.huge_page_size_kib is None,
        text::texts(r.warnings@) == text::texts(warnings@).push(
            "Detailed DPDK NUMA/Huge Page probing is currently available on Linux only"@,
        ),
{
    let mut all = warnings;
    all.push(
        "Detailed DPDK NUMA/Huge Page probing is currently available on Linux only".to_owned(),
    );
    proof {
        assert(text::texts(all@) =~= text::texts(warnings@).push(
            "Detailed DPDK NUMA/Huge Page probing is currently available on Linux only"@,
        ));
    }
    Findings {
        nics,
        numa_nodes: None,
        huge_pages_total: None,
        huge_pages_free: None,
        huge_page_size_kib: None,
        warnings: all,
    }
}

/// Whether the kernel surface of `AF_XDP` is there: on Linux, with the BPF file system and an
/// interface.
pub open spec fn has_af_xdp_surface(platform: Platform, bpf: bool, nics: nat) -> bool {
    platform == Platform::Linux && bpf && nics > 0
}

/// Puts a report together.
pub fn assemble_report(
    platform: Platform,
    logical_cpus: usize,
    findings: Findings,
    bpf_file_system: bool,
    dpdk_runtime: bool,
) -> (r: ProbeReport)
    ensures
        r.schema_version@ == "1.0"@,
        r.platform == platform,
        r.logical_cpus == logical_cpus,
        r.numa_nodes == findings.numa_nodes,
        r.huge_pages_total == findings.huge_pages_total,
        r.huge_pages_free == findings.huge_pages_free,
        r.huge_page_size_kib == findings.huge_page_size_kib,
        r.nics == findings.nics,
        r.dpdk_capable == dpdk_runtime,
        r.af_xdp_capable == has_af_xdp_surface(platform, bpf_file_system, findings.nics@.len()),
        !r.af_xdp_zero_copy_capable,
        text::texts(r.warnings@) == (if r.af_xdp_capable {
            text::texts(findings.warnings@).push(
                "AF_XDP core/BPF surface detected; zero-copy driver support remains unverified"@,
            )
        } else {
            text::texts(findings.warnings@)
        }),
{
    let af_xdp_capable: bool = platform == Platform::Linux && bpf_file_system
        && findings.nics.len() > 0;
    let ghost before = text::texts(findings.warnings@);
    let mut warnings = findings.warnings;
    if af_xdp_capable {
        warnings.push(
            "AF_XDP core/BPF surface detected; zero-copy driver support remains unverified"
                .to_owned(),
        );
        proof {
            assert(text::texts(warnings@) =~= before.push(
                "AF_XDP core/BPF surface detected; zero-copy driver support remains unverified"@,
            ));
        }
    }
    ProbeReport {
        schema_version: "1.0",
        platform,
        logical_cpus,
        numa_nodes: findings.numa_nodes,
        huge_pages_total: findings.huge_pages_total,
        huge_pages_free: findings.huge_pages_free,
        huge_page_size_kib: findings.huge_page_size_kib,
        nics: findings.nics,
        dpdk_capable: dpdk_runtime,
        af_xdp_capable,
        af_xdp_zero_copy_capable: false,
        warnings,
    }
}

} // verus!
