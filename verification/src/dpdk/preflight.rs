//! Whether a session can run on the hardware that was probed.

use crate::domain::{NicProbe, Platform, ProbeReport};
use crate::text::same;
use vstd::prelude::*;

verus! {

/// How serious the outcome of a check is.
#[derive(Clone, Copy, Debug, PartialEq, Eq, Structural)]
pub enum PreflightSeverity {
    /// The condition is met.
    Pass,
    /// A session may run, but not be certified.
    Warn,
    /// The session must not run.
    Fail,
}

/// The outcome of one check.
#[derive(Clone, Debug, PartialEq, Eq)]
pub struct PreflightCheck {
    /// The stable identifier.
    pub id: &'static str,
    /// The outcome.
    pub severity: PreflightSeverity,
    /// The reason, for people.
    pub message: String,
}

/// The content of a check.
#[verifier::ext_equal]
pub struct Finding {
    /// The identifier.
    pub id: Seq<char>,
    /// The outcome.
    pub severity: PreflightSeverity,
    /// The reason.
    pub message: Seq<char>,
}

impl View for PreflightCheck {
    type V = Finding;

    open spec fn view(&self) -> Finding {
        Finding { id: self.id@, severity: self.severity, message: self.message@ }
    }
}

/// What a DPDK session needs.
#[derive(Clone, Debug, PartialEq, Eq)]
pub struct DpdkPreflightRequest {
    /// The PCI address of the target interface.
    pub pci_address: String,
    /// The PCI address of the management interface, which must not be the target.
    pub management_pci_address: Option<String>,
    /// The receive queues.
    pub rx_queues: u32,
    /// The transmit queues.
    pub tx_queues: u32,
    /// The NUMA node of the workers.
    pub worker_numa_node: Option<i32>,
    /// The processors of the workers.
    pub worker_cpus: Vec<u32>,
    /// The free huge pages.
    pub required_huge_pages: u64,
    /// Whether the run is to be certified.
    pub certification_mode: bool,
}

/// The outcome of a DPDK preflight.
#[derive(Clone, Debug, PartialEq, Eq)]
pub struct DpdkPreflightReport {
    /// Whether a session may start.
    pub can_run: bool,
    /// Whether it may be certified.
    pub certifiable: bool,
    /// All checks, also those that passed.
    pub checks: Vec<PreflightCheck>,
}

/// What an `AF_XDP` session needs.
#[derive(Clone, Debug, PartialEq, Eq)]
pub struct AfXdpPreflightRequest {
    /// The name of the interface.
    pub interface_name: String,
    /// The queue to bind.
    pub queue_id: u32,
    /// Whether zero copy is required.
    pub require_zero_copy: bool,
}

/// The outcome of an `AF_XDP` preflight.
#[derive(Clone, Debug, PartialEq, Eq)]
pub struct AfXdpPreflightReport {
    /// Whether the backend may be set up.
    pub can_run: bool,
    /// Whether zero copy is proven.
    pub zero_copy_ready: bool,
    /// All checks.
    pub checks: Vec<PreflightCheck>,
}

/// The contents of checks.
pub open spec fn findings(checks: Seq<PreflightCheck>) -> Seq<Finding> {
    Seq::new(checks.len(), |i: int| checks[i]@)
}

/// Whether a check has a given outcome.
pub open spec fn any_severity(f: Seq<Finding>, severity: PreflightSeverity) -> bool {
    exists|i: int| 0 <= i < f.len() && (#[trigger] f[i]).severity == severity
}

/// The finding of a condition: its one message where it holds, else the other message with a
/// given severity.
pub open spec fn gate(
    id: Seq<char>,
    holds: bool,
    otherwise: PreflightSeverity,
    yes: Seq<char>,
    no: Seq<char>,
) -> Finding {
    if holds {
        Finding { id, severity: PreflightSeverity::Pass, message: yes }
    } else {
        Finding { id, severity: otherwise, message: no }
    }
}

fn push_gate(
    checks: &mut Vec<PreflightCheck>,
    id: &'static str,
    holds: bool,
    otherwise: PreflightSeverity,
    yes: &str,
    no: &str,
)
    ensures
        findings(final(checks)@) == findings(old(checks)@).push(
            gate(id@, holds, otherwise, yes@, no@),
        ),
{
    let ghost before = findings(checks@);
    if holds {
        checks.push(
            PreflightCheck { id, severity: PreflightSeverity::Pass, message: yes.to_owned() },
        );
    } else {
        checks.push(PreflightCheck { id, severity: otherwise, message: no.to_owned() });
    }
    proof {
        assert(findings(checks@) == before.push(gate(id@, holds, otherwise, yes@, no@)));
    }
}

fn any_with(checks: &[PreflightCheck], severity: PreflightSeverity) -> (r: bool)
    ensures
        r == any_severity(findings(checks@), severity),
{
    let mut i: usize = 0;
    while i < checks.len()
        invariant
            i <= checks@.len(),
            forall|j: int|
                0 <= j < i ==> (#[trigger] findings(checks@)[j]).severity != severity,
        decreases checks@.len() - i,
    {
        proof {
            assert(findings(checks@)[i as int] == checks@[i as int]@);
        }
        if checks[i].severity == severity {
            return true;
        }
        i += 1;
    }
    false
}

// ----------------------------------------------------------------------------------- AF_XDP

/// The first interface with a given name.
pub open spec fn nic_named(nics: Seq<NicProbe>, name: Seq<char>) -> Option<NicProbe>
    decreases nics.len(),
{
    if nics.len() == 0 {
        None
    } else if nics[0].name@ == name {
        Some(nics[0])
    } else {
        nic_named(nics.drop_first(), name)
    }
}

/// Returns the first interface with a given name.
pub fn find_nic_named<'a>(nics: &'a [NicProbe], name: &str) -> (r: Option<&'a NicProbe>)
    ensures
        match r {
            Some(nic) => nic_named(nics@, name@) == Some(*nic),
            None => nic_named(nics@, name@) is None,
        },
{
    let mut i: usize = 0;
    proof {
        assert(nics@.skip(0) == nics@);
    }
    while i < nics.len()
        invariant
            i <= nics@.len(),
            nic_named(nics@, name@) == nic_named(nics@.skip(i as int), name@),
        decreases nics@.len() - i,
    {
        proof {
            assert(nics@.skip(i as int)[0] == nics@[i as int]);
            assert(nics@.skip(i as int).drop_first() == nics@.skip(i + 1));
        }
        if same(nics[i].name.as_str(), name) {
            return Some(&nics[i]);
        }
        i += 1;
    }
    None
}

/// Whether an interface has a queue in both directions.
pub open spec fn has_queue(nic: Option<NicProbe>, queue: u32) -> bool {
    match nic {
        Some(n) => match (n.rx_queues, n.tx_queues) {
            (Some(rx), Some(tx)) => queue < rx && queue < tx,
            _ => false,
        },
        None => false,
    }
}

/// The checks of an `AF_XDP` session: platform, kernel interface, network interface, queue
/// and zero copy.
pub open spec fn af_xdp_findings(report: ProbeReport, request: AfXdpPreflightRequest) -> Seq<
    Finding,
> {
    let nic = nic_named(report.nics@, request.interface_name@);
    seq![
        gate(
            "AF_XDP_PLATFORM"@,
            report.platform is Linux,
            PreflightSeverity::Fail,
            "AF_XDP requires Linux"@,
            "AF_XDP is unavailable on this platform"@,
        ),
        gate(
            "AF_XDP_SURFACE"@,
            report.af_xdp_capable,
            PreflightSeverity::Fail,
            "Linux BPF/AF_XDP surface is available"@,
            "Linux BPF/AF_XDP surface is unavailable"@,
        ),
        gate(
            "AF_XDP_INTERFACE"@,
            nic is Some,
            PreflightSeverity::Fail,
            "target interface was discovered"@,
            "target interface was not discovered"@,
        ),
        gate(
            "AF_XDP_QUEUE"@,
            has_queue(nic, request.queue_id),
            PreflightSeverity::Fail,
            "requested AF_XDP queue is available"@,
            "requested AF_XDP queue is unavailable"@,
        ),
        if request.require_zero_copy {
            gate(
                "AF_XDP_ZERO_COPY"@,
                report.af_xdp_zero_copy_capable,
                PreflightSeverity::Fail,
                "AF_XDP zero-copy driver evidence is available"@,
                "AF_XDP zero-copy was required but not proven"@,
            )
        } else {
            gate(
                "AF_XDP_ZERO_COPY"@,
                report.af_xdp_zero_copy_capable,
                PreflightSeverity::Warn,
                "AF_XDP zero-copy driver evidence is available"@,
                "AF_XDP zero-copy is not proven; compatibility mode only"@,
            )
        },
    ]
}

/// Checks an `AF_XDP` session against a capability snapshot. Where zero copy is required but
/// not proven the session fails; it never falls back to copying.
#[must_use]
pub fn evaluate_af_xdp_preflight(
    report: &ProbeReport,
    request: &AfXdpPreflightRequest,
) -> (r: AfXdpPreflightReport)
    ensures
        findings(r.checks@) == af_xdp_findings(*report, *request),
        r.can_run == !any_severity(af_xdp_findings(*report, *request), PreflightSeverity::Fail),
        r.zero_copy_ready == report.af_xdp_zero_copy_capable,
{
    let mut checks: Vec<PreflightCheck> = Vec::new();
    proof {
        assert(findings(checks@) == Seq::<Finding>::empty());
    }
    push_gate(
        &mut checks,
        "AF_XDP_PLATFORM",
        report.platform == Platform::Linux,
        PreflightSeverity::Fail,
        "AF_XDP requires Linux",
        "AF_XDP is unavailable on this platform",
    );
    push_gate(
        &mut checks,
        "AF_XDP_SURFACE",
        report.af_xdp_capable,
        PreflightSeverity::Fail,
        "Linux BPF/AF_XDP surface is available",
        "Linux BPF/AF_XDP surface is unavailable",
    );
    let nic = find_nic_named(report.nics.as_slice(), request.interface_name.as_str());
    push_gate(
        &mut checks,
        "AF_XDP_INTERFACE",
        nic.is_some(),
        PreflightSeverity::Fail,
        "target interface was discovered",
        "target interface was not discovered",
    );
    let queue_ok = match nic {
        Some(n) => match (n.rx_queues, n.tx_queues) {
            (Some(rx), Some(tx)) => request.queue_id < rx && request.queue_id < tx,
            _ => false,
        },
        None => false,
    };
    push_gate(
        &mut checks,
        "AF_XDP_QUEUE",
        queue_ok,
        PreflightSeverity::Fail,
        "requested AF_XDP queue is available",
        "requested AF_XDP queue is unavailable",
    );
    if request.require_zero_copy {
        push_gate(
            &mut checks,
            "AF_XDP_ZERO_COPY",
            report.af_xdp_zero_copy_capable,
            PreflightSeverity::Fail,
            "AF_XDP zero-copy driver evidence is available",
            "AF_XDP zero-copy was required but not proven",
        );
    } else {
        push_gate(
            &mut checks,
            "AF_XDP_ZERO_COPY",
            report.af_xdp_zero_copy_capable,
            PreflightSeverity::Warn,
            "AF_XDP zero-copy driver evidence is available",
            "AF_XDP zero-copy is not proven; compatibility mode only",
        );
    }
    proof {
        assert(findings(checks@) =~= af_xdp_findings(*report, *request));
    }
    let can_run = !any_with(checks.as_slice(), PreflightSeverity::Fail);
    AfXdpPreflightReport { can_run, zero_copy_ready: report.af_xdp_zero_copy_capable, checks }
}

/// Required zero copy never falls back silently: without proof of it the session fails.
pub proof fn law_zero_copy_never_falls_back(report: ProbeReport, request: AfXdpPreflightRequest)
    requires
        request.require_zero_copy,
        !report.af_xdp_zero_copy_capable,
    ensures
        any_severity(af_xdp_findings(report, request), PreflightSeverity::Fail),
{
    assert(af_xdp_findings(report, request)[4].severity == PreflightSeverity::Fail);
}

proof fn lemma_nic_named(nics: Seq<NicProbe>, name: Seq<char>, at: int)
    requires
        0 <= at <= nics.len(),
        forall|k: int| 0 <= k < at ==> (#[trigger] nics[k]).name@ != name,
        at < nics.len() ==> nics[at].name@ == name,
    ensures
        nic_named(nics, name) == if at < nics.len() {
            Some(nics[at])
        } else {
            None
        },
    decreases nics.len(),
{
    if at > 0 {
        let tail = nics.drop_first();
        assert(nics[0].name@ != name);
        assert forall|k: int| 0 <= k < at - 1 implies (#[trigger] tail[k]).name@ != name by {
            assert(tail[k] == nics[k + 1]);
        }
        lemma_nic_named(tail, name, at - 1);
    }
}

/// An `AF_XDP` session can run exactly where the platform and the kernel interface are there,
/// the interface of that name has the queue in both directions, and zero copy is proven where
/// it is required. The first interface of the name counts; `at` is its place, or the number of
/// interfaces where there is none.
pub proof fn law_af_xdp_can_run(report: ProbeReport, request: AfXdpPreflightRequest, at: int)
    requires
        0 <= at <= report.nics@.len(),
        forall|k: int|
            0 <= k < at ==> (#[trigger] report.nics@[k]).name@ != request.interface_name@,
        at < report.nics@.len() ==> report.nics@[at].name@ == request.interface_name@,
    ensures
        !any_severity(af_xdp_findings(report, request), PreflightSeverity::Fail) <==> {
            &&& report.platform is Linux
            &&& report.af_xdp_capable
            &&& at < report.nics@.len()
            &&& report.nics@[at].rx_queues matches Some(rx) && request.queue_id < rx
            &&& report.nics@[at].tx_queues matches Some(tx) && request.queue_id < tx
            &&& request.require_zero_copy ==> report.af_xdp_zero_copy_capable
        },
{
    lemma_nic_named(report.nics@, request.interface_name@, at);
    let f = af_xdp_findings(report, request);
    assert(f.len() == 5);
    if !any_severity(f, PreflightSeverity::Fail) {
        assert(f[0].severity != PreflightSeverity::Fail);
        assert(f[1].severity != PreflightSeverity::Fail);
        assert(f[2].severity != PreflightSeverity::Fail);
        assert(f[3].severity != PreflightSeverity::Fail);
        assert(f[4].severity != PreflightSeverity::Fail);
    }
}

/// Each check of an `AF_XDP` session is about what it is named after.
pub proof fn law_af_xdp_checks(
    report: ProbeReport,
    request: AfXdpPreflightRequest,
    at: int,
    i: int,
)
    requires
        0 <= at <= report.nics@.len(),
        forall|k: int|
            0 <= k < at ==> (#[trigger] report.nics@[k]).name@ != request.interface_name@,
        at < report.nics@.len() ==> report.nics@[at].name@ == request.interface_name@,
        0 <= i < af_xdp_findings(report, request).len(),
    ensures
        ({
            let check = af_xdp_findings(report, request)[i];
            let there = at < report.nics@.len();
            &&& check.severity is Pass <==> (if i == 0 {
                report.platform is Linux
            } else if i == 1 {
                report.af_xdp_capable
            } else if i == 2 {
                there
            } else if i == 3 {
                there && (report.nics@[at].rx_queues matches Some(rx) && rx > request.queue_id)
                    && (report.nics@[at].tx_queues matches Some(tx) && tx > request.queue_id)
            } else {
                report.af_xdp_zero_copy_capable
            })
            &&& check.severity is Warn ==> i == 4 && !request.require_zero_copy
            &&& i == 4 && request.require_zero_copy ==> !(check.severity is Warn)
            &&& check.id == (if i == 0 {
                "AF_XDP_PLATFORM"@
            } else if i == 1 {
                "AF_XDP_SURFACE"@
            } else if i == 2 {
                "AF_XDP_INTERFACE"@
            } else if i == 3 {
                "AF_XDP_QUEUE"@
            } else {
                "AF_XDP_ZERO_COPY"@
            })
        }),
{
    lemma_nic_named(report.nics@, request.interface_name@, at);
}

// ------------------------------------------------------------------------------------- DPDK

/// The first interface with a given PCI address.
pub open spec fn nic_at(nics: Seq<NicProbe>, pci: Seq<char>) -> Option<NicProbe>
    decreases nics.len(),
{
    if nics.len() == 0 {
        None
    } else if nics[0].pci_address matches Some(a) && a@ == pci {
        Some(nics[0])
    } else {
        nic_at(nics.drop_first(), pci)
    }
}

fn find_nic_at<'a>(nics: &'a [NicProbe], pci: &str) -> (r: Option<&'a NicProbe>)
    ensures
        match r {
            Some(nic) => nic_at(nics@, pci@) == Some(*nic),
            None => nic_at(nics@, pci@) is None,
        },
{
    let mut i: usize = 0;
    proof {
        assert(nics@.skip(0) == nics@);
    }
    while i < nics.len()
        invariant
            i <= nics@.len(),
            nic_at(nics@, pci@) == nic_at(nics@.skip(i as int), pci@),
        decreases nics@.len() - i,
    {
        proof {
            assert(nics@.skip(i as int)[0] == nics@[i as int]);
            assert(nics@.skip(i as int).drop_first() == nics@.skip(i + 1));
        }
        match &nics[i].pci_address {
            Some(a) => {
                if same(a.as_str(), pci) {
                    return Some(&nics[i]);
                }
            },
            None => {},
        }
        i += 1;
    }
    None
}

/// What follows from a condition that degrades a session: a run that is to be certified
/// fails, any other only warns.
pub open spec fn degraded(certification_mode: bool) -> PreflightSeverity {
    if certification_mode {
        PreflightSeverity::Fail
    } else {
        PreflightSeverity::Warn
    }
}

/// Whether an interface has the requested queues, of which there is at least one each way.
pub open spec fn queues_available(nic: NicProbe, request: DpdkPreflightRequest) -> bool {
    &&& nic.rx_queues matches Some(n) && n >= request.rx_queues
    &&& nic.tx_queues matches Some(n) && n >= request.tx_queues
    &&& request.rx_queues > 0
    &&& request.tx_queues > 0
}

/// Whether a driver lets user space drive the interface.
pub open spec fn userspace_driver(driver: Option<String>) -> bool {
    driver matches Some(d) && (d@ == "vfio-pci"@ || d@ == "uio_pci_generic"@ || d@ == "igb_uio"@)
}

/// Whether the workers are near the interface, as far as both places are known.
pub open spec fn numa_compatible(worker: Option<i32>, device: Option<i32>) -> bool {
    match (worker, device) {
        (Some(w), Some(d)) => w == d || d < 0,
        _ => true,
    }
}

/// Whether the processors are some, all different and all present.
pub open spec fn valid_cpus(cpus: Seq<u32>, logical_cpus: usize) -> bool {
    &&& cpus.len() > 0
    &&& cpus.no_duplicates()
    &&& forall|i: int| 0 <= i < cpus.len() ==> (#[trigger] cpus[i]) < logical_cpus
}

/// The checks that need the target interface: queues, driver and NUMA locality.
pub open spec fn nic_findings(nic: NicProbe, request: DpdkPreflightRequest) -> Seq<Finding> {
    seq![
        gate(
            "QUEUE_CAPACITY"@,
            queues_available(nic, request),
            PreflightSeverity::Fail,
            "requested RX/TX queues are available"@,
            "requested RX/TX queues exceed detected capacity or are zero"@,
        ),
        gate(
            "DRIVER_STATE"@,
            userspace_driver(nic.driver),
            degraded(request.certification_mode),
            "NIC is bound to a supported userspace driver"@,
            "NIC is not bound to a known DPDK userspace driver"@,
        ),
        gate(
            "NUMA_LOCALITY"@,
            numa_compatible(request.worker_numa_node, nic.numa_node),
            degraded(request.certification_mode),
            "worker and NIC NUMA locality is compatible"@,
            "worker and NIC are on different NUMA nodes"@,
        ),
    ]
}

/// The check that the target is not the management interface, where that one is known.
pub open spec fn management_findings(request: DpdkPreflightRequest) -> Seq<Finding> {
    match request.management_pci_address {
        Some(management) => seq![
            gate(
                "MANAGEMENT_NIC_PROTECTION"@,
                management@ != request.pci_address@,
                PreflightSeverity::Fail,
                "target NIC is distinct from the management NIC"@,
                "target NIC carries the management control plane"@,
            ),
        ],
        None => Seq::empty(),
    }
}

/// The checks of a DPDK session, in order.
pub open spec fn dpdk_findings(report: ProbeReport, request: DpdkPreflightRequest) -> Seq<
    Finding,
> {
    let nic = nic_at(report.nics@, request.pci_address@);
    let first = seq![
        gate(
            "DPDK_RUNTIME"@,
            report.dpdk_capable,
            PreflightSeverity::Fail,
            "DPDK runtime is available"@,
            "DPDK runtime is unavailable"@,
        ),
        gate(
            "PCI_DEVICE"@,
            nic is Some,
            PreflightSeverity::Fail,
            "PCI device was discovered"@,
            "PCI device was not discovered"@,
        ),
    ];
    let of_nic = match nic {
        Some(n) => nic_findings(n, request),
        None => Seq::empty(),
    };
    let last = seq![
        gate(
            "HUGE_PAGES"@,
            (report.huge_pages_free matches Some(n) && n >= request.required_huge_pages)
                && request.required_huge_pages > 0,
            degraded(request.certification_mode),
            "required Huge Pages are available"@,
            "required Huge Pages are missing"@,
        ),
        gate(
            "CPU_AFFINITY"@,
            valid_cpus(request.worker_cpus@, report.logical_cpus),
            PreflightSeverity::Fail,
            "worker CPU mapping is valid"@,
            "worker CPU mapping is empty, duplicated, or out of range"@,
        ),
    ];
    first + management_findings(request) + of_nic + last
}

fn degraded_severity(certification_mode: bool) -> (r: PreflightSeverity)
    ensures
        r == degraded(certification_mode),
{
    if certification_mode {
        PreflightSeverity::Fail
    } else {
        PreflightSeverity::Warn
    }
}

fn cpus_valid(cpus: &[u32], logical_cpus: usize) -> (r: bool)
    ensures
        r == valid_cpus(cpus@, logical_cpus),
{
    if cpus.len() == 0 {
        return false;
    }
    let mut i: usize = 0;
    while i < cpus.len()
        invariant
            i <= cpus@.len(),
            forall|a: int, b: int| 0 <= a < b < i ==> cpus@[a] != cpus@[b],
            forall|a: int| 0 <= a < i ==> (#[trigger] cpus@[a]) < logical_cpus,
        decreases cpus@.len() - i,
    {
        if cpus[i] as usize >= logical_cpus {
            return false;
        }
        let mut j: usize = 0;
        while j < i
            invariant
                j <= i < cpus@.len(),
                forall|a: int| 0 <= a < j ==> cpus@[a] != cpus@[i as int],
            decreases i - j,
        {
            if cpus[j] == cpus[i] {
                return false;
            }
            j += 1;
        }
        i += 1;
    }
    true
}

fn push_nic_gates(checks: &mut Vec<PreflightCheck>, nic: &NicProbe, request: &DpdkPreflightRequest)
    ensures
        findings(final(checks)@) == findings(old(checks)@) + nic_findings(*nic, *request),
{
    let rx_ok = match nic.rx_queues {
        Some(n) => n >= request.rx_queues,
        None => false,
    };
    let tx_ok = match nic.tx_queues {
        Some(n) => n >= request.tx_queues,
        None => false,
    };
    push_gate(
        checks,
        "QUEUE_CAPACITY",
        rx_ok && tx_ok && request.rx_queues > 0 && request.tx_queues > 0,
        PreflightSeverity::Fail,
        "requested RX/TX queues are available",
        "requested RX/TX queues exceed detected capacity or are zero",
    );
    let driver_ready = match &nic.driver {
        Some(d) => same(d.as_str(), "vfio-pci") || same(d.as_str(), "uio_pci_generic") || same(
            d.as_str(),
            "igb_uio",
        ),
        None => false,
    };
    push_gate(
        checks,
        "DRIVER_STATE",
        driver_ready,
        degraded_severity(request.certification_mode),
        "NIC is bound to a supported userspace driver",
        "NIC is not bound to a known DPDK userspace driver",
    );
    let numa_match = match (request.worker_numa_node, nic.numa_node) {
        (Some(worker), Some(device)) => worker == device || device < 0,
        _ => true,
    };
    push_gate(
        checks,
        "NUMA_LOCALITY",
        numa_match,
        degraded_severity(request.certification_mode),
        "worker and NIC NUMA locality is compatible",
        "worker and NIC are on different NUMA nodes",
    );
    proof {
        assert(findings(checks@) =~= findings(old(checks)@) + nic_findings(*nic, *request));
    }
}

/// Checks a DPDK session against a capability snapshot.
#[must_use]
pub fn evaluate_preflight(report: &ProbeReport, request: &DpdkPreflightRequest) -> (r:
    DpdkPreflightReport)
    ensures
        findings(r.checks@) == dpdk_findings(*report, *request),
        r.can_run == !any_severity(dpdk_findings(*report, *request), PreflightSeverity::Fail),
        r.certifiable == (r.can_run && !any_severity(
            dpdk_findings(*report, *request),
            PreflightSeverity::Warn,
        )),
{
    let mut checks: Vec<PreflightCheck> = Vec::new();
    proof {
        assert(findings(checks@) == Seq::<Finding>::empty());
    }
    push_gate(
        &mut checks,
        "DPDK_RUNTIME",
        report.dpdk_capable,
        PreflightSeverity::Fail,
        "DPDK runtime is available",
        "DPDK runtime is unavailable",
    );
    let nic = find_nic_at(report.nics.as_slice(), request.pci_address.as_str());
    push_gate(
        &mut checks,
        "PCI_DEVICE",
        nic.is_some(),
        PreflightSeverity::Fail,
        "PCI device was discovered",
        "PCI device was not discovered",
    );
    let ghost two = findings(checks@);
    match &request.management_pci_address {
        Some(management) => {
            push_gate(
                &mut checks,
                "MANAGEMENT_NIC_PROTECTION",
                !same(management.as_str(), request.pci_address.as_str()),
                PreflightSeverity::Fail,
                "target NIC is distinct from the management NIC",
                "target NIC carries the management control plane",
            );
        },
        None => {},
    }
    proof {
        assert(findings(checks@) =~= two + management_findings(*request));
    }
    match nic {
        Some(n) => {
            push_nic_gates(&mut checks, n, request);
        },
        None => {},
    }
    let pages_ok = match report.huge_pages_free {
        Some(n) => n >= request.required_huge_pages,
        None => false,
    };
    push_gate(
        &mut checks,
        "HUGE_PAGES",
        pages_ok && request.required_huge_pages > 0,
        degraded_severity(request.certification_mode),
        "required Huge Pages are available",
        "required Huge Pages are missing",
    );
    push_gate(
        &mut checks,
        "CPU_AFFINITY",
        cpus_valid(request.worker_cpus.as_slice(), report.logical_cpus),
        PreflightSeverity::Fail,
        "worker CPU mapping is valid",
        "worker CPU mapping is empty, duplicated, or out of range",
    );
    proof {
        assert(findings(checks@) =~= dpdk_findings(*report, *request));
    }
    let has_failure = any_with(checks.as_slice(), PreflightSeverity::Fail);
    let has_warning = any_with(checks.as_slice(), PreflightSeverity::Warn);
    DpdkPreflightReport {
        can_run: !has_failure,
        certifiable: !has_failure && !has_warning,
        checks,
    }
}

/// A run that is to be certified never has mere warnings: whatever would degrade it fails.
pub proof fn law_certification_does_not_warn(report: ProbeReport, request: DpdkPreflightRequest)
    requires
        request.certification_mode,
    ensures
        !any_severity(dpdk_findings(report, request), PreflightSeverity::Warn),
{
    let f = dpdk_findings(report, request);
    assert forall|i: int| 0 <= i < f.len() implies (#[trigger] f[i]).severity
        != PreflightSeverity::Warn by {
        lemma_dpdk_finding(report, request, i);
    }
}

/// Each check of a DPDK session passes, fails or degrades.
proof fn lemma_dpdk_finding(report: ProbeReport, request: DpdkPreflightRequest, i: int)
    requires
        0 <= i < dpdk_findings(report, request).len(),
    ensures
        ({
            let s = dpdk_findings(report, request)[i].severity;
            s is Pass || s is Fail || s == degraded(request.certification_mode)
        }),
{
}

/// The management interface is never taken: where the target is the management interface the
/// session fails.
pub proof fn law_management_nic_is_protected(report: ProbeReport, request: DpdkPreflightRequest)
    requires
        request.management_pci_address matches Some(m) && m@ == request.pci_address@,
    ensures
        any_severity(dpdk_findings(report, request), PreflightSeverity::Fail),
{
    let f = dpdk_findings(report, request);
    assert(f[2] == management_findings(request)[0]);
    assert(f[2].severity == PreflightSeverity::Fail);
}

/// A session whose interface was not found, or whose processors are not valid, fails.
pub proof fn law_missing_hardware_fails(report: ProbeReport, request: DpdkPreflightRequest)
    requires
        nic_at(report.nics@, request.pci_address@) is None || !valid_cpus(
            request.worker_cpus@,
            report.logical_cpus,
        ),
    ensures
        any_severity(dpdk_findings(report, request), PreflightSeverity::Fail),
{
    let f = dpdk_findings(report, request);
    if nic_at(report.nics@, request.pci_address@) is None {
        assert(f[1].severity == PreflightSeverity::Fail);
    } else {
        assert(f[f.len() - 1].severity == PreflightSeverity::Fail);
    }
}

proof fn lemma_nic_at(nics: Seq<NicProbe>, pci: Seq<char>, at: int)
    requires
        0 <= at <= nics.len(),
        forall|k: int|
            0 <= k < at ==> !((#[trigger] nics[k]).pci_address matches Some(a) && a@ == pci),
        at < nics.len() ==> (nics[at].pci_address matches Some(a) && a@ == pci),
    ensures
        nic_at(nics, pci) == if at < nics.len() {
            Some(nics[at])
        } else {
            None
        },
    decreases nics.len(),
{
    if at > 0 {
        let tail = nics.drop_first();
        assert(!(nics[0].pci_address matches Some(a) && a@ == pci));
        assert forall|k: int| 0 <= k < at - 1 implies !((#[trigger] tail[k]).pci_address matches Some(
            a,
        ) && a@ == pci) by {
            assert(tail[k] == nics[k + 1]);
        }
        lemma_nic_at(tail, pci, at - 1);
    }
}

/// A DPDK session can run exactly where it has all that it needs: the runtime; an interface at
/// the address, which is not the one that the machine is managed through; as many queues on it
/// as are asked for, and at least one each way; and processors that are there, each of them
/// once. Where it is to be certified it needs a driver of user space, workers near the interface
/// as far as both places are known, and huge pages too. The first interface at the address
/// counts; `at` is its place, or the number of interfaces where there is none.
pub proof fn law_dpdk_can_run(report: ProbeReport, request: DpdkPreflightRequest, at: int)
    requires
        0 <= at <= report.nics@.len(),
        forall|k: int|
            0 <= k < at ==> !((#[trigger] report.nics@[k]).pci_address matches Some(a) && a@
                == request.pci_address@),
        at < report.nics@.len() ==> (report.nics@[at].pci_address matches Some(a) && a@
            == request.pci_address@),
    ensures
        !any_severity(dpdk_findings(report, request), PreflightSeverity::Fail) <==> {
            &&& report.dpdk_capable
            &&& at < report.nics@.len()
            &&& request.management_pci_address matches Some(m) ==> m@ != request.pci_address@
            &&& 0 < request.rx_queues && (report.nics@[at].rx_queues matches Some(n)
                && request.rx_queues <= n)
            &&& 0 < request.tx_queues && (report.nics@[at].tx_queues matches Some(n)
                && request.tx_queues <= n)
            &&& request.worker_cpus@.len() > 0
            &&& forall|i: int|
                0 <= i < request.worker_cpus@.len() ==> (#[trigger] request.worker_cpus@[i])
                    < report.logical_cpus
            &&& forall|i: int, j: int|
                0 <= i < j < request.worker_cpus@.len() ==> request.worker_cpus@[i]
                    != request.worker_cpus@[j]
            &&& request.certification_mode ==> (report.nics@[at].driver matches Some(d) && (d@ == "vfio-pci"@ || d@
                == "uio_pci_generic"@ || d@ == "igb_uio"@))
            &&& request.certification_mode ==> (request.worker_numa_node matches Some(worker) ==> (
            report.nics@[at].numa_node matches Some(node) ==> node < 0 || node == worker))
            &&& request.certification_mode ==> 0 < request.required_huge_pages && (report.huge_pages_free matches Some(free)
                && request.required_huge_pages <= free)
        },
{
    lemma_nic_at(report.nics@, request.pci_address@, at);
    let f = dpdk_findings(report, request);
    let m: int = if request.management_pci_address is Some {
        1
    } else {
        0
    };
    let n: int = if at < report.nics@.len() {
        3
    } else {
        0
    };
    assert(f.len() == 4 + m + n);
    assert(f[0].id == "DPDK_RUNTIME"@);
    assert(f[1].id == "PCI_DEVICE"@);
    if m == 1 {
        assert(f[2] == management_findings(request)[0]);
    }
    if n == 3 {
        assert(f[2 + m] == nic_findings(report.nics@[at], request)[0]);
        assert(f[3 + m] == nic_findings(report.nics@[at], request)[1]);
        assert(f[4 + m] == nic_findings(report.nics@[at], request)[2]);
    }
    assert(f[2 + m + n].id == "HUGE_PAGES"@);
    assert(f[3 + m + n].id == "CPU_AFFINITY"@);
    assert forall|i: int| 0 <= i < f.len() implies #[trigger] f[i] == f[0] || f[i] == f[1] || (m == 1
        && f[i] == f[2]) || (n == 3 && (f[i] == f[2 + m] || f[i] == f[3 + m] || f[i] == f[4 + m]))
        || f[i] == f[2 + m + n] || f[i] == f[3 + m + n] by {
        assert(i == 0 || i == 1 || i == 2 || i == 3 || i == 4 || i == 5 || i == 6 || i == 7);
    }
}

/// A DPDK session can be certified exactly where nothing at all is missing.
pub proof fn law_dpdk_certifiable(report: ProbeReport, request: DpdkPreflightRequest, at: int)
    requires
        0 <= at <= report.nics@.len(),
        forall|k: int|
            0 <= k < at ==> !((#[trigger] report.nics@[k]).pci_address matches Some(a) && a@
                == request.pci_address@),
        at < report.nics@.len() ==> (report.nics@[at].pci_address matches Some(a) && a@
            == request.pci_address@),
    ensures
        !any_severity(dpdk_findings(report, request), PreflightSeverity::Fail) && !any_severity(
            dpdk_findings(report, request),
            PreflightSeverity::Warn,
        ) <==> {
            &&& report.dpdk_capable
            &&& at < report.nics@.len()
            &&& request.management_pci_address matches Some(m) ==> m@ != request.pci_address@
            &&& 0 < request.rx_queues && (report.nics@[at].rx_queues matches Some(n)
                && request.rx_queues <= n)
            &&& 0 < request.tx_queues && (report.nics@[at].tx_queues matches Some(n)
                && request.tx_queues <= n)
            &&& request.worker_cpus@.len() > 0
            &&& forall|i: int|
                0 <= i < request.worker_cpus@.len() ==> (#[trigger] request.worker_cpus@[i])
                    < report.logical_cpus
            &&& forall|i: int, j: int|
                0 <= i < j < request.worker_cpus@.len() ==> request.worker_cpus@[i]
                    != request.worker_cpus@[j]
            &&& (report.nics@[at].driver matches Some(d) && (d@ == "vfio-pci"@ || d@
                == "uio_pci_generic"@ || d@ == "igb_uio"@))
            &&& (request.worker_numa_node matches Some(worker) ==> (
            report.nics@[at].numa_node matches Some(node) ==> node < 0 || node == worker))
            &&& 0 < request.required_huge_pages && (report.huge_pages_free matches Some(free)
                && request.required_huge_pages <= free)
        },
{
    lemma_nic_at(report.nics@, request.pci_address@, at);
    let f = dpdk_findings(report, request);
    let m: int = if request.management_pci_address is Some {
        1
    } else {
        0
    };
    let n: int = if at < report.nics@.len() {
        3
    } else {
        0
    };
    assert(f.len() == 4 + m + n);
    assert(f[0].id == "DPDK_RUNTIME"@);
    assert(f[1].id == "PCI_DEVICE"@);
    if m == 1 {
        assert(f[2] == management_findings(request)[0]);
    }
    if n == 3 {
        assert(f[2 + m] == nic_findings(report.nics@[at], request)[0]);
        assert(f[3 + m] == nic_findings(report.nics@[at], request)[1]);
        assert(f[4 + m] == nic_findings(report.nics@[at], request)[2]);
    }
    assert(f[2 + m + n].id == "HUGE_PAGES"@);
    assert(f[3 + m + n].id == "CPU_AFFINITY"@);
    assert forall|i: int| 0 <= i < f.len() implies #[trigger] f[i] == f[0] || f[i] == f[1] || (m == 1
        && f[i] == f[2]) || (n == 3 && (f[i] == f[2 + m] || f[i] == f[3 + m] || f[i] == f[4 + m]))
        || f[i] == f[2 + m + n] || f[i] == f[3 + m + n] by {
        assert(i == 0 || i == 1 || i == 2 || i == 3 || i == 4 || i == 5 || i == 6 || i == 7);
    }
}

/// Each check of a DPDK session is about what it is named after, and only what degrades a
/// session can be a mere warning, where the session is not to be certified.
pub proof fn law_dpdk_checks(
    report: ProbeReport,
    request: DpdkPreflightRequest,
    at: int,
    i: int,
)
    requires
        0 <= at <= report.nics@.len(),
        forall|k: int|
            0 <= k < at ==> !((#[trigger] report.nics@[k]).pci_address matches Some(a) && a@
                == request.pci_address@),
        at < report.nics@.len() ==> (report.nics@[at].pci_address matches Some(a) && a@
            == request.pci_address@),
        0 <= i < dpdk_findings(report, request).len(),
    ensures
        ({
            let check = dpdk_findings(report, request)[i];
            let nic = report.nics@[at];
            let cpus = request.worker_cpus@;
            &&& check.id == "DPDK_RUNTIME"@ ==> (check.severity is Pass <==> report.dpdk_capable)
            &&& check.id == "PCI_DEVICE"@ ==> (check.severity is Pass <==> at
                < report.nics@.len())
            &&& check.id == "MANAGEMENT_NIC_PROTECTION"@ ==> (check.severity is Pass <==> (
            request.management_pci_address matches Some(m) && m@ != request.pci_address@))
            &&& check.id == "QUEUE_CAPACITY"@ ==> (check.severity is Pass <==> 0
                < request.rx_queues && 0 < request.tx_queues && (nic.rx_queues matches Some(n)
                && request.rx_queues <= n) && (nic.tx_queues matches Some(n) && request.tx_queues
                <= n))
            &&& check.id == "DRIVER_STATE"@ ==> (check.severity is Pass <==> (
            nic.driver matches Some(d) && (d@ == "vfio-pci"@ || d@ == "uio_pci_generic"@ || d@
                == "igb_uio"@)))
            &&& check.id == "NUMA_LOCALITY"@ ==> (check.severity is Pass <==> (
            request.worker_numa_node matches Some(worker) ==> (nic.numa_node matches Some(node)
                ==> node < 0 || node == worker)))
            &&& check.id == "HUGE_PAGES"@ ==> (check.severity is Pass <==> 0
                < request.required_huge_pages && (report.huge_pages_free matches Some(free)
                && request.required_huge_pages <= free))
            &&& check.id == "CPU_AFFINITY"@ ==> (check.severity is Pass ==> cpus.len() > 0
                && forall|k: int|
                0 <= k < cpus.len() ==> (#[trigger] cpus[k]) < report.logical_cpus)
            &&& check.severity is Warn <==> !(check.severity is Pass)
                && !request.certification_mode && (check.id == "DRIVER_STATE"@ || check.id
                == "NUMA_LOCALITY"@ || check.id == "HUGE_PAGES"@)
        }),
{
    lemma_nic_at(report.nics@, request.pci_address@, at);
    lemma_check_names();
    let f = dpdk_findings(report, request);
    let m: int = if request.management_pci_address is Some {
        1
    } else {
        0
    };
    let n: int = if at < report.nics@.len() {
        3
    } else {
        0
    };
    assert(f.len() == 4 + m + n);
    assert(i == 0 || i == 1 || i == 2 || i == 3 || i == 4 || i == 5 || i == 6 || i == 7);
    if m == 1 {
        assert(f[2] == management_findings(request)[0]);
    }
    if n == 3 {
        assert(f[2 + m] == nic_findings(report.nics@[at], request)[0]);
        assert(f[3 + m] == nic_findings(report.nics@[at], request)[1]);
        assert(f[4 + m] == nic_findings(report.nics@[at], request)[2]);
    }
    assert(f[2 + m + n].id == "HUGE_PAGES"@);
    assert(f[3 + m + n].id == "CPU_AFFINITY"@);
}

proof fn lemma_check_names()
    ensures
        "DPDK_RUNTIME"@.len() == 12,
        "PCI_DEVICE"@.len() == 10 && "PCI_DEVICE"@[0] == 'P',
        "MANAGEMENT_NIC_PROTECTION"@.len() == 25,
        "QUEUE_CAPACITY"@.len() == 14,
        "DRIVER_STATE"@.len() == 12 && "DRIVER_STATE"@[1] == 'R',
        "DPDK_RUNTIME"@[1] == 'P',
        "NUMA_LOCALITY"@.len() == 13,
        "HUGE_PAGES"@.len() == 10 && "HUGE_PAGES"@[0] == 'H',
        "CPU_AFFINITY"@.len() == 12 && "CPU_AFFINITY"@[0] == 'C',
        "DRIVER_STATE"@[0] == 'D' && "DPDK_RUNTIME"@[0] == 'D',
{
    reveal_strlit("DPDK_RUNTIME");
    reveal_strlit("PCI_DEVICE");
    reveal_strlit("MANAGEMENT_NIC_PROTECTION");
    reveal_strlit("QUEUE_CAPACITY");
    reveal_strlit("DRIVER_STATE");
    reveal_strlit("NUMA_LOCALITY");
    reveal_strlit("HUGE_PAGES");
    reveal_strlit("CPU_AFFINITY");
}

} // verus!
