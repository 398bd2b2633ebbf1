//! Evidence, thresholds and the ten gates of a certification.

use crate::benchmark::snapshot::BenchmarkEnvironmentSnapshot;
use crate::error::{ErrorCode, NetToolError};
use crate::text;
use crate::text::is_blank;
use vstd::prelude::*;

verus! {

/// Dropped packets by cause.
#[derive(Clone, Copy, Debug, PartialEq, Eq, Structural)]
pub struct BenchmarkDrops {
    /// By the interface.
    pub nic: u64,
    /// By capturing.
    pub capture: u64,
    /// By rings.
    pub ring: u64,
    /// By the analyzer.
    pub analyzer: u64,
}

/// The measurement of receiving.
#[derive(Clone, Copy, Debug, PartialEq, Eq, Structural)]
pub struct RxBaselineEvidence {
    /// Bits per second.
    pub bits_per_second: u64,
    /// Packets per second.
    pub packets_per_second: u64,
    /// Drops of the interface.
    pub nic_drops: u64,
    /// Drops of the application.
    pub application_drops: u64,
    /// The load of the processors in hundredths of a percent.
    pub cpu_basis_points: u32,
}

/// The measurement of transmitting.
#[derive(Clone, Copy, Debug, PartialEq, Eq, Structural)]
pub struct TxBaselineEvidence {
    /// Bits per second.
    pub bits_per_second: u64,
    /// Packets per second.
    pub packets_per_second: u64,
    /// The load of the processors in hundredths of a percent.
    pub cpu_basis_points: u32,
    /// Errors.
    pub tx_errors: u64,
    /// The load of the queues in hundredths of a percent.
    pub queue_utilization_basis_points: u32,
}

/// How efficient the processors were.
#[derive(Clone, Copy, Debug, PartialEq, Eq, Structural)]
pub struct CpuEvidence {
    /// The load of the system in hundredths of a percent.
    pub total_cpu_basis_points: u32,
    /// The number of data plane cores.
    pub data_plane_cores: u32,
    /// Bits per second and core.
    pub bits_per_second_per_core: u64,
    /// Packets per second and core.
    pub packets_per_second_per_core: u64,
}

/// How long and how often it was measured.
#[derive(Clone, Debug, PartialEq, Eq)]
pub struct StabilityEvidence {
    /// The time of the short test.
    pub short_duration_seconds: u64,
    /// The time of the sustained test.
    pub sustained_duration_seconds: u64,
    /// The throughput of each repetition.
    pub repeated_throughput_bits_per_second: Vec<u64>,
}

/// How hot it was.
#[derive(Clone, Debug, PartialEq, Eq)]
pub struct ThermalEvidence {
    /// The frequency of the processor at the start.
    pub cpu_frequency_start: String,
    /// The lowest frequency of the processor.
    pub cpu_frequency_minimum: String,
    /// The state of the interface.
    pub nic_state: String,
    /// Whether the hardware slowed down.
    pub thermal_throttling: bool,
}

/// A measurement with analysis.
#[derive(Clone, Copy, Debug, PartialEq, Eq, Structural)]
pub struct AnalyzerLoadEvidence {
    /// The frame size.
    pub frame_bytes: u32,
    /// The throughput.
    pub throughput_bits_per_second: u64,
    /// Drops of the analyzer.
    pub analyzer_drops: u64,
}

/// All that was observed.
#[derive(Clone, Debug, PartialEq, Eq)]
pub struct CertificationEvidence {
    /// Whether a test can be completed at all.
    pub functional: bool,
    /// Whether the general validation was completed.
    pub general_validation_completed: bool,
    /// The negotiated link speed.
    pub link_speed_mbps: Option<u64>,
    /// Whether interface, processor and memory are near each other.
    pub numa_locality_valid: Option<bool>,
    /// Whether RSS is active.
    pub rss_active: Option<bool>,
    /// Whether the receive queues share the load.
    pub rx_queue_distribution_valid: Option<bool>,
    /// Receiving.
    pub rx_baseline: Option<RxBaselineEvidence>,
    /// Transmitting.
    pub tx_baseline: Option<TxBaselineEvidence>,
    /// The throughput of both at once.
    pub bidirectional_bits_per_second: Option<u64>,
    /// Drops.
    pub drops: Option<BenchmarkDrops>,
    /// Processors.
    pub cpu: Option<CpuEvidence>,
    /// Stability.
    pub stability: Option<StabilityEvidence>,
    /// Temperature.
    pub thermal: Option<ThermalEvidence>,
    /// Measurements with analysis.
    pub analyzer_loads: Vec<AnalyzerLoadEvidence>,
}

/// The thresholds, which only measurements on real hardware can fix.
#[derive(Clone, Copy, Debug, PartialEq, Eq, Structural)]
pub struct CertificationPolicy {
    /// The lowest throughput.
    pub minimum_throughput_bits_per_second: u64,
    /// The most drops by cause.
    pub maximum_drops: BenchmarkDrops,
    /// The shortest short test.
    pub minimum_short_duration_seconds: u64,
    /// The shortest sustained test.
    pub minimum_sustained_duration_seconds: u64,
    /// The fewest repetitions.
    pub minimum_repetitions: u32,
    /// The largest spread of the repetitions, in millionths of the lowest.
    pub maximum_reproducibility_spread_ppm: u32,
    /// The lowest throughput with analysis.
    pub minimum_analyzer_throughput_bits_per_second: u64,
    /// The most drops of the analyzer.
    pub maximum_analyzer_drops: u64,
    /// Whether slowing down is allowed as a recorded condition.
    pub allow_thermal_throttling_condition: bool,
}

/// What is wrong with thresholds, if something is.
pub open spec fn policy_fault(p: CertificationPolicy) -> Option<Seq<char>> {
    if p.minimum_throughput_bits_per_second == 0 || p.minimum_short_duration_seconds == 0
        || p.minimum_sustained_duration_seconds == 0
        || p.minimum_analyzer_throughput_bits_per_second == 0 {
        Some("certification thresholds must be non-zero"@)
    } else if p.minimum_repetitions < 2 {
        Some("certification requires at least two repetitions"@)
    } else if p.maximum_reproducibility_spread_ppm > 1_000_000 {
        Some("reproducibility spread ppm exceeds one million"@)
    } else {
        None
    }
}

impl CertificationPolicy {
    /// Checks that the thresholds make sense.
    ///
    /// # Errors
    ///
    /// Fails when a necessary threshold is zero, there are fewer than two repetitions or the
    /// spread exceeds one million.
    pub fn validate(self) -> (r: Result<(), NetToolError>)
        ensures
            match r {
                Ok(_) => policy_fault(self) is None,
                Err(e) => policy_fault(self) is Some && e.is(
                    ErrorCode::InvalidArgument,
                    policy_fault(self)->0,
                    false,
                ),
            },
    {
        if self.minimum_throughput_bits_per_second == 0 || self.minimum_short_duration_seconds == 0
            || self.minimum_sustained_duration_seconds == 0
            || self.minimum_analyzer_throughput_bits_per_second == 0 {
            return Err(invalid("certification thresholds must be non-zero"));
        }
        if self.minimum_repetitions < 2 {
            return Err(invalid("certification requires at least two repetitions"));
        }
        if self.maximum_reproducibility_spread_ppm > 1_000_000 {
            return Err(invalid("reproducibility spread ppm exceeds one million"));
        }
        Ok(())
    }
}

/// The gates.
#[derive(Clone, Copy, Debug, PartialEq, Eq, Structural)]
pub enum CertificationGate {
    /// Link.
    A,
    /// NUMA.
    B,
    /// Queues and RSS.
    C,
    /// Throughput.
    D,
    /// Drops.
    E,
    /// Processors.
    F,
    /// Durations.
    G,
    /// Temperature.
    H,
    /// Analysis.
    I,
    /// Reproducibility.
    J,
}

/// The state of a gate.
#[derive(Clone, Copy, Debug, PartialEq, Eq, Structural)]
pub enum GateStatus {
    /// The evidence meets the threshold.
    Pass,
    /// The evidence does not.
    Fail,
    /// Evidence or threshold is missing.
    NotEvaluated,
    /// A recorded condition that a policy has to decide on.
    Condition,
}

/// The judgement of a gate.
#[derive(Clone, Debug, PartialEq, Eq)]
pub struct GateEvaluation {
    /// Which threshold it is about.
    pub gate: CertificationGate,
    /// Its state.
    pub status: GateStatus,
    /// The reason, for people.
    pub reason: String,
}

/// The content of a judgement.
#[verifier::ext_equal]
pub struct Judgement {
    /// Which threshold it is about.
    pub gate: CertificationGate,
    /// Its state.
    pub status: GateStatus,
    /// The reason.
    pub reason: Seq<char>,
}

impl View for GateEvaluation {
    type V = Judgement;

    open spec fn view(&self) -> Judgement {
        Judgement { gate: self.gate, status: self.status, reason: self.reason@ }
    }
}

/// The contents of judgements.
pub open spec fn judgements(v: Seq<GateEvaluation>) -> Seq<Judgement> {
    Seq::new(v.len(), |i: int| v[i]@)
}

/// How far a platform is supported.
#[derive(Clone, Copy, Debug, PartialEq, Eq, PartialOrd, Ord, Structural)]
pub enum SupportLevel {
    /// It runs.
    Functional,
    /// It was validated in general.
    Validated,
    /// This platform passed all gates.
    Certified100G,
}

/// The outcome of a certification.
#[derive(Clone, Debug, PartialEq, Eq)]
pub struct CertificationOutcome {
    /// How far the platform is supported; none where it does not run.
    pub support_level: Option<SupportLevel>,
    /// The key of the platform; none where the environment is incomplete.
    pub certification_key: Option<String>,
    /// The ten gates in order.
    pub gates: Vec<GateEvaluation>,
    /// Conditions that have to be kept with the outcome.
    pub conditions: Vec<String>,
}

// -------------------------------------------------------------------------------- the gates

/// A judgement for want of evidence or thresholds.
pub open spec fn open_gate(gate: CertificationGate, reason: Seq<char>) -> Judgement {
    Judgement { gate, status: GateStatus::NotEvaluated, reason }
}

/// A judgement on evidence.
pub open spec fn judged(gate: CertificationGate, holds: bool, yes: Seq<char>, no: Seq<char>) ->
    Judgement {
    if holds {
        Judgement { gate, status: GateStatus::Pass, reason: yes }
    } else {
        Judgement { gate, status: GateStatus::Fail, reason: no }
    }
}

/// A judgement on a measured truth value.
pub open spec fn measured(
    gate: CertificationGate,
    value: Option<bool>,
    yes: Seq<char>,
    no: Seq<char>,
) -> Judgement {
    match value {
        None => open_gate(gate, "measurement evidence is missing"@),
        Some(b) => judged(gate, b, yes, no),
    }
}

/// The link has at least 100 gigabits per second.
pub open spec fn link_gate(e: CertificationEvidence) -> Judgement {
    measured(
        CertificationGate::A,
        match e.link_speed_mbps {
            Some(speed) => Some(speed >= 100_000),
            None => None,
        },
        "100GbE link is negotiated"@,
        "negotiated link is below 100GbE"@,
    )
}

/// Interface, processor and memory are near each other.
pub open spec fn numa_gate(e: CertificationEvidence) -> Judgement {
    measured(
        CertificationGate::B,
        e.numa_locality_valid,
        "NIC, CPU and memory locality are valid"@,
        "NUMA locality is invalid"@,
    )
}

/// RSS is active and the queues share the load.
pub open spec fn queue_gate(e: CertificationEvidence) -> Judgement {
    measured(
        CertificationGate::C,
        match (e.rss_active, e.rx_queue_distribution_valid) {
            (Some(rss), Some(distribution)) => Some(rss && distribution),
            _ => None,
        },
        "RSS and RX queue distribution are valid"@,
        "RSS or RX queue distribution is invalid"@,
    )
}

/// Whether measurements make sense: nothing is zero and no load exceeds the whole.
pub open spec fn plausible(rx: RxBaselineEvidence, tx: TxBaselineEvidence, both: u64) -> bool {
    &&& rx.bits_per_second > 0
    &&& rx.packets_per_second > 0
    &&& rx.cpu_basis_points <= 10_000
    &&& tx.bits_per_second > 0
    &&& tx.packets_per_second > 0
    &&& tx.cpu_basis_points <= 10_000
    &&& tx.queue_utilization_basis_points <= 10_000
    &&& both > 0
}

/// The lowest throughput of the three measurements.
pub open spec fn throughput(e: CertificationEvidence) -> Option<u64> {
    match (e.rx_baseline, e.tx_baseline, e.bidirectional_bits_per_second) {
        (Some(rx), Some(tx), Some(both)) if plausible(rx, tx, both) => Some(
            lowest(lowest(rx.bits_per_second, tx.bits_per_second), both),
        ),
        _ => None,
    }
}

/// The smaller of two numbers.
pub open spec fn lowest(a: u64, b: u64) -> u64 {
    if a <= b {
        a
    } else {
        b
    }
}

/// The throughput meets the threshold.
pub open spec fn throughput_gate(
    e: CertificationEvidence,
    policy: Option<CertificationPolicy>,
) -> Judgement {
    match (throughput(e), policy) {
        (_, None) => open_gate(
            CertificationGate::D,
            "POC-defined threshold is not configured"@,
        ),
        (None, Some(_)) => open_gate(CertificationGate::D, "measurement evidence is missing"@),
        (Some(value), Some(p)) => judged(
            CertificationGate::D,
            value >= p.minimum_throughput_bits_per_second,
            "throughput meets the POC-defined threshold"@,
            "throughput is below the POC-defined threshold"@,
        ),
    }
}

/// No cause has more drops than allowed.
pub open spec fn drop_gate(
    e: CertificationEvidence,
    policy: Option<CertificationPolicy>,
) -> Judgement {
    match (policy, e.drops) {
        (None, _) => open_gate(CertificationGate::E, "drop thresholds are not configured"@),
        (Some(_), None) => open_gate(CertificationGate::E, "drop evidence is missing"@),
        (Some(p), Some(d)) => judged(
            CertificationGate::E,
            d.nic <= p.maximum_drops.nic && d.capture <= p.maximum_drops.capture && d.ring
                <= p.maximum_drops.ring && d.analyzer <= p.maximum_drops.analyzer,
            "all classified drops meet thresholds"@,
            "one or more classified drops exceed thresholds"@,
        ),
    }
}

/// The evidence on processors is complete.
pub open spec fn cpu_gate(e: CertificationEvidence) -> Judgement {
    measured(
        CertificationGate::F,
        match e.cpu {
            Some(c) => Some(
                c.total_cpu_basis_points <= 10_000 && c.data_plane_cores > 0
                    && c.bits_per_second_per_core > 0 && c.packets_per_second_per_core > 0,
            ),
            None => None,
        },
        "CPU and per-core efficiency evidence is complete"@,
        "CPU evidence is invalid"@,
    )
}

/// The tests were long enough.
pub open spec fn duration_gate(
    e: CertificationEvidence,
    policy: Option<CertificationPolicy>,
) -> Judgement {
    match (policy, e.stability) {
        (None, _) => open_gate(CertificationGate::G, "stability durations are not configured"@),
        (Some(_), None) => open_gate(CertificationGate::G, "stability evidence is missing"@),
        (Some(p), Some(s)) => judged(
            CertificationGate::G,
            s.short_duration_seconds >= p.minimum_short_duration_seconds
                && s.sustained_duration_seconds >= p.minimum_sustained_duration_seconds,
            "short and sustained tests meet configured durations"@,
            "short or sustained test duration is insufficient"@,
        ),
    }
}

/// Whether the evidence on temperature is complete.
pub open spec fn thermal_complete(t: ThermalEvidence) -> bool {
    !text::blank(t.cpu_frequency_start@) && !text::blank(t.cpu_frequency_minimum@) && !text::blank(
        t.nic_state@,
    )
}

/// The hardware did not slow down, or the policy allows it to.
pub open spec fn thermal_gate(
    e: CertificationEvidence,
    policy: Option<CertificationPolicy>,
) -> Judgement {
    match e.thermal {
        None => open_gate(CertificationGate::H, "thermal evidence is missing"@),
        Some(t) => if !thermal_complete(t) {
            judged(
                CertificationGate::H,
                false,
                "thermal evidence is complete"@,
                "thermal evidence is incomplete"@,
            )
        } else if !t.thermal_throttling {
            judged(CertificationGate::H, true, "no thermal throttling was observed"@, ""@)
        } else {
            match policy {
                Some(p) => judged(
                    CertificationGate::H,
                    p.allow_thermal_throttling_condition,
                    "thermal throttling condition was explicitly allowed and preserved"@,
                    "thermal throttling is not allowed by the certification policy"@,
                ),
                None => Judgement {
                    gate: CertificationGate::H,
                    status: GateStatus::Condition,
                    reason: "thermal throttling condition requires an explicit policy"@,
                },
            }
        },
    }
}

/// The conditions that have to be kept: that the hardware slowed down.
pub open spec fn thermal_conditions(e: CertificationEvidence) -> Seq<Seq<char>> {
    match e.thermal {
        Some(t) if thermal_complete(t) && t.thermal_throttling => seq![
            "thermal_throttling_observed"@,
        ],
        _ => Seq::empty(),
    }
}

/// The first measurement with analysis of a frame size.
pub open spec fn load_of(loads: Seq<AnalyzerLoadEvidence>, bytes: u32) -> Option<
    AnalyzerLoadEvidence,
>
    decreases loads.len(),
{
    if loads.len() == 0 {
        None
    } else if loads[0].frame_bytes == bytes {
        Some(loads[0])
    } else {
        load_of(loads.drop_first(), bytes)
    }
}

/// Whether a measurement with analysis meets the thresholds.
pub open spec fn load_passes(load: AnalyzerLoadEvidence, p: CertificationPolicy) -> bool {
    load.throughput_bits_per_second >= p.minimum_analyzer_throughput_bits_per_second
        && load.analyzer_drops <= p.maximum_analyzer_drops
}

/// Small and standard frames can be analysed fast enough.
pub open spec fn analyzer_gate(
    e: CertificationEvidence,
    policy: Option<CertificationPolicy>,
) -> Judgement {
    match policy {
        None => open_gate(CertificationGate::I, "analyzer thresholds are not configured"@),
        Some(p) => match (load_of(e.analyzer_loads@, 64), load_of(e.analyzer_loads@, 1518)) {
            (Some(small), Some(standard)) => judged(
                CertificationGate::I,
                load_passes(small, p) && load_passes(standard, p),
                "64B and 1518B analyzer loads meet thresholds"@,
                "analyzer throughput or drops fail a primary load"@,
            ),
            _ => open_gate(
                CertificationGate::I,
                "analysis-enabled 64B and 1518B loads are both required"@,
            ),
        },
    }
}

/// The lowest of some numbers.
pub open spec fn minimum(v: Seq<u64>) -> u64
    decreases v.len(),
{
    if v.len() == 0 {
        u64::MAX
    } else {
        lowest(minimum(v.drop_last()), v.last())
    }
}

/// The highest of some numbers.
pub open spec fn maximum(v: Seq<u64>) -> u64
    decreases v.len(),
{
    if v.len() == 0 {
        0
    } else if maximum(v.drop_last()) >= v.last() {
        maximum(v.drop_last())
    } else {
        v.last()
    }
}

/// How far the repetitions are apart, in millionths of the lowest.
pub open spec fn spread_ppm(v: Seq<u64>) -> int {
    (maximum(v) - minimum(v)) * 1_000_000 / minimum(v) as int
}

/// The repetitions are enough and near each other.
pub open spec fn repetition_gate(
    e: CertificationEvidence,
    policy: Option<CertificationPolicy>,
) -> Judgement {
    match (policy, e.stability) {
        (None, _) => open_gate(
            CertificationGate::J,
            "reproducibility thresholds are not configured"@,
        ),
        (Some(_), None) => open_gate(CertificationGate::J, "repeated measurements are missing"@),
        (Some(p), Some(s)) => {
            let v = s.repeated_throughput_bits_per_second@;
            if v.len() < p.minimum_repetitions {
                judged(
                    CertificationGate::J,
                    false,
                    "repetition count is sufficient"@,
                    "repetition count is insufficient"@,
                )
            } else if v.len() == 0 {
                open_gate(CertificationGate::J, "repeated measurements are missing"@)
            } else if minimum(v) == 0 {
                judged(
                    CertificationGate::J,
                    false,
                    "throughput measurements are non-zero"@,
                    "a repeated throughput measurement is zero"@,
                )
            } else {
                judged(
                    CertificationGate::J,
                    spread_ppm(v) <= p.maximum_reproducibility_spread_ppm,
                    "repeated results meet dispersion threshold"@,
                    "repeated results are unstable"@,
                )
            }
        },
    }
}

/// The ten gates in order.
pub open spec fn all_gates(
    e: CertificationEvidence,
    policy: Option<CertificationPolicy>,
) -> Seq<Judgement> {
    seq![
        link_gate(e),
        numa_gate(e),
        queue_gate(e),
        throughput_gate(e, policy),
        drop_gate(e, policy),
        cpu_gate(e),
        duration_gate(e, policy),
        thermal_gate(e, policy),
        analyzer_gate(e, policy),
        repetition_gate(e, policy),
    ]
}

/// Whether all gates passed.
pub open spec fn all_pass(gates: Seq<Judgement>) -> bool {
    forall|i: int| 0 <= i < gates.len() ==> (#[trigger] gates[i]).status is Pass
}

/// How far a platform is supported.
pub open spec fn support(
    environment: BenchmarkEnvironmentSnapshot,
    e: CertificationEvidence,
    policy: Option<CertificationPolicy>,
) -> Option<SupportLevel> {
    if !e.functional {
        None
    } else if all_pass(all_gates(e, policy)) && environment.key_fault() is None
        && policy is Some {
        Some(SupportLevel::Certified100G)
    } else if e.general_validation_completed {
        Some(SupportLevel::Validated)
    } else {
        Some(SupportLevel::Functional)
    }
}

// ------------------------------------------------------------------------------- evaluating

fn evaluated(gate: CertificationGate, holds: bool, yes: &str, no: &str) -> (r: GateEvaluation)
    ensures
        r@ == judged(gate, holds, yes@, no@),
{
    if holds {
        GateEvaluation { gate, status: GateStatus::Pass, reason: yes.to_owned() }
    } else {
        GateEvaluation { gate, status: GateStatus::Fail, reason: no.to_owned() }
    }
}

fn not_evaluated(gate: CertificationGate, reason: &str) -> (r: GateEvaluation)
    ensures
        r@ == open_gate(gate, reason@),
{
    GateEvaluation { gate, status: GateStatus::NotEvaluated, reason: reason.to_owned() }
}

fn boolean_measurement(gate: CertificationGate, value: Option<bool>, yes: &str, no: &str) -> (r:
    GateEvaluation)
    ensures
        r@ == measured(gate, value, yes@, no@),
{
    match value {
        None => not_evaluated(gate, "measurement evidence is missing"),
        Some(b) => evaluated(gate, b, yes, no),
    }
}

fn gate_a(e: &CertificationEvidence) -> (r: GateEvaluation)
    ensures
        r@ == link_gate(*e),
{
    boolean_measurement(
        CertificationGate::A,
        match e.link_speed_mbps {
            Some(speed) => Some(speed >= 100_000),
            None => None,
        },
        "100GbE link is negotiated",
        "negotiated link is below 100GbE",
    )
}

fn gate_b(e: &CertificationEvidence) -> (r: GateEvaluation)
    ensures
        r@ == numa_gate(*e),
{
    boolean_measurement(
        CertificationGate::B,
        e.numa_locality_valid,
        "NIC, CPU and memory locality are valid",
        "NUMA locality is invalid",
    )
}

fn gate_c(e: &CertificationEvidence) -> (r: GateEvaluation)
    ensures
        r@ == queue_gate(*e),
{
    boolean_measurement(
        CertificationGate::C,
        match (e.rss_active, e.rx_queue_distribution_valid) {
            (Some(rss), Some(distribution)) => Some(rss && distribution),
            _ => None,
        },
        "RSS and RX queue distribution are valid",
        "RSS or RX queue distribution is invalid",
    )
}

fn min_of(a: u64, b: u64) -> (r: u64)
    ensures
        r == lowest(a, b),
{
    if a <= b {
        a
    } else {
        b
    }
}

fn gate_d(e: &CertificationEvidence, policy: Option<CertificationPolicy>) -> (r: GateEvaluation)
    ensures
        r@ == throughput_gate(*e, policy),
{
    let measurement: Option<u64> = match (
        e.rx_baseline,
        e.tx_baseline,
        e.bidirectional_bits_per_second,
    ) {
        (Some(rx), Some(tx), Some(both)) => {
            if rx.bits_per_second == 0 || rx.packets_per_second == 0 || rx.cpu_basis_points > 10_000
                || tx.bits_per_second == 0 || tx.packets_per_second == 0 || tx.cpu_basis_points
                > 10_000 || tx.queue_utilization_basis_points > 10_000 || both == 0 {
                None
            } else {
                Some(min_of(min_of(rx.bits_per_second, tx.bits_per_second), both))
            }
        },
        _ => None,
    };
    match (measurement, policy) {
        (_, None) => not_evaluated(
            CertificationGate::D,
            "POC-defined threshold is not configured",
        ),
        (None, Some(_)) => not_evaluated(CertificationGate::D, "measurement evidence is missing"),
        (Some(value), Some(p)) => evaluated(
            CertificationGate::D,
            value >= p.minimum_throughput_bits_per_second,
            "throughput meets the POC-defined threshold",
            "throughput is below the POC-defined threshold",
        ),
    }
}

fn gate_e(e: &CertificationEvidence, policy: Option<CertificationPolicy>) -> (r: GateEvaluation)
    ensures
        r@ == drop_gate(*e, policy),
{
    match (policy, e.drops) {
        (None, _) => not_evaluated(CertificationGate::E, "drop thresholds are not configured"),
        (Some(_), None) => not_evaluated(CertificationGate::E, "drop evidence is missing"),
        (Some(p), Some(d)) => evaluated(
            CertificationGate::E,
            d.nic <= p.maximum_drops.nic && d.capture <= p.maximum_drops.capture && d.ring
                <= p.maximum_drops.ring && d.analyzer <= p.maximum_drops.analyzer,
            "all classified drops meet thresholds",
            "one or more classified drops exceed thresholds",
        ),
    }
}

fn gate_f(e: &CertificationEvidence) -> (r: GateEvaluation)
    ensures
        r@ == cpu_gate(*e),
{
    boolean_measurement(
        CertificationGate::F,
        match e.cpu {
            Some(c) => Some(
                c.total_cpu_basis_points <= 10_000 && c.data_plane_cores > 0
                    && c.bits_per_second_per_core > 0 && c.packets_per_second_per_core > 0,
            ),
            None => None,
        },
        "CPU and per-core efficiency evidence is complete",
        "CPU evidence is invalid",
    )
}

fn gate_g(e: &CertificationEvidence, policy: Option<CertificationPolicy>) -> (r: GateEvaluation)
    ensures
        r@ == duration_gate(*e, policy),
{
    match policy {
        None => not_evaluated(CertificationGate::G, "stability durations are not configured"),
        Some(p) => match &e.stability {
            None => not_evaluated(CertificationGate::G, "stability evidence is missing"),
            Some(s) => evaluated(
                CertificationGate::G,
                s.short_duration_seconds >= p.minimum_short_duration_seconds
                    && s.sustained_duration_seconds >= p.minimum_sustained_duration_seconds,
                "short and sustained tests meet configured durations",
                "short or sustained test duration is insufficient",
            ),
        },
    }
}

fn gate_h(
    e: &CertificationEvidence,
    policy: Option<CertificationPolicy>,
    conditions: &mut Vec<String>,
) -> (r: GateEvaluation)
    ensures
        r@ == thermal_gate(*e, policy),
        text::texts(final(conditions)@) == text::texts(old(conditions)@) + thermal_conditions(*e),
{
    let ghost before = text::texts(conditions@);
    proof {
        assert(before + Seq::<Seq<char>>::empty() == before);
    }
    match &e.thermal {
        None => not_evaluated(CertificationGate::H, "thermal evidence is missing"),
        Some(t) => {
            if is_blank(t.cpu_frequency_start.as_str()) || is_blank(
                t.cpu_frequency_minimum.as_str(),
            ) || is_blank(t.nic_state.as_str()) {
                return evaluated(
                    CertificationGate::H,
                    false,
                    "thermal evidence is complete",
                    "thermal evidence is incomplete",
                );
            }
            if !t.thermal_throttling {
                return evaluated(
                    CertificationGate::H,
                    true,
                    "no thermal throttling was observed",
                    "",
                );
            }
            conditions.push("thermal_throttling_observed".to_owned());
            proof {
                assert(text::texts(conditions@) =~= before + thermal_conditions(*e));
            }
            match policy {
                Some(p) => evaluated(
                    CertificationGate::H,
                    p.allow_thermal_throttling_condition,
                    "thermal throttling condition was explicitly allowed and preserved",
                    "thermal throttling is not allowed by the certification policy",
                ),
                None => GateEvaluation {
                    gate: CertificationGate::H,
                    status: GateStatus::Condition,
                    reason: "thermal throttling condition requires an explicit policy".to_owned(),
                },
            }
        },
    }
}

fn find_load(loads: &[AnalyzerLoadEvidence], bytes: u32) -> (r: Option<AnalyzerLoadEvidence>)
    ensures
        r == load_of(loads@, bytes),
{
    let mut i: usize = 0;
    proof {
        assert(loads@.skip(0) == loads@);
    }
    while i < loads.len()
        invariant
            i <= loads@.len(),
            load_of(loads@, bytes) == load_of(loads@.skip(i as int), bytes),
        decreases loads@.len() - i,
    {
        proof {
            assert(loads@.skip(i as int)[0] == loads@[i as int]);
            assert(loads@.skip(i as int).drop_first() == loads@.skip(i + 1));
        }
        if loads[i].frame_bytes == bytes {
            return Some(loads[i]);
        }
        i += 1;
    }
    None
}

fn passes(load: AnalyzerLoadEvidence, p: CertificationPolicy) -> (r: bool)
    ensures
        r == load_passes(load, p),
{
    load.throughput_bits_per_second >= p.minimum_analyzer_throughput_bits_per_second
        && load.analyzer_drops <= p.maximum_analyzer_drops
}

fn gate_i(e: &CertificationEvidence, policy: Option<CertificationPolicy>) -> (r: GateEvaluation)
    ensures
        r@ == analyzer_gate(*e, policy),
{
    match policy {
        None => not_evaluated(CertificationGate::I, "analyzer thresholds are not configured"),
        Some(p) => {
            let small = find_load(e.analyzer_loads.as_slice(), 64);
            let standard = find_load(e.analyzer_loads.as_slice(), 1518);
            match (small, standard) {
                (Some(small), Some(standard)) => evaluated(
                    CertificationGate::I,
                    passes(small, p) && passes(standard, p),
                    "64B and 1518B analyzer loads meet thresholds",
                    "analyzer throughput or drops fail a primary load",
                ),
                _ => not_evaluated(
                    CertificationGate::I,
                    "analysis-enabled 64B and 1518B loads are both required",
                ),
            }
        },
    }
}

fn gate_j(e: &CertificationEvidence, policy: Option<CertificationPolicy>) -> (r: GateEvaluation)
    ensures
        r@ == repetition_gate(*e, policy),
{
    match policy {
        None => not_evaluated(
            CertificationGate::J,
            "reproducibility thresholds are not configured",
        ),
        Some(p) => match &e.stability {
            None => not_evaluated(CertificationGate::J, "repeated measurements are missing"),
            Some(s) => {
                let v = &s.repeated_throughput_bits_per_second;
                if v.len() < p.minimum_repetitions as usize {
                    return evaluated(
                        CertificationGate::J,
                        false,
                        "repetition count is sufficient",
                        "repetition count is insufficient",
                    );
                }
                if v.len() == 0 {
                    return not_evaluated(
                        CertificationGate::J,
                        "repeated measurements are missing",
                    );
                }
                let mut low: u64 = 0xffff_ffff_ffff_ffff;
                let mut high: u64 = 0;
                let mut i: usize = 0;
                while i < v.len()
                    invariant
                        i <= v@.len(),
                        low == minimum(v@.take(i as int)),
                        high == maximum(v@.take(i as int)),
                        i > 0 ==> low <= high,
                    decreases v@.len() - i,
                {
                    proof {
                        assert(v@.take(i + 1).drop_last() == v@.take(i as int));
                        assert(v@.take(i + 1).last() == v@[i as int]);
                    }
                    if v[i] < low {
                        low = v[i];
                    }
                    if v[i] > high {
                        high = v[i];
                    }
                    i += 1;
                }
                proof {
                    assert(v@.take(i as int) == v@);
                }
                if low == 0 {
                    return evaluated(
                        CertificationGate::J,
                        false,
                        "throughput measurements are non-zero",
                        "a repeated throughput measurement is zero",
                    );
                }
                let spread: u128 = (high - low) as u128 * 1_000_000 / low as u128;
                evaluated(
                    CertificationGate::J,
                    spread <= p.maximum_reproducibility_spread_ppm as u128,
                    "repeated results meet dispersion threshold",
                    "repeated results are unstable",
                )
            },
        },
    }
}

/// Judges all gates and how far the platform is supported.
///
/// Without thresholds nothing is certified: the gates that need them stay open.
///
/// # Errors
///
/// Fails when the thresholds are invalid; they are never taken for missing.
pub fn evaluate_certification(
    environment: &BenchmarkEnvironmentSnapshot,
    evidence: &CertificationEvidence,
    policy: Option<CertificationPolicy>,
) -> (r: Result<CertificationOutcome, NetToolError>)
    ensures
        match r {
            Ok(outcome) => {
                &&& policy matches Some(p) ==> policy_fault(p) is None
                &&& judgements(outcome.gates@) == all_gates(*evidence, policy)
                &&& outcome.support_level == support(*environment, *evidence, policy)
                &&& text::texts(outcome.conditions@) == thermal_conditions(*evidence)
                &&& match outcome.certification_key {
                    Some(key) => environment.key_fault() is None && key@ == environment.key(),
                    None => environment.key_fault() is Some,
                }
            },
            Err(e) => policy matches Some(p) && policy_fault(p) is Some && e.is(
                ErrorCode::InvalidArgument,
                policy_fault(p)->0,
                false,
            ),
        },
{
    match policy {
        Some(p) => match p.validate() {
            Ok(_) => {},
            Err(e) => {
                return Err(e);
            },
        },
        None => {},
    }
    let mut conditions: Vec<String> = Vec::new();
    proof {
        assert(text::texts(conditions@) == Seq::<Seq<char>>::empty());
        assert(Seq::<Seq<char>>::empty() + thermal_conditions(*evidence) == thermal_conditions(
            *evidence,
        ));
    }
    let mut gates: Vec<GateEvaluation> = Vec::new();
    gates.push(gate_a(evidence));
    gates.push(gate_b(evidence));
    gates.push(gate_c(evidence));
    gates.push(gate_d(evidence, policy));
    gates.push(gate_e(evidence, policy));
    gates.push(gate_f(evidence));
    gates.push(gate_g(evidence, policy));
    let thermal = gate_h(evidence, policy, &mut conditions);
    gates.push(thermal);
    gates.push(gate_i(evidence, policy));
    gates.push(gate_j(evidence, policy));
    proof {
        assert(judgements(gates@) =~= all_gates(*evidence, policy));
    }
    let certification_key: Option<String> = match environment.certification_key() {
        Ok(key) => Some(key),
        Err(_) => None,
    };
    let mut passed: bool = true;
    let mut i: usize = 0;
    while i < gates.len()
        invariant
            i <= gates@.len(),
            passed == forall|j: int|
                0 <= j < i ==> (#[trigger] judgements(gates@)[j]).status is Pass,
        decreases gates@.len() - i,
    {
        proof {
            assert(judgements(gates@)[i as int] == gates@[i as int]@);
        }
        if gates[i].status != GateStatus::Pass {
            passed = false;
        }
        i += 1;
    }
    proof {
        assert(passed == all_pass(judgements(gates@)));
    }
    let support_level = if !evidence.functional {
        None
    } else if passed && certification_key.is_some() && policy.is_some() {
        Some(SupportLevel::Certified100G)
    } else if evidence.general_validation_completed {
        Some(SupportLevel::Validated)
    } else {
        Some(SupportLevel::Functional)
    };
    Ok(CertificationOutcome { support_level, certification_key, gates, conditions })
}

fn invalid(message: &str) -> (r: NetToolError)
    ensures
        r.is(ErrorCode::InvalidArgument, message@, false),
{
    NetToolError::new(ErrorCode::InvalidArgument, message, false)
}

// ------------------------------------------------------------------------------------- laws

/// Without thresholds a platform is never certified, and some gates stay open.
pub proof fn law_no_policy_no_certificate(
    environment: BenchmarkEnvironmentSnapshot,
    evidence: CertificationEvidence,
)
    ensures
        support(environment, evidence, None) != Some(SupportLevel::Certified100G),
        exists|i: int|
            0 <= i < 10 && (#[trigger] all_gates(evidence, None)[i]).status is NotEvaluated,
{
    assert(all_gates(evidence, None)[3].status is NotEvaluated);
}

/// A platform is certified exactly where it runs, thresholds were given, the environment is
/// complete and every gate passed.
pub proof fn law_certified_means_every_gate_passed(
    environment: BenchmarkEnvironmentSnapshot,
    evidence: CertificationEvidence,
    policy: Option<CertificationPolicy>,
)
    ensures
        support(environment, evidence, policy) == Some(SupportLevel::Certified100G) <==> {
            &&& evidence.functional
            &&& policy is Some
            &&& environment.key_fault() is None
            &&& forall|i: int|
                0 <= i < 10 ==> (#[trigger] all_gates(evidence, policy)[i]).status is Pass
        },
{
    assert(all_gates(evidence, policy).len() == 10);
}

/// One cause with too many drops blocks the certificate.
pub proof fn law_one_drop_cause_blocks(
    environment: BenchmarkEnvironmentSnapshot,
    evidence: CertificationEvidence,
    policy: CertificationPolicy,
    drops: BenchmarkDrops,
)
    requires
        evidence.drops == Some(drops),
        drops.nic > policy.maximum_drops.nic || drops.capture > policy.maximum_drops.capture
            || drops.ring > policy.maximum_drops.ring || drops.analyzer
            > policy.maximum_drops.analyzer,
    ensures
        all_gates(evidence, Some(policy))[4].status is Fail,
        support(environment, evidence, Some(policy)) != Some(SupportLevel::Certified100G),
{
}

/// A platform that slowed down is certified only where the policy allows it, and the
/// condition is then kept with the outcome.
pub proof fn law_throttling_is_recorded(
    environment: BenchmarkEnvironmentSnapshot,
    evidence: CertificationEvidence,
    policy: CertificationPolicy,
    thermal: ThermalEvidence,
)
    requires
        evidence.thermal == Some(thermal),
        thermal.thermal_throttling,
        support(environment, evidence, Some(policy)) == Some(SupportLevel::Certified100G),
    ensures
        policy.allow_thermal_throttling_condition,
        thermal_conditions(evidence) == seq!["thermal_throttling_observed"@],
{
    let g = all_gates(evidence, Some(policy));
    assert(g[7].status is Pass);
}

} // verus!
