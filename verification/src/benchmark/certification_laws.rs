//! What a certificate stands for: which evidence it takes, gate by gate.

use crate::benchmark::certification;
use crate::benchmark::certification::{
    AnalyzerLoadEvidence, CertificationEvidence, CertificationPolicy, SupportLevel,
};
use crate::benchmark::snapshot::BenchmarkEnvironmentSnapshot;
use crate::text;
use vstd::prelude::*;

verus! {

/// The gates are judged in their order, each one once.
pub proof fn law_gates_are_in_order(
    e: CertificationEvidence,
    policy: Option<CertificationPolicy>,
)
    ensures
        ({
            let gates = certification::all_gates(e, policy);
            &&& gates.len() == 10
            &&& gates[0].gate is A
            &&& gates[1].gate is B
            &&& gates[2].gate is C
            &&& gates[3].gate is D
            &&& gates[4].gate is E
            &&& gates[5].gate is F
            &&& gates[6].gate is G
            &&& gates[7].gate is H
            &&& gates[8].gate is I
            &&& gates[9].gate is J
        }),
{
}

/// The link, the places of interface, processor and memory, and the queues: each is judged by
/// its own measurement, whatever the thresholds are, and stays open where that is missing.
pub proof fn law_hardware_gates(e: CertificationEvidence, policy: Option<CertificationPolicy>)
    ensures
        ({
            let gates = certification::all_gates(e, policy);
            &&& gates[0].status is Pass <==> (e.link_speed_mbps matches Some(speed) && speed
                >= 100_000)
            &&& gates[0].status is Fail <==> (e.link_speed_mbps matches Some(speed) && speed
                < 100_000)
            &&& gates[0].status is NotEvaluated <==> e.link_speed_mbps is None
            &&& gates[1].status is Pass <==> e.numa_locality_valid == Some(true)
            &&& gates[1].status is Fail <==> e.numa_locality_valid == Some(false)
            &&& gates[1].status is NotEvaluated <==> e.numa_locality_valid is None
            &&& gates[2].status is Pass <==> e.rss_active == Some(true)
                && e.rx_queue_distribution_valid == Some(true)
            &&& gates[2].status is NotEvaluated <==> e.rss_active is None
                || e.rx_queue_distribution_valid is None
            &&& gates[2].status is Condition ==> false
        }),
{
}

/// The throughput counts where receiving, sending and both at once were measured and the
/// measurements make sense. Then each of the three has to reach the threshold.
pub proof fn law_throughput_gate(e: CertificationEvidence, p: CertificationPolicy)
    ensures
        ({
            let gate = certification::all_gates(e, Some(p))[3];
            let needed = p.minimum_throughput_bits_per_second;
            let sound = {
                &&& e.rx_baseline matches Some(rx) && rx.bits_per_second > 0
                    && rx.packets_per_second > 0 && rx.cpu_basis_points <= 10_000
                &&& e.tx_baseline matches Some(tx) && tx.bits_per_second > 0
                    && tx.packets_per_second > 0 && tx.cpu_basis_points <= 10_000
                    && tx.queue_utilization_basis_points <= 10_000
                &&& e.bidirectional_bits_per_second matches Some(both) && both > 0
            };
            let enough = {
                &&& e.rx_baseline matches Some(rx) && rx.bits_per_second >= needed
                &&& e.tx_baseline matches Some(tx) && tx.bits_per_second >= needed
                &&& e.bidirectional_bits_per_second matches Some(both) && both >= needed
            };
            &&& gate.status is Pass <==> sound && enough
            &&& gate.status is Fail <==> sound && !enough
            &&& gate.status is NotEvaluated <==> !sound
        }),
{
}

/// Raising a measured throughput never turns a pass into anything else, and lowering one below
/// the threshold always does.
pub proof fn law_throughput_gate_is_monotone(
    a: CertificationEvidence,
    b: CertificationEvidence,
    p: CertificationPolicy,
)
    requires
        a.rx_baseline matches Some(x) && (b.rx_baseline matches Some(y) && x.bits_per_second
            <= y.bits_per_second && x.packets_per_second == y.packets_per_second
            && x.cpu_basis_points == y.cpu_basis_points),
        a.tx_baseline matches Some(x) && (b.tx_baseline matches Some(y) && x.bits_per_second
            <= y.bits_per_second && x.packets_per_second == y.packets_per_second
            && x.cpu_basis_points == y.cpu_basis_points && x.queue_utilization_basis_points
            == y.queue_utilization_basis_points),
        a.bidirectional_bits_per_second matches Some(x) && (
        b.bidirectional_bits_per_second matches Some(y) && x <= y),
        certification::all_gates(a, Some(p))[3].status is Pass,
    ensures
        certification::all_gates(b, Some(p))[3].status is Pass,
{
}

/// The drops count by their cause: none may have more than is allowed of it.
pub proof fn law_drop_gate(e: CertificationEvidence, p: CertificationPolicy)
    ensures
        ({
            let gate = certification::all_gates(e, Some(p))[4];
            &&& gate.status is Pass <==> (e.drops matches Some(d) && d.nic <= p.maximum_drops.nic
                && d.capture <= p.maximum_drops.capture && d.ring <= p.maximum_drops.ring
                && d.analyzer <= p.maximum_drops.analyzer)
            &&& gate.status is Fail <==> (e.drops matches Some(d) && (d.nic > p.maximum_drops.nic
                || d.capture > p.maximum_drops.capture || d.ring > p.maximum_drops.ring
                || d.analyzer > p.maximum_drops.analyzer))
            &&& gate.status is NotEvaluated <==> e.drops is None
        }),
{
}

/// The evidence on processors has to be there and make sense.
pub proof fn law_processor_gate(e: CertificationEvidence, policy: Option<CertificationPolicy>)
    ensures
        ({
            let gate = certification::all_gates(e, policy)[5];
            &&& gate.status is Pass <==> (e.cpu matches Some(c) && c.total_cpu_basis_points
                <= 10_000 && c.data_plane_cores > 0 && c.bits_per_second_per_core > 0
                && c.packets_per_second_per_core > 0)
            &&& gate.status is NotEvaluated <==> e.cpu is None
            &&& gate.status is Condition ==> false
        }),
{
}

/// Both the short and the sustained test have to last long enough.
pub proof fn law_duration_gate(e: CertificationEvidence, p: CertificationPolicy)
    ensures
        ({
            let gate = certification::all_gates(e, Some(p))[6];
            &&& gate.status is Pass <==> (e.stability matches Some(s) && s.short_duration_seconds
                >= p.minimum_short_duration_seconds && s.sustained_duration_seconds
                >= p.minimum_sustained_duration_seconds)
            &&& gate.status is Fail <==> (e.stability matches Some(s) && (
            s.short_duration_seconds < p.minimum_short_duration_seconds
                || s.sustained_duration_seconds < p.minimum_sustained_duration_seconds))
            &&& gate.status is NotEvaluated <==> e.stability is None
        }),
{
}

/// Slowing down is what the thresholds say of it: it passes only where it is allowed, fails
/// where it is not, and without thresholds it is a condition to decide on. Evidence that leaves
/// a reading out fails. That the hardware slowed down is kept with the outcome in any case.
pub proof fn law_thermal_gate(e: CertificationEvidence, policy: Option<CertificationPolicy>)
    ensures
        ({
            let gate = certification::all_gates(e, policy)[7];
            let told = e.thermal matches Some(t) && !text::blank(t.cpu_frequency_start@)
                && !text::blank(t.cpu_frequency_minimum@) && !text::blank(t.nic_state@);
            let slowed = e.thermal matches Some(t) && t.thermal_throttling;
            &&& gate.status is NotEvaluated <==> e.thermal is None
            &&& gate.status is Pass <==> told && (slowed ==> (policy matches Some(p)
                && p.allow_thermal_throttling_condition))
            &&& gate.status is Condition <==> told && slowed && policy is None
            &&& certification::thermal_conditions(e).len() > 0 <==> told && slowed
            &&& certification::thermal_conditions(e).contains("thermal_throttling_observed"@)
                <==> told && slowed
        }),
{
    if certification::thermal_conditions(e).len() > 0 {
        assert(certification::thermal_conditions(e)[0] == "thermal_throttling_observed"@);
    }
}

proof fn lemma_load_of(loads: Seq<AnalyzerLoadEvidence>, bytes: u32, at: int)
    requires
        0 <= at <= loads.len(),
        forall|k: int| 0 <= k < at ==> (#[trigger] loads[k]).frame_bytes != bytes,
        at < loads.len() ==> loads[at].frame_bytes == bytes,
    ensures
        certification::load_of(loads, bytes) == if at < loads.len() {
            Some(loads[at])
        } else {
            None
        },
    decreases loads.len(),
{
    if at > 0 {
        let tail = loads.drop_first();
        assert(loads[0].frame_bytes != bytes);
        assert forall|k: int| 0 <= k < at - 1 implies (#[trigger] tail[k]).frame_bytes != bytes by {
            assert(tail[k] == loads[k + 1]);
        }
        lemma_load_of(tail, bytes, at - 1);
    }
}

/// Small frames of 64 bytes and standard frames of 1518 bytes both have to be analysed fast
/// enough and without too many drops. The first measurement of each size counts; `small` and
/// `standard` are their places, or the number of measurements where there is none.
pub proof fn law_analyzer_gate(
    e: CertificationEvidence,
    p: CertificationPolicy,
    small: int,
    standard: int,
)
    requires
        0 <= small <= e.analyzer_loads@.len(),
        0 <= standard <= e.analyzer_loads@.len(),
        forall|k: int| 0 <= k < small ==> (#[trigger] e.analyzer_loads@[k]).frame_bytes != 64,
        forall|k: int| 0 <= k < standard ==> (#[trigger] e.analyzer_loads@[k]).frame_bytes != 1518,
        small < e.analyzer_loads@.len() ==> e.analyzer_loads@[small].frame_bytes == 64,
        standard < e.analyzer_loads@.len() ==> e.analyzer_loads@[standard].frame_bytes == 1518,
    ensures
        ({
            let gate = certification::all_gates(e, Some(p))[8];
            let loads = e.analyzer_loads@;
            let measured = small < loads.len() && standard < loads.len();
            let good = {
                &&& loads[small].throughput_bits_per_second
                    >= p.minimum_analyzer_throughput_bits_per_second
                &&& loads[small].analyzer_drops <= p.maximum_analyzer_drops
                &&& loads[standard].throughput_bits_per_second
                    >= p.minimum_analyzer_throughput_bits_per_second
                &&& loads[standard].analyzer_drops <= p.maximum_analyzer_drops
            };
            &&& gate.status is NotEvaluated <==> !measured
            &&& gate.status is Pass <==> measured && good
            &&& gate.status is Fail <==> measured && !good
        }),
{
    lemma_load_of(e.analyzer_loads@, 64, small);
    lemma_load_of(e.analyzer_loads@, 1518, standard);
}

proof fn lemma_extremes(v: Seq<u64>)
    requires
        v.len() > 0,
    ensures
        forall|i: int| 0 <= i < v.len() ==> certification::minimum(v) <= #[trigger] v[i]
            <= certification::maximum(v),
        v.contains(certification::minimum(v)),
        v.contains(certification::maximum(v)),
    decreases v.len(),
{
    let before = v.drop_last();
    assert(v[v.len() - 1] == v.last());
    if before.len() > 0 {
        lemma_extremes(before);
        assert forall|i: int| 0 <= i < v.len() implies certification::minimum(v)
            <= #[trigger] v[i] <= certification::maximum(v) by {
            if i < before.len() {
                assert(before[i] == v[i]);
            }
        }
        let a = choose|k: int| 0 <= k < before.len() && before[k] == certification::minimum(before);
        let b = choose|k: int| 0 <= k < before.len() && before[k] == certification::maximum(before);
        assert(v[a] == before[a]);
        assert(v[b] == before[b]);
    } else {
        assert(certification::minimum(before) == u64::MAX);
        assert(certification::maximum(before) == 0);
    }
}

/// The repetitions have to be as many as is asked for, none of them may be zero, and no two of
/// them may be further apart than is allowed, in millionths of the lower one.
pub proof fn law_repetition_gate(e: CertificationEvidence, p: CertificationPolicy)
    requires
        certification::policy_fault(p) is None,
    ensures
        ({
            let gate = certification::all_gates(e, Some(p))[9];
            &&& gate.status is NotEvaluated <==> e.stability is None
            &&& gate.status is Condition ==> false
            &&& gate.status is Pass <==> (e.stability matches Some(s) && {
                let v = s.repeated_throughput_bits_per_second@;
                &&& v.len() >= p.minimum_repetitions
                &&& forall|i: int| 0 <= i < v.len() ==> #[trigger] v[i] > 0
                &&& forall|i: int, j: int|
                    0 <= i < v.len() && 0 <= j < v.len() ==> (#[trigger] v[i] - #[trigger] v[j])
                        * 1_000_000 < (p.maximum_reproducibility_spread_ppm + 1) * v[j]
            })
        }),
{
    if let Some(s) = e.stability {
        let v = s.repeated_throughput_bits_per_second@;
        if v.len() >= p.minimum_repetitions {
            assert(v.len() > 0);
            lemma_extremes(v);
            let low = certification::minimum(v) as int;
            let high = certification::maximum(v) as int;
            let m = p.maximum_reproducibility_spread_ppm as int;
            let a = choose|k: int| 0 <= k < v.len() && v[k] == low;
            let b = choose|k: int| 0 <= k < v.len() && v[k] == high;
            if low > 0 {
                lemma_spread(high, low, m);
                if certification::spread_ppm(v) <= m {
                    assert forall|i: int, j: int| 0 <= i < v.len() && 0 <= j < v.len() implies (
                    #[trigger] v[i] - #[trigger] v[j]) * 1_000_000 < (m + 1) * v[j] by {
                        lemma_nearer(high, low, v[i] as int, v[j] as int, m);
                    }
                } else {
                    assert((v[b] - v[a]) * 1_000_000 >= (m + 1) * v[a]);
                }
            } else {
                assert(v[a] == 0);
            }
        }
    }
}

proof fn lemma_spread(high: int, low: int, m: int)
    requires
        0 < low <= high,
        m >= 0,
    ensures
        (high - low) * 1_000_000 / low <= m <==> (high - low) * 1_000_000 < (m + 1) * low,
{
    let n = (high - low) * 1_000_000;
    let q = n / low;
    assert(n == low * q + n % low && 0 <= n % low < low) by {
        vstd::arithmetic::div_mod::lemma_fundamental_div_mod(n, low);
        vstd::arithmetic::div_mod::lemma_mod_bound(n, low);
    }
    if q <= m {
        assert(low * q <= low * m) by (nonlinear_arith)
            requires
                q <= m,
                low > 0,
        ;
        assert((m + 1) * low == low * m + low) by (nonlinear_arith);
    } else {
        assert(low * q >= low * (m + 1)) by (nonlinear_arith)
            requires
                q >= m + 1,
                low > 0,
        ;
        assert((m + 1) * low == low * (m + 1)) by (nonlinear_arith);
    }
}

proof fn lemma_nearer(high: int, low: int, x: int, y: int, m: int)
    requires
        low <= x <= high,
        low <= y <= high,
        m >= 0,
        (high - low) * 1_000_000 < (m + 1) * low,
    ensures
        (x - y) * 1_000_000 < (m + 1) * y,
{
    assert((m + 1) * low <= (m + 1) * y) by (nonlinear_arith)
        requires
            low <= y,
            m >= 0,
    ;
}

/// Thresholds are valid exactly where none that is needed is zero, at least two repetitions are
/// asked for, and the spread is at most the whole.
pub proof fn law_valid_thresholds(p: CertificationPolicy)
    ensures
        certification::policy_fault(p) is None <==> {
            &&& p.minimum_throughput_bits_per_second > 0
            &&& p.minimum_short_duration_seconds > 0
            &&& p.minimum_sustained_duration_seconds > 0
            &&& p.minimum_analyzer_throughput_bits_per_second > 0
            &&& p.minimum_repetitions >= 2
            &&& p.maximum_reproducibility_spread_ppm <= 1_000_000
        },
{
}

/// A certificate means that the platform runs, that its environment is fully known, and that
/// what was measured meets every threshold: each of the three throughputs, each cause of drops,
/// both durations, and so on. Without one a platform that runs is validated where that was
/// completed, and else just functional; one that does not run has no support at all.
pub proof fn law_certificate_means_every_threshold_is_met(
    environment: BenchmarkEnvironmentSnapshot,
    e: CertificationEvidence,
    p: CertificationPolicy,
)
    requires
        certification::policy_fault(p) is None,
    ensures
        ({
            let level = certification::support(environment, e, Some(p));
            &&& level is None <==> !e.functional
            &&& level == Some(SupportLevel::Certified100G) ==> {
                &&& environment.key_fault() is None
                &&& e.link_speed_mbps matches Some(speed) && speed >= 100_000
                &&& e.numa_locality_valid == Some(true)
                &&& e.rss_active == Some(true)
                &&& e.rx_queue_distribution_valid == Some(true)
                &&& e.rx_baseline matches Some(rx) && rx.bits_per_second
                    >= p.minimum_throughput_bits_per_second
                &&& e.tx_baseline matches Some(tx) && tx.bits_per_second
                    >= p.minimum_throughput_bits_per_second
                &&& e.bidirectional_bits_per_second matches Some(both) && both
                    >= p.minimum_throughput_bits_per_second
                &&& e.drops matches Some(d) && d.nic <= p.maximum_drops.nic && d.capture
                    <= p.maximum_drops.capture && d.ring <= p.maximum_drops.ring && d.analyzer
                    <= p.maximum_drops.analyzer
                &&& e.cpu is Some
                &&& e.stability matches Some(s) && s.short_duration_seconds
                    >= p.minimum_short_duration_seconds && s.sustained_duration_seconds
                    >= p.minimum_sustained_duration_seconds
                    && s.repeated_throughput_bits_per_second@.len() >= p.minimum_repetitions
                &&& e.thermal matches Some(t) && (t.thermal_throttling
                    ==> p.allow_thermal_throttling_condition)
            }
            &&& level == Some(SupportLevel::Validated) ==> e.general_validation_completed
            &&& level == Some(SupportLevel::Functional) ==> !e.general_validation_completed
            &&& certification::support(environment, e, None) is None <==> !e.functional
            &&& e.functional ==> certification::support(environment, e, None) == Some(
                if e.general_validation_completed {
                    SupportLevel::Validated
                } else {
                    SupportLevel::Functional
                },
            )
        }),
{
    let gates = certification::all_gates(e, Some(p));
    let level = certification::support(environment, e, Some(p));
    if level == Some(SupportLevel::Certified100G) {
        assert(gates[0].status is Pass);
        assert(gates[1].status is Pass);
        assert(gates[2].status is Pass);
        assert(gates[3].status is Pass);
        assert(gates[4].status is Pass);
        assert(gates[5].status is Pass);
        assert(gates[6].status is Pass);
        assert(gates[7].status is Pass);
        assert(gates[8].status is Pass);
        assert(gates[9].status is Pass);
    }
    assert(certification::all_gates(e, None)[3].status is NotEvaluated);
}

} // verus!
