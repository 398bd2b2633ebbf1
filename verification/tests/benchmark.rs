use nettool::benchmark::bench::Bench;
use nettool::benchmark::certification::{
    evaluate_certification, AnalyzerLoadEvidence, BenchmarkDrops, CertificationEvidence,
    CertificationGate, CertificationPolicy, CpuEvidence, GateStatus, RxBaselineEvidence,
    StabilityEvidence, SupportLevel, ThermalEvidence, TxBaselineEvidence,
};
use nettool::benchmark::runner::{
    judge_phase, BenchmarkCancellationToken, BenchmarkIssue, BenchmarkIssueSeverity,
    BenchmarkProfileRegistry, BenchmarkRunState, BenchmarkRunner, PhaseEffect, PhaseExecution,
    PhaseStatus, BENCHMARK_PHASE_EVIDENCE_LIMIT_BYTES,
};
use nettool::benchmark::snapshot::{
    BenchmarkEnvironmentSnapshot, BenchmarkPhase, BenchmarkPlan,
};
use nettool::error::{ErrorCode, NetToolError};

#[test]
fn missing_poc_policy_never_claims_certified() {
    let outcome = evaluate_certification(&environment(), &evidence(), None).expect("outcome");
    assert_eq!(outcome.support_level, Some(SupportLevel::Validated));
    assert!(outcome
        .gates
        .iter()
        .any(|gate| gate.status == GateStatus::NotEvaluated));
}

#[test]
fn complete_evidence_and_explicit_policy_can_certify() {
    let outcome =
        evaluate_certification(&environment(), &evidence(), Some(policy())).expect("outcome");
    assert_eq!(outcome.support_level, Some(SupportLevel::Certified100G));
    assert_eq!(outcome.gates.len(), 10);
    assert!(outcome
        .gates
        .iter()
        .all(|gate| gate.status == GateStatus::Pass));
    assert_eq!(outcome.certification_key.as_deref().map(str::len), Some(64));
}

#[test]
fn one_drop_category_failure_blocks_certification() {
    let mut value = evidence();
    value.drops = Some(BenchmarkDrops {
        nic: 0,
        capture: 1,
        ring: 0,
        analyzer: 0,
    });
    let outcome = evaluate_certification(&environment(), &value, Some(policy())).expect("outcome");
    assert_eq!(outcome.support_level, Some(SupportLevel::Validated));
    assert_eq!(outcome.gates[4].status, GateStatus::Fail);
}

#[test]
fn certification_key_changes_with_platform_component() {
    let first = environment().certification_key().expect("key");
    let mut changed = environment();
    changed.driver = Some("driver-2".to_owned());
    assert_ne!(first, changed.certification_key().expect("changed key"));
}

#[test]
fn thermal_condition_is_preserved_and_policy_controlled() {
    let mut value = evidence();
    value.thermal.as_mut().expect("thermal").thermal_throttling = true;
    let outcome = evaluate_certification(&environment(), &value, Some(policy())).expect("outcome");
    assert_eq!(outcome.gates[7].status, GateStatus::Fail);
    assert_eq!(outcome.conditions, ["thermal_throttling_observed"]);
}

#[test]
fn invalid_policy_is_not_silently_treated_as_missing() {
    let mut invalid_policy = policy();
    invalid_policy.minimum_repetitions = 1;
    assert!(evaluate_certification(&environment(), &evidence(), Some(invalid_policy)).is_err());
}

#[test]
fn benchmark_plan_requires_small_standard_jumbo_and_high_cardinality() {
    let mut plan = BenchmarkPlan {
        profile_id: "100g-cert".to_owned(),
        frame_sizes_bytes: vec![64, 128, 256, 512, 1024, 1518, 9018],
        flow_counts: vec![1, 16, 256, 4096, 1_000_000],
        warmup_seconds: 10,
        measurement_seconds: 60,
        sustained_seconds: 3600,
    };
    plan.validate().expect("complete plan");
    assert_eq!(BenchmarkPlan::phases().len(), 10);
    plan.frame_sizes_bytes.retain(|size| *size != 64);
    assert!(plan.validate().is_err());
}

#[test]
fn tolerated_throttling_is_a_condition() {
    let mut value = evidence();
    value.thermal.as_mut().expect("thermal").thermal_throttling = true;
    let mut tolerant = policy();
    tolerant.allow_thermal_throttling_condition = true;
    let outcome = evaluate_certification(&environment(), &value, Some(tolerant)).expect("outcome");
    assert_eq!(outcome.gates[7].status, GateStatus::Pass);
    assert!(outcome.gates[7].gate == CertificationGate::H);
    assert_eq!(outcome.conditions, ["thermal_throttling_observed"]);
    let undecided = evaluate_certification(&environment(), &value, None).expect("outcome");
    assert_eq!(undecided.gates[7].status, GateStatus::Condition);
}

#[test]
fn unstable_or_zero_measurements_fail_reproducibility() {
    let mut value = evidence();
    value
        .stability
        .as_mut()
        .expect("stability")
        .repeated_throughput_bits_per_second = vec![95_000_000_000, 99_000_000_000, 95_000_000_000];
    let outcome = evaluate_certification(&environment(), &value, Some(policy())).expect("outcome");
    assert_eq!(outcome.gates[9].status, GateStatus::Fail);
    assert_eq!(outcome.gates[9].reason, "repeated results are unstable");
    value
        .stability
        .as_mut()
        .expect("stability")
        .repeated_throughput_bits_per_second = vec![0, 1, 2];
    let outcome = evaluate_certification(&environment(), &value, Some(policy())).expect("outcome");
    assert_eq!(
        outcome.gates[9].reason,
        "a repeated throughput measurement is zero"
    );
}

#[test]
fn incomplete_environments_have_no_key() {
    let mut snapshot = environment();
    snapshot.firmware = None;
    snapshot.rss = Some("  ".to_owned());
    let missing = snapshot.missing_fields();
    assert!(missing.contains(&"firmware"));
    assert!(snapshot.certification_key().is_err());
}

#[test]
fn keys_are_the_digest_of_every_field() {
    let key = environment().certification_key().expect("key");
    assert_eq!(key.len(), 64);
    assert!(key.bytes().all(|b| b.is_ascii_hexdigit() && !b.is_ascii_uppercase()));
    assert_eq!(key, environment().certification_key().expect("same key"));
    let mut moved = environment();
    moved.os = Some("linux6".to_owned());
    moved.kernel = Some(".x".to_owned());
    assert_ne!(key, moved.certification_key().expect("other key"));
}

fn environment() -> BenchmarkEnvironmentSnapshot {
    BenchmarkEnvironmentSnapshot {
        os: Some("linux".to_owned()),
        kernel: Some("6.x".to_owned()),
        cpu: Some("cpu".to_owned()),
        cpu_frequency: Some("3GHz".to_owned()),
        numa: Some("node0".to_owned()),
        memory: Some("128GiB".to_owned()),
        huge_pages: Some("1GiB x 8".to_owned()),
        nic: Some("100GbE NIC".to_owned()),
        pcie: Some("Gen4 x16".to_owned()),
        firmware: Some("1.0".to_owned()),
        driver: Some("driver-1".to_owned()),
        dpdk_version: Some("24.11".to_owned()),
        backend: Some("dpdk".to_owned()),
        mtu: Some(1500),
        rx_queues: Some(4),
        tx_queues: Some(4),
        rss: Some("enabled".to_owned()),
        offloads: Some("none".to_owned()),
    }
}

fn evidence() -> CertificationEvidence {
    CertificationEvidence {
        functional: true,
        general_validation_completed: true,
        link_speed_mbps: Some(100_000),
        numa_locality_valid: Some(true),
        rss_active: Some(true),
        rx_queue_distribution_valid: Some(true),
        rx_baseline: Some(RxBaselineEvidence {
            bits_per_second: 95_000_000_000,
            packets_per_second: 10_000_000,
            nic_drops: 0,
            application_drops: 0,
            cpu_basis_points: 7000,
        }),
        tx_baseline: Some(TxBaselineEvidence {
            bits_per_second: 95_000_000_000,
            packets_per_second: 10_000_000,
            cpu_basis_points: 7000,
            tx_errors: 0,
            queue_utilization_basis_points: 8000,
        }),
        bidirectional_bits_per_second: Some(95_000_000_000),
        drops: Some(BenchmarkDrops {
            nic: 0,
            capture: 0,
            ring: 0,
            analyzer: 0,
        }),
        cpu: Some(CpuEvidence {
            total_cpu_basis_points: 8000,
            data_plane_cores: 4,
            bits_per_second_per_core: 25_000_000_000,
            packets_per_second_per_core: 10_000_000,
        }),
        stability: Some(StabilityEvidence {
            short_duration_seconds: 60,
            sustained_duration_seconds: 3600,
            repeated_throughput_bits_per_second: vec![
                95_000_000_000,
                95_100_000_000,
                95_050_000_000,
            ],
        }),
        thermal: Some(ThermalEvidence {
            cpu_frequency_start: "3GHz".to_owned(),
            cpu_frequency_minimum: "3GHz".to_owned(),
            nic_state: "normal".to_owned(),
            thermal_throttling: false,
        }),
        analyzer_loads: vec![
            AnalyzerLoadEvidence {
                frame_bytes: 64,
                throughput_bits_per_second: 90_000_000_000,
                analyzer_drops: 0,
            },
            AnalyzerLoadEvidence {
                frame_bytes: 1518,
                throughput_bits_per_second: 90_000_000_000,
                analyzer_drops: 0,
            },
        ],
    }
}

fn policy() -> CertificationPolicy {
    CertificationPolicy {
        minimum_throughput_bits_per_second: 90_000_000_000,
        maximum_drops: BenchmarkDrops {
            nic: 0,
            capture: 0,
            ring: 0,
            analyzer: 0,
        },
        minimum_short_duration_seconds: 60,
        minimum_sustained_duration_seconds: 3600,
        minimum_repetitions: 3,
        maximum_reproducibility_spread_ppm: 2_000,
        minimum_analyzer_throughput_bits_per_second: 80_000_000_000,
        maximum_analyzer_drops: 0,
        allow_thermal_throttling_condition: false,
    }
}

fn empty_object() -> Vec<u8> {
    b"{}".to_vec()
}

#[test]
fn runs_all_phases_in_fixed_order_and_is_single_use() {
    let profile = BenchmarkProfileRegistry::get("functional-default").expect("profile");
    let mut runner =
        BenchmarkRunner::new(profile.plan, BenchmarkCancellationToken::new()).expect("runner");
    let mut now = 0;
    let report = runner
        .run(&mut Bench::new(|phase, _| {
                Ok(PhaseExecution::successful(
                    format!("{{\"phase\":\"{phase:?}\"}}").into_bytes(),
                ))
            },
            || {
                now += 1;
                now
            }))
        .expect("report");
    assert_eq!(report.state, BenchmarkRunState::Completed);
    assert_eq!(report.phases.len(), 10);
    assert_eq!(report.phases[0].phase, BenchmarkPhase::EnvironmentCheck);
    assert_eq!(report.phases[9].phase, BenchmarkPhase::Result);
    assert!(runner.run(&mut Bench::new(|_, _| unreachable!(), || 0)).is_err());
}

#[test]
fn cancel_at_boundary_preserves_completed_and_skips_remaining() {
    let token = BenchmarkCancellationToken::new();
    let callback_token = token.clone();
    let profile = BenchmarkProfileRegistry::get("functional-default").expect("profile");
    let mut runner = BenchmarkRunner::new(profile.plan, token).expect("runner");
    let report = runner
        .run(&mut Bench::new(|phase, _| {
                if phase == BenchmarkPhase::RxBaseline {
                    callback_token.cancel();
                }
                Ok(PhaseExecution::successful(empty_object()))
            },
            || 1))
        .expect("report");
    assert_eq!(report.state, BenchmarkRunState::Canceled);
    assert_eq!(report.phases[2].status, PhaseStatus::Completed);
    assert!(report.phases[3..]
        .iter()
        .all(|phase| phase.status == PhaseStatus::Skipped));
}

#[test]
fn fatal_issue_stops_run_while_degraded_issue_only_marks_report() {
    let profile = BenchmarkProfileRegistry::get("functional-default").expect("profile");
    let mut fatal_runner =
        BenchmarkRunner::new(profile.plan.clone(), BenchmarkCancellationToken::new())
            .expect("runner");
    let fatal = fatal_runner
        .run(&mut Bench::new(|phase, _| {
                Ok(PhaseExecution {
                    evidence: empty_object(),
                    issues: if phase == BenchmarkPhase::TxBaseline {
                        vec![issue(BenchmarkIssueSeverity::Fatal)]
                    } else {
                        Vec::new()
                    },
                })
            },
            || 1))
        .expect("fatal report");
    assert_eq!(fatal.state, BenchmarkRunState::Failed);
    assert_eq!(fatal.phases[3].status, PhaseStatus::Failed);

    let mut degraded_runner =
        BenchmarkRunner::new(profile.plan, BenchmarkCancellationToken::new()).expect("runner");
    let degraded = degraded_runner
        .run(&mut Bench::new(|phase, _| {
                Ok(PhaseExecution {
                    evidence: empty_object(),
                    issues: if phase == BenchmarkPhase::AnalysisTest {
                        vec![issue(BenchmarkIssueSeverity::Degraded)]
                    } else {
                        Vec::new()
                    },
                })
            },
            || 1))
        .expect("degraded report");
    assert_eq!(degraded.state, BenchmarkRunState::CompletedDegraded);
}

#[test]
fn builtin_cert_profile_has_no_invented_policy() {
    let profile = BenchmarkProfileRegistry::get("100g-cert").expect("profile");
    profile.plan.validate().expect("plan");
    assert_eq!(profile.certification_policy, None);
}

#[test]
fn unknown_profiles_do_not_exist() {
    for id in BenchmarkProfileRegistry::ids() {
        assert!(BenchmarkProfileRegistry::get(id).is_some());
    }
    assert!(BenchmarkProfileRegistry::get("other").is_none());
}

#[test]
fn phases_are_judged_by_what_they_return() {
    let failed = NetToolError::new(ErrorCode::ProbeFailed, "no link", false);
    let (record, effect) = judge_phase(BenchmarkPhase::NicBaseline, 3, 4, Err(failed));
    assert!(effect == PhaseEffect::Stop);
    assert_eq!(record.status, PhaseStatus::Failed);
    assert_eq!(record.error_message.as_deref(), Some("no link"));
    assert_eq!(record.started_monotonic_nanoseconds, Some(3));
    let large = PhaseExecution::successful(vec![0; BENCHMARK_PHASE_EVIDENCE_LIMIT_BYTES + 1]);
    assert!(large.validate().is_err());
    let (_, effect) = judge_phase(BenchmarkPhase::NicBaseline, 3, 4, Ok(large));
    assert!(effect == PhaseEffect::Stop);
    let (record, effect) = judge_phase(
        BenchmarkPhase::NicBaseline,
        3,
        4,
        Ok(PhaseExecution::successful(empty_object())),
    );
    assert!(effect == PhaseEffect::Continue);
    assert_eq!(record.evidence, Some(empty_object()));
}

#[test]
fn clocks_that_run_backwards_end_the_run() {
    let profile = BenchmarkProfileRegistry::get("functional-default").expect("profile");
    let mut runner =
        BenchmarkRunner::new(profile.plan, BenchmarkCancellationToken::new()).expect("runner");
    let mut now = 100;
    let error = runner
        .run(&mut Bench::new(|_, _| Ok(PhaseExecution::successful(empty_object())),
            || {
                now -= 1;
                now
            }))
        .expect_err("clock");
    assert_eq!(error.message, "benchmark monotonic clock moved backwards");
}

#[test]
fn clocks_that_step_back_between_phases_end_the_run() {
    let profile = BenchmarkProfileRegistry::get("functional-default").expect("profile");
    let mut runner =
        BenchmarkRunner::new(profile.plan, BenchmarkCancellationToken::new()).expect("runner");
    let readings = [10, 11, 1, 2];
    let mut next = 0;
    let mut executed = Vec::new();
    let error = runner
        .run(&mut Bench::new(
            |phase, _| {
                executed.push(phase);
                Ok(PhaseExecution::successful(empty_object()))
            },
            || {
                next += 1;
                readings[next - 1]
            },
        ))
        .expect_err("clock");
    assert_eq!(error.code, ErrorCode::InvalidState);
    assert_eq!(executed, [BenchmarkPhase::EnvironmentCheck]);
    assert_eq!(next, 3);
}

fn issue(severity: BenchmarkIssueSeverity) -> BenchmarkIssue {
    BenchmarkIssue {
        code: "TEST.ISSUE".to_owned(),
        severity,
        message: "test issue".to_owned(),
    }
}
