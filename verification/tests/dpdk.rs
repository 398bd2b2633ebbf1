use nettool::domain::{NicBusType, NicProbe, Platform, ProbeReport};
use nettool::dpdk::environment::{
    collect_linux_environment, is_numbered_name, meminfo_value, numbered_entries,
    parse_rss_evidence, resolve_management_pci_from_route, valid_pci_address,
    LinuxBenchmarkSnapshotRequest, LinuxReadings, RssEvidence,
};
use nettool::dpdk::executor::{
    count_accepted, count_received, native_executor_unavailable, next_burst, plan_setup,
    runtime_arguments, Direction, Duration, NativeDpdkExecutionRequest,
    NativeDpdkReceiveRequest,
};
use nettool::dpdk::planning::{
    plan_queues, required_mbufs, DataPlaneCpu, MbufPoolSizing, NicQueueCapacity, QueuePlan,
    QueueSelection, RxQueueAssignment,
};
use nettool::dpdk::preflight::{
    evaluate_af_xdp_preflight, evaluate_preflight, AfXdpPreflightRequest, DpdkPreflightRequest,
    PreflightSeverity,
};
use nettool::dpdk::probe::{
    assemble_report, is_backend_built, nics_from_lines, nics_from_word_list, probe_elsewhere,
    probe_linux, sort_by_name, LinuxProbeReadings, RawNic,
};
use nettool::dpdk_safe::{
    backend_not_built, check_burst, check_packet, check_template_burst, decode_xstats,
    error_number_of, is_native_dpdk_built, runtime_failure, validate_mempool, validate_port,
    DpdkFeatures, MempoolConfiguration, PortConfiguration, PortState, QueueOwnership, RxDescriptor,
};
use nettool::error::ErrorCode;

fn nic(name: &str) -> NicProbe {
    NicProbe {
        name: name.to_owned(),
        ip_addresses: Vec::new(),
        pci_address: Some("0000:01:00.0".to_owned()),
        bus_type: NicBusType::Unknown,
        driver: None,
        link_speed_mbps: None,
        rx_queues: None,
        tx_queues: None,
        numa_node: None,
    }
}

fn readings() -> LinuxReadings {
    LinuxReadings {
        device_name: Some("0000:01:00.0".to_owned()),
        os_release: Ok("PRETTY_NAME=\"Test Linux\"\n".to_owned()),
        cpuinfo: Ok("model name : Test CPU\ncpu MHz : 3000.000\n".to_owned()),
        meminfo: Ok(
            "MemTotal: 1024 kB\nHugePages_Total: 8\nHugePages_Free: 4\nHugepagesize: 1048576 kB\n"
                .to_owned(),
        ),
        driver: Some("vfio-pci".to_owned()),
        driver_version: Some("1.0".to_owned()),
        vendor: Some("0x1234".to_owned()),
        device: Some("0x5678".to_owned()),
        link_speed: Some("16.0 GT/s".to_owned()),
        link_width: Some("16".to_owned()),
        firmware: Some("1.2.3".to_owned()),
        node_entries: Some(vec!["node0".to_owned()]),
        numa_node: Some("0".to_owned()),
        cpu_frequency: Some("3000000".to_owned()),
        kernel: Some("6.1-test".to_owned()),
        mtu: Some("1500".to_owned()),
        queue_entries: Some(vec!["rx-0".to_owned(), "tx-0".to_owned()]),
    }
}

fn snapshot_request() -> LinuxBenchmarkSnapshotRequest {
    LinuxBenchmarkSnapshotRequest {
        interface_name: "eth0".to_owned(),
        pci_address: "0000:01:00.0".to_owned(),
        backend: "dpdk 24.11".to_owned(),
        dpdk_version: Some("24.11".to_owned()),
        verified_rss: Some("enabled:1 queues".to_owned()),
        verified_offloads: Some("checksum=off".to_owned()),
    }
}

#[test]
fn collects_complete_snapshot_from_injected_sysroot() {
    let result = collect_linux_environment(&readings(), &snapshot_request()).expect("collection");
    assert!(
        result.snapshot.missing_fields().is_empty(),
        "{:?}",
        result.warnings
    );
    assert!(result.snapshot.certification_key().is_ok());
}

#[test]
fn rejects_path_traversal_and_keeps_unverified_fields_missing() {
    let invalid = LinuxBenchmarkSnapshotRequest {
        interface_name: "../eth0".to_owned(),
        pci_address: "0000:01:00.0".to_owned(),
        backend: "dpdk".to_owned(),
        dpdk_version: None,
        verified_rss: None,
        verified_offloads: None,
    };
    assert!(collect_linux_environment(&readings(), &invalid).is_err());
}

#[test]
fn unreadable_files_leave_fields_missing_with_a_warning() {
    let mut partial = readings();
    partial.firmware = None;
    partial.mtu = Some("large".to_owned());
    partial.os_release = Err("gone".to_owned());
    let result = collect_linux_environment(&partial, &snapshot_request()).expect("collection");
    let missing = result.snapshot.missing_fields();
    assert!(missing.contains(&"firmware"));
    assert!(missing.contains(&"mtu"));
    assert!(missing.contains(&"os"));
    assert!(!result.warnings.is_empty());
    assert!(result.snapshot.certification_key().is_err());
}

#[test]
fn parses_rss_evidence_without_accepting_free_text() {
    assert_eq!(
        parse_rss_evidence("enabled:4 queues").expect("rss"),
        RssEvidence {
            active: true,
            queue_count: Some(4),
        }
    );
    assert_eq!(
        parse_rss_evidence("disabled").expect("rss"),
        RssEvidence {
            active: false,
            queue_count: None,
        }
    );
    assert!(parse_rss_evidence("enabled:four queues").is_err());
    assert!(parse_rss_evidence("driver says enabled").is_err());
}

#[test]
fn resolves_management_pci_only_from_default_route_and_known_nic() {
    let nics = vec![nic("eth0")];
    let route = "Iface\tDestination\tGateway\neth0\t00000000\t0100007F\n";
    assert_eq!(
        resolve_management_pci_from_route(route, &nics).as_deref(),
        Some("0000:01:00.0")
    );
    assert!(resolve_management_pci_from_route(
        "Iface\tDestination\tGateway\neth0\t0001\t0\n",
        &nics
    )
    .is_none());
}

fn plan() -> QueuePlan {
    QueuePlan {
        numa_node: 0,
        rx_queues: 1,
        tx_queues: 1,
        rx_assignments: vec![RxQueueAssignment {
            queue_id: 0,
            logical_cpu: 0,
        }],
    }
}

#[test]
fn rejects_invalid_native_executor_request() {
    assert!(NativeDpdkExecutionRequest {
        pci_address: String::new(),
        frame_size: 64,
        packets: 1,
        queue_plan: plan(),
        frame_template: vec![0; 64],
    }
    .validate()
    .is_err());
    assert!(NativeDpdkReceiveRequest {
        pci_address: "0000:01:00.0".to_owned(),
        duration: Duration::zero(),
        queue_plan: plan(),
    }
    .validate()
    .is_err());
    assert!(NativeDpdkExecutionRequest {
        pci_address: "eth0".to_owned(),
        frame_size: 64,
        packets: 1,
        queue_plan: plan(),
        frame_template: vec![0; 64],
    }
    .validate()
    .is_err());
    assert!(NativeDpdkExecutionRequest {
        pci_address: "0000:01:00.0".to_owned(),
        frame_size: 63,
        packets: 1,
        queue_plan: plan(),
        frame_template: vec![0; 63],
    }
    .validate()
    .is_err());
}

#[test]
fn a_build_claims_the_runtime_that_it_is_linked_with() {
    let declared = DpdkFeatures {
        ffi_api: true,
        native_dpdk: false,
    };
    let linked = DpdkFeatures {
        ffi_api: true,
        native_dpdk: true,
    };
    assert!(!is_backend_built(DpdkFeatures::default()));
    assert!(!is_backend_built(declared));
    assert!(is_backend_built(linked));
    assert!(is_native_dpdk_built(linked));
    let without = native_executor_unavailable(DpdkFeatures::default());
    assert_eq!(without.code, ErrorCode::BackendNotBuilt);
    assert_eq!(
        without.message,
        "DPDK support requires a build with the native-dpdk feature and libdpdk SDK"
    );
    let unlinked = native_executor_unavailable(declared);
    assert_eq!(unlinked.code, ErrorCode::BackendNotBuilt);
    assert_eq!(
        unlinked.message,
        "DPDK executor requires a build with the native-dpdk feature and libdpdk SDK"
    );
    assert!(!unlinked.retryable);
}

#[test]
fn bursts_are_what_is_left() {
    assert_eq!(next_burst(1000, 0), 64);
    assert_eq!(next_burst(1000, 990), 10);
    assert_eq!(count_accepted(5, 3).expect("count"), 8);
    assert!(count_accepted(5, 0).is_err());
    assert_eq!(count_received(5, 7), 12);
}

#[test]
fn setups_follow_the_plan() {
    let arguments = runtime_arguments(Direction::Transmit, "0000:01:00.0");
    assert!(arguments.iter().any(|argument| argument == "0000:01:00.0"));
    let (pool, port) = plan_setup(&plan(), Direction::Transmit, 3).expect("setup");
    assert_eq!(port.port_id, 3);
    assert_eq!(port.tx_queues, 1);
    assert!(validate_mempool(&pool).is_ok());
    assert!(validate_port(port).is_ok());
}

#[test]
fn parses_meminfo_values() {
    assert_eq!(
        meminfo_value("HugePages_Total:  16\n", "HugePages_Total:"),
        Some(16)
    );
}

#[test]
fn accepts_only_numbered_sysfs_entries() {
    assert!(is_numbered_name("node12", "node"));
    assert!(!is_numbered_name("nodepossible", "node"));
}

#[test]
fn numbered_entries_are_counted() {
    let names = ["rx-0", "rx-1", "tx-0", "rx-x"].map(str::to_owned);
    assert_eq!(numbered_entries(&names, "rx-"), Some(2));
    assert!(valid_pci_address("0000:01:00.0"));
    assert!(!valid_pci_address("0000:01:00"));
}

fn report() -> ProbeReport {
    let mut first = nic("dpdk0");
    first.driver = Some("vfio-pci".to_owned());
    first.link_speed_mbps = Some(100_000);
    first.rx_queues = Some(8);
    first.tx_queues = Some(8);
    first.numa_node = Some(0);
    ProbeReport {
        schema_version: "1.0",
        platform: Platform::Linux,
        logical_cpus: 16,
        numa_nodes: Some(2),
        huge_pages_total: Some(16),
        huge_pages_free: Some(8),
        huge_page_size_kib: Some(2048),
        nics: vec![first],
        dpdk_capable: true,
        af_xdp_capable: true,
        af_xdp_zero_copy_capable: false,
        warnings: Vec::new(),
    }
}

fn request(certification_mode: bool) -> DpdkPreflightRequest {
    DpdkPreflightRequest {
        pci_address: "0000:01:00.0".to_owned(),
        management_pci_address: None,
        rx_queues: 4,
        tx_queues: 4,
        worker_numa_node: Some(0),
        worker_cpus: vec![2, 3, 4, 5],
        required_huge_pages: 4,
        certification_mode,
    }
}

#[test]
fn valid_environment_is_certifiable() {
    let result = evaluate_preflight(&report(), &request(true));
    assert!(result.can_run);
    assert!(result.certifiable);
    assert!(result
        .checks
        .iter()
        .all(|check| check.severity == PreflightSeverity::Pass));
}

#[test]
fn wrong_numa_warns_normally_but_fails_certification() {
    let mut normal = request(false);
    normal.worker_numa_node = Some(1);
    let normal_result = evaluate_preflight(&report(), &normal);
    assert!(normal_result.can_run);
    assert!(!normal_result.certifiable);
    let mut certified = normal;
    certified.certification_mode = true;
    assert!(!evaluate_preflight(&report(), &certified).can_run);
}

#[test]
fn missing_huge_pages_prevents_certification() {
    let mut environment = report();
    environment.huge_pages_free = Some(0);
    let result = evaluate_preflight(&environment, &request(true));
    assert!(!result.can_run);
    assert!(!result.certifiable);
}

#[test]
fn duplicate_or_out_of_range_cpu_mapping_fails() {
    let mut requested = request(false);
    requested.worker_cpus = vec![2, 2, 99];
    assert!(!evaluate_preflight(&report(), &requested).can_run);
}

#[test]
fn management_nic_is_rejected_when_explicitly_identified() {
    let mut request = request(false);
    request.management_pci_address = Some(request.pci_address.clone());
    let result = evaluate_preflight(&report(), &request);
    assert!(!result.can_run);
    assert_eq!(
        result
            .checks
            .iter()
            .find(|check| check.id == "MANAGEMENT_NIC_PROTECTION")
            .map(|check| check.severity),
        Some(PreflightSeverity::Fail)
    );
}

#[test]
fn af_xdp_requires_queue_and_zero_copy_evidence_when_requested() {
    let mut environment = report();
    environment.nics[0].name = "eth0".to_owned();
    let request = AfXdpPreflightRequest {
        interface_name: "eth0".to_owned(),
        queue_id: 3,
        require_zero_copy: true,
    };
    let result = evaluate_af_xdp_preflight(&environment, &request);
    assert!(!result.can_run);
    assert!(!result.zero_copy_ready);
    assert!(result.checks.iter().any(|check| {
        check.id == "AF_XDP_ZERO_COPY" && check.severity == PreflightSeverity::Fail
    }));

    environment.af_xdp_zero_copy_capable = true;
    let result = evaluate_af_xdp_preflight(&environment, &request);
    assert!(result.can_run);
    assert!(result.zero_copy_ready);
}

#[test]
fn af_xdp_compatibility_mode_warns_without_zero_copy() {
    let mut environment = report();
    environment.nics[0].name = "eth0".to_owned();
    let result = evaluate_af_xdp_preflight(
        &environment,
        &AfXdpPreflightRequest {
            interface_name: "eth0".to_owned(),
            queue_id: 0,
            require_zero_copy: false,
        },
    );
    assert!(result.can_run);
    assert!(result.checks.iter().any(|check| {
        check.id == "AF_XDP_ZERO_COPY" && check.severity == PreflightSeverity::Warn
    }));
}

fn cpus() -> Vec<DataPlaneCpu> {
    vec![
        DataPlaneCpu {
            logical_id: 8,
            numa_node: 0,
        },
        DataPlaneCpu {
            logical_id: 4,
            numa_node: 0,
        },
        DataPlaneCpu {
            logical_id: 6,
            numa_node: 0,
        },
        DataPlaneCpu {
            logical_id: 20,
            numa_node: 1,
        },
    ]
}

#[test]
fn auto_plan_uses_smallest_real_capacity_and_stable_cpu_order() {
    let plan = plan_queues(
        0,
        NicQueueCapacity {
            receive: 16,
            transmit: 8,
        },
        &cpus(),
        4,
        QueueSelection::Auto,
    )
    .expect("plan");
    assert_eq!(plan.rx_queues, 3);
    assert_eq!(plan.tx_queues, 3);
    assert_eq!(
        plan.rx_assignments
            .iter()
            .map(|item| item.logical_cpu)
            .collect::<Vec<_>>(),
        vec![4, 6, 8]
    );
}

#[test]
fn explicit_plan_rejects_cross_numa_or_excess_queues() {
    let capacity = NicQueueCapacity {
        receive: 16,
        transmit: 16,
    };
    assert!(plan_queues(0, capacity, &cpus(), 16, QueueSelection::Explicit(4)).is_err());
    assert!(plan_queues(2, capacity, &cpus(), 16, QueueSelection::Explicit(1)).is_err());
}

#[test]
fn duplicate_cpu_cannot_own_multiple_queues() {
    let duplicated = vec![
        DataPlaneCpu {
            logical_id: 4,
            numa_node: 0,
        },
        DataPlaneCpu {
            logical_id: 4,
            numa_node: 0,
        },
    ];
    assert!(plan_queues(
        0,
        NicQueueCapacity {
            receive: 2,
            transmit: 2,
        },
        &duplicated,
        2,
        QueueSelection::Auto,
    )
    .is_err());
}

#[test]
fn queue_plan_validation_rejects_non_contiguous_ownership() {
    let mut plan = plan_queues(
        0,
        NicQueueCapacity {
            receive: 2,
            transmit: 2,
        },
        &cpus(),
        2,
        QueueSelection::Explicit(2),
    )
    .expect("plan");
    plan.rx_assignments[1].queue_id = 3;
    assert!(plan.validate().is_err());
}

#[test]
fn sizes_pool_from_every_required_component() {
    let count = required_mbufs(MbufPoolSizing {
        rx_queues: 4,
        rx_descriptors_per_queue: 1024,
        tx_queues: 4,
        tx_descriptors_per_queue: 512,
        burst_size: 64,
        pipeline_depth: 2,
        capture_buffers: 2048,
        safety_margin: 1024,
    })
    .expect("size");
    assert_eq!(count, 9_728);
}

#[test]
fn refuses_zero_or_overflowing_inputs() {
    let mut sizing = MbufPoolSizing {
        rx_queues: 1,
        rx_descriptors_per_queue: 1,
        tx_queues: 1,
        tx_descriptors_per_queue: 1,
        burst_size: 1,
        pipeline_depth: 1,
        capture_buffers: 0,
        safety_margin: 1,
    };
    sizing.burst_size = 0;
    assert!(required_mbufs(sizing).is_err());
    sizing.burst_size = u32::MAX;
    sizing.pipeline_depth = u32::MAX;
    sizing.rx_queues = u32::MAX;
    assert!(required_mbufs(sizing).is_err());
}

#[test]
fn queue_ownership_is_exclusive_until_release() {
    let mut ownership = QueueOwnership::default();
    assert!(ownership.claim(3));
    assert!(!ownership.claim(3));
    ownership.release(3);
    assert!(ownership.claim(3));
}

#[test]
fn default_build_does_not_claim_native_dpdk() {
    assert!(!is_native_dpdk_built(DpdkFeatures::default()));
    assert_eq!(backend_not_built().code, ErrorCode::BackendNotBuilt);
}

#[test]
fn ports_hand_out_each_queue_once_and_only_when_started() {
    let configuration = PortConfiguration {
        port_id: 0,
        rx_queues: 2,
        tx_queues: 1,
        rx_descriptors: 1024,
        tx_descriptors: 1024,
        socket_id: 0,
    };
    let mut port = PortState::configure(configuration).expect("port");
    assert!(port.claim_rx(0, 32).is_err());
    port.start().expect("start");
    port.claim_rx(0, 32).expect("claim");
    assert!(port.claim_rx(0, 32).is_err());
    assert!(port.claim_rx(2, 32).is_err());
    port.release_rx(0);
    port.claim_rx(0, 32).expect("claim again");
    port.claim_tx(0).expect("tx");
    assert!(port.claim_tx(0).is_err());
    port.release_tx(0);
    port.claim_tx(0).expect("tx again");
    port.require_started_for_statistics().expect("statistics");
    port.require_started_for_xstats().expect("xstats");
}

#[test]
fn pools_packets_and_bursts_are_checked() {
    let pool = MempoolConfiguration {
        name: String::new(),
        count: 1024,
        cache_size: 0,
        data_room_size: 2048,
        socket_id: 0,
    };
    assert!(validate_mempool(&pool).is_err());
    assert_eq!(check_burst(4, 32).expect("burst"), 4);
    assert!(check_burst(33, 32).is_err());
    assert_eq!(check_template_burst(&[0; 64], 32).expect("template"), 64);
    assert!(check_template_burst(&[], 32).is_err());
    let good = RxDescriptor {
        has_buffer: true,
        has_data: true,
        data_len: 60,
        packet_len: 64,
        rss_hash: 7,
        offload_flags: 1,
    };
    let metadata = check_packet(3, good).expect("packet");
    assert_eq!(
        (metadata.queue_id, metadata.captured_length, metadata.packet_length),
        (3, 60, 64)
    );
    assert!(check_packet(3, RxDescriptor { has_data: false, ..good }).is_err());
}

#[test]
fn statistics_are_named_and_errors_are_numbered() {
    let mut names = vec![0_u8; 256];
    names[..3].copy_from_slice(b"rx0");
    names[128..131].copy_from_slice(b"tx0");
    let stats = decode_xstats(&names, &[5, 6]).expect("xstats");
    assert_eq!(stats.len(), 2);
    assert_eq!((stats[1].name.as_str(), stats[1].value), ("tx0", 6));
    names[0] = 0xff;
    assert!(decode_xstats(&names, &[5, 6]).is_err());
    assert_eq!(error_number_of(-22), 22);
    assert!(runtime_failure("open", "no device", 19).message.contains("no device"));
}

#[test]
fn probes_sort_and_classify_interfaces() {
    let raw = |name: &str, pci: Option<&str>| RawNic {
        name: name.to_owned(),
        pci_address: pci.map(str::to_owned),
        driver: None,
        speed: Some("1000\n".to_owned()),
        queues: Some(vec!["rx-0".to_owned()]),
        numa_node: Some("-1\n".to_owned()),
    };
    let findings = probe_linux(LinuxProbeReadings {
        nics: vec![raw("eth1", None), raw("eth0", Some("0000:01:00.0"))],
        skipped: Vec::new(),
        meminfo: Some("HugePages_Total: 4\nHugePages_Free: 3\nHugepagesize: 2048 kB\n".to_owned()),
        meminfo_error: String::new(),
        nodes: Some(vec!["node0".to_owned(), "node1".to_owned()]),
    });
    assert_eq!(findings.numa_nodes, Some(2));
    assert_eq!(findings.huge_pages_free, Some(3));
    let report = assemble_report(Platform::Linux, 8, findings, true, false);
    let names: Vec<&str> = report.nics.iter().map(|nic| nic.name.as_str()).collect();
    assert_eq!(names, ["eth0", "eth1"]);
    assert_eq!(report.nics[0].link_speed_mbps, Some(1000));
    let sorted = sort_by_name(vec![nic("b"), nic("a")]);
    assert_eq!(sorted[0].name, "a");
    assert_eq!(nics_from_word_list("en0 en1 lo0").len(), 3);
    assert_eq!(nics_from_lines("Ethernet\n\nWi-Fi\n").len(), 2);
    let elsewhere = probe_elsewhere(vec![nic("en0")], Vec::new());
    assert_eq!(elsewhere.nics.len(), 1);
}
