use nettool::dpdk::executor::{Duration, NativeDpdkExecutionRequest, NativeDpdkReceiveRequest};
use nettool::dpdk::native::{
    execute_native_rx, execute_native_tx, run_native_rx, run_native_tx,
};
use nettool::dpdk::planning::{QueuePlan, RxQueueAssignment};
use nettool::dpdk_safe::native::{
    BurstReply, Environment, LookupReply, NativeDriver, Port, RxQueue, StatsReply, XstatsReply,
};
use nettool::dpdk_safe::runtime::{Clock, Discard, PacketTaker, Runtime, Taker, Timer};
use nettool::dpdk_safe::{
    DpdkFeatures, MempoolConfiguration, PacketMetadata, PortConfiguration, PortStats, RxDescriptor,
    XSTAT_NAME_WIDTH,
};
use nettool::error::ErrorCode;
use std::cell::{Cell, RefCell};

/// A driver that records what is asked of it.
struct Driver {
    calls: RefCell<Vec<String>>,
    owned: Cell<bool>,
    failing: &'static str,
    accepted: u16,
    received: u16,
    packets: Vec<RxDescriptor>,
    names: Vec<&'static str>,
    measured: i32,
}

const PACKET: RxDescriptor = RxDescriptor {
    has_buffer: true,
    has_data: true,
    data_len: 60,
    packet_len: 60,
    rss_hash: 9,
    offload_flags: 0,
};

fn driver() -> Driver {
    Driver {
        calls: RefCell::new(Vec::new()),
        owned: Cell::new(false),
        failing: "",
        accepted: 50,
        received: 2,
        packets: vec![PACKET, PACKET],
        names: vec!["rx_good", "tx_good"],
        measured: 2,
    }
}

impl Driver {
    fn note(&self, call: &str) -> i32 {
        self.calls.borrow_mut().push(call.to_owned());
        if call.starts_with(self.failing) && !self.failing.is_empty() {
            -19
        } else {
            0
        }
    }

    fn seen(&self) -> Vec<String> {
        self.calls.borrow().clone()
    }
}

impl NativeDriver for Driver {
    fn claim_runtime(&mut self) -> bool {
        !self.owned.replace(true)
    }

    fn release_runtime(&mut self) {
        self.owned.set(false);
    }

    fn eal_init(&mut self, arguments: &[String]) -> i32 {
        self.note(&format!("init {}", arguments.join(" ")))
    }

    fn eal_cleanup(&mut self) {
        self.note("cleanup");
    }

    fn port_count(&mut self) -> u16 {
        2
    }

    fn port_by_name(&mut self, name: &str) -> LookupReply {
        LookupReply {
            result: self.note(&format!("lookup {name}")),
            port_id: 3,
        }
    }

    fn mempool_create(&mut self, configuration: &MempoolConfiguration) -> Option<usize> {
        if self.note(&format!("pool {}", configuration.name)) < 0 {
            None
        } else {
            Some(77)
        }
    }

    fn mempool_free(&mut self, pool: usize) {
        self.note(&format!("unpool {pool}"));
    }

    fn port_configure(&mut self, configuration: PortConfiguration, pool: usize) -> i32 {
        self.note(&format!("configure {} {pool}", configuration.port_id))
    }

    fn port_start(&mut self, port_id: u16) -> i32 {
        self.note(&format!("start {port_id}"))
    }

    fn port_stop_close(&mut self, port_id: u16) {
        self.note(&format!("close {port_id}"));
    }

    fn rx_burst(&mut self, port_id: u16, queue_id: u16, capacity: u16) -> BurstReply {
        self.note(&format!("receive {port_id} {queue_id} {capacity}"));
        BurstReply {
            received: self.received,
            packets: self.packets.clone(),
        }
    }

    fn mbuf_free(&mut self, index: usize) {
        self.note(&format!("free {index}"));
    }

    fn tx_template_burst(
        &mut self,
        port_id: u16,
        queue_id: u16,
        pool: usize,
        template: &[u8],
        count: u16,
    ) -> i32 {
        let failed = self.note(&format!(
            "send {port_id} {queue_id} {pool} {} {count}",
            template.len()
        ));
        if failed < 0 {
            failed
        } else {
            i32::from(count.min(self.accepted))
        }
    }

    fn port_stats_get(&mut self, port_id: u16) -> StatsReply {
        StatsReply {
            result: self.note(&format!("stats {port_id}")),
            stats: PortStats {
                transmitted_packets: 130,
                ..PortStats::default()
            },
        }
    }

    fn port_xstats_get(&mut self, port_id: u16, capacity: u32) -> XstatsReply {
        let failed = self.note(&format!("xstats {port_id} {capacity}"));
        let mut names = Vec::new();
        for name in self.names.iter().take(capacity as usize) {
            let mut field = name.as_bytes().to_vec();
            field.resize(XSTAT_NAME_WIDTH, 0);
            names.extend_from_slice(&field);
        }
        XstatsReply {
            result: if failed < 0 {
                failed
            } else if capacity == 0 {
                self.names.len() as i32
            } else {
                self.measured
            },
            names,
            values: (0..u64::from(capacity)).collect(),
        }
    }

    fn errno(&mut self) -> i32 {
        12
    }

    fn strerror(&mut self, code: i32) -> Option<String> {
        if code == 19 {
            Some("no such device".to_owned())
        } else {
            None
        }
    }
}

fn plan() -> QueuePlan {
    QueuePlan {
        rx_queues: 1,
        tx_queues: 1,
        numa_node: 0,
        rx_assignments: vec![RxQueueAssignment {
            queue_id: 0,
            logical_cpu: 0,
        }],
    }
}

fn sending(packets: u64) -> NativeDpdkExecutionRequest {
    NativeDpdkExecutionRequest {
        pci_address: "0000:01:00.0".to_owned(),
        frame_size: 64,
        packets,
        queue_plan: plan(),
        frame_template: vec![0; 64],
    }
}

fn receiving() -> NativeDpdkReceiveRequest {
    NativeDpdkReceiveRequest {
        pci_address: "0000:01:00.0".to_owned(),
        duration: Duration {
            seconds: 3,
            nanoseconds: 0,
        },
        queue_plan: plan(),
    }
}

#[test]
fn packets_are_sent_in_bursts_until_all_are_accepted() {
    let mut runtime = Runtime::new(driver());
    let result = run_native_tx(&mut runtime, &sending(130)).expect("sent");
    assert_eq!(result.transmitted_packets, 130);
    assert_eq!(result.hardware.transmitted_packets, 130);
    assert_eq!(result.xstats.len(), 2);
    assert_eq!(result.xstats[1].name, "tx_good");
    assert_eq!(result.xstats[1].value, 1);
    assert_eq!(
        runtime.driver().seen(),
        [
            "init nettool-backend-dpdk --no-telemetry -a 0000:01:00.0",
            "lookup 0000:01:00.0",
            "pool nettool_speed_tx_3",
            "configure 3 77",
            "start 3",
            "send 3 0 77 64 64",
            "send 3 0 77 64 64",
            "send 3 0 77 64 30",
            "stats 3",
            "xstats 3 0",
            "xstats 3 2",
            "close 3",
            "unpool 77",
            "cleanup",
        ]
    );
    assert!(!runtime.driver().owned.get());
}

#[test]
fn sending_without_progress_fails_and_closes_everything() {
    let mut stuck = Runtime::new(Driver {
        accepted: 0,
        ..driver()
    });
    let error = run_native_tx(&mut stuck, &sending(5)).expect_err("stuck");
    assert_eq!(error.code, ErrorCode::PreflightFailed);
    assert_eq!(error.message, "DPDK TX made no forward progress");
    assert!(error.retryable);
    assert_eq!(stuck.driver().seen()[6..], ["close 3", "unpool 77", "cleanup"]);
    assert!(!stuck.driver().owned.get());
    assert!(run_native_tx(&mut Runtime::new(driver()), &sending(0)).is_err());
}

#[test]
fn every_failing_step_closes_what_was_opened() {
    for (failing, message, calls) in [
        (
            "init",
            "DPDK EAL initialization failed: unknown DPDK error (errno 12)",
            vec!["init nettool-backend-dpdk --no-telemetry -a 0000:01:00.0"],
        ),
        (
            "lookup",
            "DPDK device lookup failed: no such device (errno 19)",
            vec!["cleanup"],
        ),
        (
            "pool",
            "DPDK mempool creation failed: unknown DPDK error (errno 12)",
            vec!["cleanup"],
        ),
        (
            "configure",
            "DPDK port configuration failed: no such device (errno 19)",
            vec!["unpool 77", "cleanup"],
        ),
        (
            "start",
            "DPDK port start failed: no such device (errno 19)",
            vec!["close 3", "unpool 77", "cleanup"],
        ),
        (
            "send",
            "DPDK TX burst failed: no such device (errno 19)",
            vec!["close 3", "unpool 77", "cleanup"],
        ),
        (
            "stats",
            "DPDK port statistics query failed: no such device (errno 19)",
            vec!["close 3", "unpool 77", "cleanup"],
        ),
        (
            "xstats 3 0",
            "DPDK xstats count query failed: no such device (errno 19)",
            vec!["close 3", "unpool 77", "cleanup"],
        ),
        (
            "xstats 3 2",
            "DPDK xstats query failed: no such device (errno 19)",
            vec!["close 3", "unpool 77", "cleanup"],
        ),
    ] {
        let mut failing = Runtime::new(Driver {
            failing,
            ..driver()
        });
        let error = run_native_tx(&mut failing, &sending(130)).expect_err("failure");
        assert_eq!(error.code, ErrorCode::PreflightFailed);
        assert_eq!(error.message, message);
        let seen = failing.driver().seen();
        assert_eq!(seen[seen.len() - calls.len()..], calls);
        assert!(!failing.driver().owned.get());
    }
    let mut owned = Runtime::new(driver());
    owned.driver().owned.set(true);
    let error = run_native_tx(&mut owned, &sending(1)).expect_err("owned");
    assert_eq!(error.message, "DPDK EAL is already owned by this process");
    assert!(owned.driver().seen().is_empty());
    assert!(owned.driver().owned.get());
}

struct Seconds(u64);

impl Clock for Seconds {
    fn elapsed(&mut self) -> Duration {
        self.0 += 1;
        Duration {
            seconds: self.0 - 1,
            nanoseconds: 999,
        }
    }
}

struct Takes(Vec<(usize, u16, u32)>);

impl PacketTaker for Takes {
    fn take(&mut self, index: usize, metadata: PacketMetadata) {
        self.0.push((index, metadata.queue_id, metadata.rss_hash));
    }
}

#[test]
fn builds_without_the_shim_refuse_and_call_nothing() {
    let without = DpdkFeatures::default();
    let mut runtime = Runtime::new(driver());
    let mut timer = Timer::new(Seconds(0));
    let refused = execute_native_tx(without, &mut runtime, &sending(1)).expect_err("tx");
    assert_eq!(refused.code, ErrorCode::BackendNotBuilt);
    let refused =
        execute_native_rx(without, &mut runtime, &receiving(), &mut timer).expect_err("rx");
    assert_eq!(refused.code, ErrorCode::BackendNotBuilt);
    assert!(runtime.driver().seen().is_empty());
    let with = DpdkFeatures {
        ffi_api: true,
        native_dpdk: true,
    };
    let sent = execute_native_tx(with, &mut runtime, &sending(130)).expect("sent");
    assert_eq!(sent.transmitted_packets, 130);
    let received =
        execute_native_rx(with, &mut runtime, &receiving(), &mut timer).expect("received");
    assert_eq!(received.received_packets, 6);
    assert!(execute_native_tx(with, &mut runtime, &sending(0)).is_err());
}

#[test]
fn packets_are_received_until_the_time_is_over() {
    let mut runtime = Runtime::new(driver());
    let mut timer = Timer::new(Seconds(0));
    let result = run_native_rx(&mut runtime, &receiving(), &mut timer).expect("received");
    assert_eq!(result.received_packets, 6);
    assert_eq!(
        runtime.driver().seen()[5..11],
        [
            "receive 3 0 64",
            "free 0",
            "free 1",
            "receive 3 0 64",
            "free 0",
            "free 1"
        ]
    );
    assert_eq!(
        runtime.driver().seen()[0],
        "init nettool-backend-dpdk-rx --no-telemetry -a 0000:01:00.0"
    );
}

fn queue(runtime: &mut Runtime<Driver>) -> (Environment, Port, RxQueue) {
    let environment = Environment::initialize(runtime, &["x".to_owned()]).expect("runtime");
    let pool = environment
        .create_mempool(
            runtime,
            &MempoolConfiguration {
                name: "pool".to_owned(),
                count: 1024,
                cache_size: 32,
                data_room_size: 2048,
                socket_id: 0,
            },
        )
        .expect("pool");
    let mut port = pool
        .configure_port(
            runtime,
            PortConfiguration {
                port_id: 3,
                rx_queues: 2,
                tx_queues: 1,
                rx_descriptors: 64,
                tx_descriptors: 64,
                socket_id: 0,
            },
        )
        .expect("port");
    assert!(port.rx_queue(1, 4).is_err());
    assert!(port.stats(runtime).is_err());
    port.start(runtime).expect("start");
    assert!(port.start(runtime).is_err());
    let queue = port.rx_queue(1, 4).expect("queue");
    assert!(port.rx_queue(1, 4).is_err());
    (environment, port, queue)
}

#[test]
fn packets_that_make_no_sense_end_a_burst_and_are_freed() {
    let mut odd = Runtime::new(Driver {
        received: 4,
        packets: vec![
            PACKET,
            RxDescriptor {
                data_len: 61,
                ..PACKET
            },
            RxDescriptor {
                has_buffer: false,
                ..PACKET
            },
            PACKET,
        ],
        ..driver()
    });
    let (environment, mut port, receiver) = queue(&mut odd);
    assert_eq!(environment.port_count(&mut odd), 2);
    let mut taker = Taker::new(Takes(Vec::new()));
    let error = receiver
        .receive_burst(&mut odd, &mut taker)
        .expect_err("odd");
    assert_eq!(
        error.message,
        "DPDK RX burst returned invalid packet metadata"
    );
    assert_eq!(taker.inner().0, [(0, 1, 9)]);
    let seen = odd.driver().seen();
    assert_eq!(
        seen[seen.len() - 4..],
        ["receive 3 1 4", "free 0", "free 1", "free 3"]
    );
    let mut many = Runtime::new(Driver {
        received: 5,
        ..driver()
    });
    let error = receiver
        .receive_burst(&mut many, &mut Taker::new(Discard))
        .expect_err("too many");
    assert_eq!(error.message, "DPDK RX burst exceeded configured capacity");
    assert_eq!(many.driver().seen(), ["receive 3 1 4"]);
    port.release_rx(receiver);
    assert!(port.rx_queue(1, 4).is_ok());
}

#[test]
fn statistics_are_read_as_a_whole() {
    let mut none = Runtime::new(Driver {
        names: Vec::new(),
        ..driver()
    });
    let (_environment, port, _queue) = queue(&mut none);
    assert_eq!(port.xstats(&mut none).expect("none").len(), 0);
    let mut changing = Runtime::new(Driver {
        measured: 1,
        ..driver()
    });
    assert_eq!(
        port.xstats(&mut changing).expect_err("changing").message,
        "DPDK xstats count changed during query"
    );
    let mut unnamed = Runtime::new(Driver {
        names: vec!["rx_good", ""],
        ..driver()
    });
    assert_eq!(
        port.xstats(&mut unnamed).expect_err("unnamed").message,
        "DPDK xstats name is empty"
    );
}

#[test]
fn names_with_zeros_are_not_handed_to_the_runtime() {
    let mut runtime = Runtime::new(driver());
    let error = Environment::initialize(&mut runtime, &["a\0".to_owned()]).expect_err("zero");
    assert_eq!(error.message, "DPDK EAL argument contains NUL");
    assert!(!runtime.driver().owned.get());
    let environment = Environment::initialize(&mut runtime, &[]).expect("runtime");
    assert_eq!(
        environment
            .port_by_name(&mut runtime, "")
            .expect_err("empty")
            .message,
        "DPDK device name must not be empty"
    );
    assert_eq!(
        environment
            .port_by_name(&mut runtime, "a\0")
            .expect_err("zero")
            .message,
        "DPDK device name contains NUL"
    );
    environment.close(&mut runtime);
    assert!(!runtime.driver().owned.get());
}
