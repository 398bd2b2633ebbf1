use nettool::domain::{
    DnsConfiguration, IpPrefix, Ipv4Configuration, Ipv6Configuration, RouteConfiguration,
};
use nettool::error::{ErrorCode, NetToolError};
use nettool::helper::outside::Outside;
use nettool::helper::safe_apply::{
    rollback_failure, BeginSafeApply, NetworkExecutor, PendingSafeApply, SafeApplyManager,
    SafeApplyState, SafeApplyStore,
};
use nettool::helper::state_json::{quote, write_state};
use nettool::helper_protocol::NetworkDesiredState;
use nettool::net::IpAddr;

struct FakeExecutor {
    state: Vec<u8>,
    snapshots: Vec<(String, Vec<u8>)>,
    restore_count: usize,
    refuse: bool,
}

impl FakeExecutor {
    fn new() -> Self {
        Self {
            state: br#"{"mode":"dhcp"}"#.to_vec(),
            snapshots: Vec::new(),
            restore_count: 0,
            refuse: false,
        }
    }
}

fn encoded(state: &NetworkDesiredState) -> Vec<u8> {
    format!("{state:?}").into_bytes()
}

impl NetworkExecutor for FakeExecutor {
    fn read_state(&mut self, _interface_id: &str) -> Result<Vec<u8>, NetToolError> {
        Ok(self.state.clone())
    }

    fn snapshot(&mut self, _interface_id: &str) -> Result<(String, Vec<u8>), NetToolError> {
        let id = format!("snapshot-{}", self.snapshots.len());
        self.snapshots.push((id.clone(), self.state.clone()));
        Ok((id, self.state.clone()))
    }

    fn apply(
        &mut self,
        _interface_id: &str,
        desired_state: &NetworkDesiredState,
    ) -> Result<(), NetToolError> {
        if self.refuse {
            return Err(NetToolError::new(
                ErrorCode::HelperExecutionFailed,
                "apply failed",
                false,
            ));
        }
        self.state = encoded(desired_state);
        Ok(())
    }

    fn verify(
        &mut self,
        _interface_id: &str,
        desired_state: &NetworkDesiredState,
    ) -> Result<(), NetToolError> {
        assert_eq!(self.state, encoded(desired_state));
        Ok(())
    }

    fn restore(&mut self, snapshot_id: &str) -> Result<(), NetToolError> {
        self.restore_count += 1;
        self.state = self
            .snapshots
            .iter()
            .find(|(id, _)| id == snapshot_id)
            .expect("snapshot exists")
            .1
            .clone();
        Ok(())
    }
}

/// Keeps what was persisted, so that a manager can be opened again.
#[derive(Default)]
struct MemoryStore {
    records: Vec<PendingSafeApply>,
    audits: Vec<(String, String)>,
}

impl SafeApplyStore for MemoryStore {
    fn persist(&mut self, records: &[PendingSafeApply]) -> Result<(), NetToolError> {
        self.records = records.to_vec();
        Ok(())
    }

    fn audit(&mut self, record: &PendingSafeApply, result: &str) -> Result<(), NetToolError> {
        self.audits
            .push((record.operation_id.clone(), result.to_owned()));
        Ok(())
    }
}

fn desired_state() -> NetworkDesiredState {
    NetworkDesiredState {
        ipv4: Ipv4Configuration::Dhcp,
        ipv6: Ipv6Configuration::Automatic,
        dns: DnsConfiguration {
            automatic: true,
            servers: Vec::new(),
            search_domains: Vec::new(),
        },
        routes: Vec::new(),
        mtu: None,
    }
}

fn request<'a>(operation_id: &'a str, desired: &'a NetworkDesiredState) -> BeginSafeApply<'a> {
    BeginSafeApply {
        operation_id,
        interface_id: "eth0",
        desired_state: desired,
        confirm_timeout_seconds: 10,
        now_unix_seconds: 100,
    }
}

#[test]
fn expired_operation_survives_manager_restart_and_rolls_back() {
    let desired = desired_state();
    let mut outside = Outside::new(FakeExecutor::new(), MemoryStore::default());
    let mut manager = SafeApplyManager::open(Vec::new());
    manager
        .begin(&mut outside, request("op-1", &desired))
        .expect("apply succeeds");
    drop(manager);
    let mut restarted = SafeApplyManager::open(outside.store().records.clone());
    assert_eq!(
        restarted
            .recover_expired(&mut outside, 110)
            .expect("rollback succeeds"),
        ["op-1"]
    );
    assert_eq!(outside.executor().state, br#"{"mode":"dhcp"}"#.to_vec());
    assert_eq!(outside.executor().restore_count, 1);
}

#[test]
fn confirmed_operation_does_not_roll_back() {
    let desired = desired_state();
    let mut outside = Outside::new(FakeExecutor::new(), MemoryStore::default());
    let mut manager = SafeApplyManager::open(Vec::new());
    manager
        .begin(&mut outside, request("op-2", &desired))
        .expect("apply succeeds");
    assert_eq!(
        manager
            .confirm_at(&mut outside, "op-2", 109)
            .expect("confirm succeeds")
            .state,
        SafeApplyState::Confirmed
    );
    assert!(manager
        .recover_expired(&mut outside, 999)
        .expect("recovery succeeds")
        .is_empty());
    assert_eq!(outside.executor().state, encoded(&desired));
}

#[test]
fn repeated_identical_begin_is_idempotent_and_expired_confirm_is_rejected() {
    let desired = desired_state();
    let mut outside = Outside::new(FakeExecutor::new(), MemoryStore::default());
    let mut manager = SafeApplyManager::open(Vec::new());
    let request = request("op-idempotent", &desired);
    let first = manager
        .begin(&mut outside, request)
        .expect("first apply");
    let second = manager
        .begin(&mut outside, request)
        .expect("same result");
    assert_eq!(first, second);
    assert_eq!(outside.executor().snapshots.len(), 1);
    assert!(manager
        .confirm_at(&mut outside, "op-idempotent", 110)
        .is_err());
    assert_eq!(manager.pending().len(), 1);
}

#[test]
fn a_failed_apply_is_rolled_back_at_once() {
    let desired = desired_state();
    let mut executor = FakeExecutor::new();
    executor.refuse = true;
    let mut outside = Outside::new(executor, MemoryStore::default());
    let mut manager = SafeApplyManager::open(Vec::new());
    let error = manager
        .begin(&mut outside, request("op-3", &desired))
        .expect_err("apply fails");
    assert_eq!(error.message, "apply failed");
    assert_eq!(outside.executor().restore_count, 1);
    assert!(manager.expired(10_000).is_empty());
}

#[test]
fn one_interface_has_one_pending_operation() {
    let desired = desired_state();
    let mut outside = Outside::new(FakeExecutor::new(), MemoryStore::default());
    let mut manager = SafeApplyManager::open(Vec::new());
    manager
        .begin(&mut outside, request("op-4", &desired))
        .expect("apply succeeds");
    assert!(manager
        .begin(&mut outside, request("op-5", &desired))
        .is_err());
    let mut other = desired_state();
    other.mtu = Some(1400);
    assert_eq!(
        manager
            .begin(&mut outside, request("op-4", &other))
            .expect_err("another configuration")
            .code,
        ErrorCode::OperationConflict
    );
    assert_eq!(
        manager
            .begin(&mut outside, request("op-4", &desired_state()))
            .expect("the same configuration")
            .operation_id,
        "op-4"
    );
    assert_eq!(outside.executor().snapshots.len(), 1);
    assert_eq!(manager.expired(109), Vec::<String>::new());
    assert_eq!(manager.expired(110), ["op-4"]);
    manager
        .rollback(&mut outside, "op-4")
        .expect("rollback");
    assert_eq!(outside.executor().state, br#"{"mode":"dhcp"}"#.to_vec());
    assert!(manager.confirm_at(&mut outside, "op-4", 101).is_err());
    assert_eq!(manager.records().len(), 1);
    assert!(!outside.store().audits.is_empty());
}

#[test]
fn hashes_of_states_are_digests_of_their_bytes() {
    let desired = desired_state();
    let mut executor = FakeExecutor::new();
    executor.state = b"abc".to_vec();
    let mut outside = Outside::new(executor, MemoryStore::default());
    let mut manager = SafeApplyManager::open(Vec::new());
    let record = manager
        .begin(&mut outside, request("op-6", &desired))
        .expect("apply succeeds");
    assert_eq!(
        record.old_state_hash,
        "ba7816bf8f01cfea414140de5dae2223b00361a396177a9cb410ff61f20015ad"
    );
    assert_eq!(
        record.new_state_hash,
        "60a228ea03b188c88985dd3173d0df299995e36fa95965982165661681fa02e9"
    );
    assert_eq!(record.deadline_unix_seconds, 110);
}

#[test]
fn a_failed_rollback_tells_both_reasons() {
    let apply = NetToolError::new(ErrorCode::HelperExecutionFailed, "first", false);
    let rollback = NetToolError::new(ErrorCode::HelperExecutionFailed, "second", false);
    let error = rollback_failure(&apply, &rollback);
    assert_eq!(error.code, ErrorCode::RollbackFailed);
    assert!(error.message.contains("first") && error.message.contains("second"));
}

#[test]
fn what_is_applied_was_kept_and_recorded_first() {
    struct Watching {
        inner: FakeExecutor,
        calls: Vec<String>,
    }
    impl NetworkExecutor for Watching {
        fn read_state(&mut self, interface_id: &str) -> Result<Vec<u8>, NetToolError> {
            self.inner.read_state(interface_id)
        }
        fn snapshot(&mut self, interface_id: &str) -> Result<(String, Vec<u8>), NetToolError> {
            self.calls.push(format!("snapshot {interface_id}"));
            self.inner.snapshot(interface_id)
        }
        fn apply(
            &mut self,
            interface_id: &str,
            desired_state: &NetworkDesiredState,
        ) -> Result<(), NetToolError> {
            self.calls.push(format!("apply {interface_id}"));
            self.inner.apply(interface_id, desired_state)
        }
        fn verify(
            &mut self,
            interface_id: &str,
            _desired_state: &NetworkDesiredState,
        ) -> Result<(), NetToolError> {
            self.calls.push(format!("verify {interface_id}"));
            Err(NetToolError::new(
                ErrorCode::HelperExecutionFailed,
                "not in force",
                false,
            ))
        }
        fn restore(&mut self, snapshot_id: &str) -> Result<(), NetToolError> {
            self.calls.push(format!("restore {snapshot_id}"));
            self.inner.restore(snapshot_id)
        }
    }
    struct Full;
    impl SafeApplyStore for Full {
        fn persist(&mut self, _records: &[PendingSafeApply]) -> Result<(), NetToolError> {
            Err(NetToolError::new(
                ErrorCode::PersistenceFailed,
                "disk is full",
                true,
            ))
        }
        fn audit(&mut self, _record: &PendingSafeApply, _result: &str) -> Result<(), NetToolError> {
            Ok(())
        }
    }
    let state = desired_state();
    let asked = |operation_id: &'static str| BeginSafeApply {
        operation_id,
        interface_id: "eth0",
        desired_state: &state,
        confirm_timeout_seconds: 30,
        now_unix_seconds: 100,
    };
    let watching = || Watching {
        inner: FakeExecutor::new(),
        calls: Vec::new(),
    };
    let mut outside = Outside::new(watching(), Full);
    let mut manager = SafeApplyManager::open(Vec::new());
    let error = manager
        .begin(&mut outside, asked("op-1"))
        .expect_err("records cannot be kept");
    assert_eq!(error.message, "disk is full");
    assert_eq!(outside.executor().calls, ["snapshot eth0"]);

    let mut outside = Outside::new(watching(), MemoryStore::default());
    let mut manager = SafeApplyManager::open(Vec::new());
    let error = manager
        .begin(&mut outside, asked("op-2"))
        .expect_err("not in force");
    assert_eq!(error.message, "not in force");
    assert_eq!(
        outside.executor().calls,
        [
            "snapshot eth0",
            "apply eth0",
            "verify eth0",
            "restore snapshot-0"
        ]
    );
    assert_eq!(
        outside.store().audits,
        [("op-2".to_owned(), "apply_failed".to_owned())]
    );
    assert!(manager.pending().is_empty());
}

#[test]
fn a_configuration_has_one_json_form() {
    assert_eq!(
        write_state(&desired_state()),
        concat_lines(&[
            r#"{"ipv4":{"mode":"dhcp"},"ipv6":{"mode":"automatic"},"#,
            r#""dns":{"automatic":true,"servers":[],"search_domains":[]},"#,
            r#""routes":[],"mtu":null}"#,
        ])
    );
    let state = NetworkDesiredState {
        ipv4: Ipv4Configuration::Static {
            addresses: vec![IpPrefix {
                address: IpAddr::v4(10, 0, 0, 2),
                prefix_length: 24,
            }],
        },
        ipv6: Ipv6Configuration::Disabled,
        dns: DnsConfiguration {
            automatic: false,
            servers: vec![IpAddr::v4(9, 9, 9, 9), IpAddr::V6(1)],
            search_domains: vec!["lan\u{1}\n\"x\\".to_owned()],
        },
        routes: vec![
            RouteConfiguration {
                destination: IpPrefix {
                    address: IpAddr::v4(10, 1, 0, 0),
                    prefix_length: 16,
                },
                gateway: Some(IpAddr::v4(10, 0, 0, 1)),
                metric: Some(7),
            },
            RouteConfiguration {
                destination: IpPrefix {
                    address: IpAddr::v4(10, 2, 0, 0),
                    prefix_length: 16,
                },
                gateway: None,
                metric: None,
            },
        ],
        mtu: Some(1500),
    };
    let json = write_state(&state);
    assert_eq!(
        json,
        concat_lines(&[
            r#"{"ipv4":{"mode":"static","addresses":[{"address":"10.0.0.2","prefix_length":24}]},"#,
            r#""ipv6":{"mode":"disabled"},"dns":{"automatic":false,"servers":["9.9.9.9","::1"],"#,
            r#""search_domains":["lan\u0001\n\"x\\"]},"routes":[{"destination":"#,
            r#"{"address":"10.1.0.0","prefix_length":16},"gateway":"10.0.0.1","metric":7},"#,
            r#"{"destination":{"address":"10.2.0.0","prefix_length":16},"gateway":null,"metric":null}],"#,
            r#""mtu":1500}"#,
        ])
    );
    let value: serde_json::Value = serde_json::from_str(&json).expect("JSON");
    assert_eq!(value["dns"]["search_domains"][0], "lan\u{1}\n\"x\\");
}

#[test]
fn texts_are_quoted_as_json_writers_do() {
    for text in ["", "plain", "\"\\/", "\u{0}\u{8}\t\n\u{b}\u{c}\r\u{1f} \u{7f}", "\u{e9}\u{1f600}"] {
        assert_eq!(quote(text), serde_json::to_string(text).expect("text"));
    }
}

#[test]
fn pending_are_those_that_did_not_end() {
    let desired = desired_state();
    let on = |operation_id: &'static str, interface_id: &'static str| BeginSafeApply {
        operation_id,
        interface_id,
        desired_state: &desired,
        confirm_timeout_seconds: 10,
        now_unix_seconds: 100,
    };
    let mut outside = Outside::new(FakeExecutor::new(), MemoryStore::default());
    let mut manager = SafeApplyManager::open(Vec::new());
    for (operation_id, interface_id) in [("a", "eth0"), ("b", "eth1"), ("c", "eth2")] {
        manager
            .begin(&mut outside, on(operation_id, interface_id))
            .expect("begin");
    }
    manager.confirm_at(&mut outside, "b", 101).expect("confirm");
    let names = |manager: &SafeApplyManager| -> Vec<String> {
        manager
            .pending()
            .into_iter()
            .map(|record| record.operation_id)
            .collect()
    };
    assert_eq!(names(&manager), ["a", "c"]);
    manager.rollback(&mut outside, "a").expect("rollback");
    manager.begin(&mut outside, on("d", "eth0")).expect("begin");
    assert_eq!(names(&manager), ["c", "d"]);
    manager.recover_expired(&mut outside, 110).expect("recover");
    assert!(manager.pending().is_empty());
    assert_eq!(manager.records().len(), 4);
}

fn concat_lines(parts: &[&str]) -> String {
    parts.concat()
}

#[test]
fn a_recovery_restores_each_expired_operation_once_and_in_order() {
    #[derive(Default)]
    struct Restoring(Vec<String>);
    impl NetworkExecutor for Restoring {
        fn read_state(&mut self, _interface_id: &str) -> Result<Vec<u8>, NetToolError> {
            panic!("not asked for")
        }
        fn snapshot(&mut self, _interface_id: &str) -> Result<(String, Vec<u8>), NetToolError> {
            panic!("not asked for")
        }
        fn apply(
            &mut self,
            _interface_id: &str,
            _desired_state: &NetworkDesiredState,
        ) -> Result<(), NetToolError> {
            panic!("not asked for")
        }
        fn verify(
            &mut self,
            _interface_id: &str,
            _desired_state: &NetworkDesiredState,
        ) -> Result<(), NetToolError> {
            panic!("not asked for")
        }
        fn restore(&mut self, snapshot_id: &str) -> Result<(), NetToolError> {
            self.0.push(snapshot_id.to_owned());
            Ok(())
        }
    }
    let record = |name: &str, deadline_unix_seconds: u64, state: SafeApplyState| PendingSafeApply {
        operation_id: format!("op-{name}"),
        target_interface: format!("eth-{name}"),
        snapshot_id: format!("kept-{name}"),
        deadline_unix_seconds,
        state,
        old_state_hash: String::new(),
        new_state_hash: String::new(),
    };
    let records = vec![
        record("a", 110, SafeApplyState::PendingConfirmation),
        record("b", 100, SafeApplyState::Confirmed),
        record("c", 111, SafeApplyState::PendingConfirmation),
        record("d", 90, SafeApplyState::RollingBack),
        record("e", 110, SafeApplyState::Prepared),
    ];
    let mut manager = SafeApplyManager::open(records.clone());
    let mut outside = Outside::new(Restoring::default(), MemoryStore::default());
    assert_eq!(
        manager.recover_expired(&mut outside, 110).expect("recovery"),
        ["op-a", "op-d", "op-e"]
    );
    assert_eq!(outside.executor().0, ["kept-a", "kept-d", "kept-e"]);
    let expired = |name: &str| (format!("op-{name}"), "deadline_expired".to_owned());
    assert_eq!(
        outside.store().audits,
        [expired("a"), expired("d"), expired("e")]
    );
    assert_eq!(outside.store().records, *manager.records());
    assert_eq!(manager.records()[1..3], records[1..3]);
    for at in [0, 3, 4] {
        assert_eq!(manager.records()[at].state, SafeApplyState::RolledBack);
    }
    assert_eq!(manager.pending(), [records[2].clone()]);
    assert!(manager
        .recover_expired(&mut outside, 110)
        .expect("nothing left")
        .is_empty());
    assert_eq!(outside.executor().0.len(), 3);
}
