use nettool::domain::{
    DnsConfiguration, IpPrefix, Ipv4Configuration, Ipv6Configuration, RouteConfiguration,
};
use nettool::error::{ErrorCode, NetToolError};
use nettool::helper::command::{
    execute_platform_commands, run_validated_platform_command, validate_platform_command,
    CommandOutput, CommandRunner, PlatformCommand, POWERSHELL_EXE,
};
use nettool::helper::macos::{
    build_macos_networksetup_commands, parse_macos_state, MacosNetworkStateReader,
};
use nettool::helper::network_manager::{
    accept_device_type, accept_uuid, build_network_manager_properties, find_property,
    new_snapshot_id, normalize_property, snapshot_file_name, snapshot_id,
    LinuxNetworkManagerExecutor, NetworkManagerSnapshot, NetworkSnapshotStore,
};
use nettool::helper::platform;
use nettool::helper::platform::{
    is_snapshot_id, platform_snapshot_id, verify_state, PlatformBackend, PlatformNetworkExecutor,
    PlatformSnapshot, PlatformSnapshotStore, PlatformStateReader,
};
use nettool::helper::programs::Programs;
use nettool::helper::safe_apply::NetworkExecutor;
use nettool::helper::windows::{
    build_windows_netsh_commands, parse_windows_json_state, validate_state_query_command,
    JsonDecoder, WindowsNetshStateReader, WINDOWS_STATE_QUERY,
};
use nettool::helper_protocol::NetworkDesiredState;
use nettool::json::{JsonNumber, JsonValue};
use nettool::net::IpAddr;
use std::cell::RefCell;
use std::rc::Rc;

fn plain(value: &serde_json::Value) -> JsonValue {
    match value {
        serde_json::Value::Null => JsonValue::Null,
        serde_json::Value::Bool(b) => JsonValue::Bool(*b),
        serde_json::Value::Number(n) => JsonValue::Number(if let Some(u) = n.as_u64() {
            JsonNumber::Unsigned(u)
        } else if let Some(i) = n.as_i64() {
            JsonNumber::Negative(i)
        } else {
            JsonNumber::Fraction(n.as_f64().unwrap_or(0.0).to_bits())
        }),
        serde_json::Value::String(s) => JsonValue::Text(s.clone()),
        serde_json::Value::Array(items) => JsonValue::List(items.iter().map(plain).collect()),
        serde_json::Value::Object(members) => JsonValue::Object(
            members
                .iter()
                .map(|(name, member)| (name.clone(), plain(member)))
                .collect(),
        ),
    }
}

fn decode(text: &str) -> Option<JsonValue> {
    serde_json::from_str::<serde_json::Value>(text)
        .ok()
        .map(|value| plain(&value))
}

fn parse(text: &str, interface_id: &str) -> Result<NetworkDesiredState, NetToolError> {
    match decode(text) {
        Some(value) => parse_windows_json_state(&value, interface_id),
        None => Err(NetToolError::new(
            ErrorCode::HelperExecutionFailed,
            "not a document",
            false,
        )),
    }
}

struct Decoder;

impl JsonDecoder for Decoder {
    fn decode(&self, text: &str) -> Option<JsonValue> {
        decode(text)
    }
}

#[test]
fn builds_complete_network_manager_property_set_without_shell_text() {
    let state = NetworkDesiredState {
        ipv4: Ipv4Configuration::Static {
            addresses: vec![IpPrefix {
                address: IpAddr::v4(192, 0, 2, 10),
                prefix_length: 24,
            }],
        },
        ipv6: Ipv6Configuration::Static {
            addresses: vec![IpPrefix {
                address: IpAddr::V6(1),
                prefix_length: 128,
            }],
        },
        dns: DnsConfiguration {
            automatic: false,
            servers: vec![IpAddr::v4(1, 1, 1, 1)],
            search_domains: vec!["lab.example".into()],
        },
        routes: vec![RouteConfiguration {
            destination: IpPrefix {
                address: IpAddr::v4(198, 51, 100, 0),
                prefix_length: 24,
            },
            gateway: Some(IpAddr::v4(192, 0, 2, 1)),
            metric: Some(10),
        }],
        mtu: Some(9000),
    };
    let properties = build_network_manager_properties(&state);
    let property = |name: &str| find_property(&properties, name).expect("property").as_str();
    assert_eq!(property("ipv4.method"), "manual");
    assert_eq!(property("ipv4.addresses"), "192.0.2.10/24");
    assert_eq!(property("ipv4.routes"), "198.51.100.0/24 192.0.2.1 10");
    assert_eq!(property("ipv4.dns"), "1.1.1.1");
    assert_eq!(property("ipv4.ignore-auto-dns"), "yes");
    assert_eq!(property("802-3-ethernet.mtu"), "9000");
    assert_eq!(property("ipv6.addresses"), "::1/128");
}

#[derive(Default)]
struct RecordingRunner {
    calls: usize,
    fail_on_call: Option<usize>,
}

struct StaticReader {
    state: NetworkDesiredState,
}

impl PlatformStateReader for StaticReader {
    fn read_state(&mut self, _interface_id: &str) -> Result<NetworkDesiredState, NetToolError> {
        Ok(self.state.clone())
    }
}

impl CommandRunner for RecordingRunner {
    fn run(&mut self, _program: &str, _arguments: &[String]) -> Result<CommandOutput, NetToolError> {
        self.calls += 1;
        if self.fail_on_call == Some(self.calls) {
            return Ok(CommandOutput {
                success: false,
                stdout: String::new(),
                stderr: "failed".to_owned(),
            });
        }
        Ok(CommandOutput {
            success: true,
            stdout: String::new(),
            stderr: String::new(),
        })
    }
}

fn desired() -> NetworkDesiredState {
    NetworkDesiredState {
        ipv4: Ipv4Configuration::Static {
            addresses: vec![IpPrefix {
                address: IpAddr::v4(192, 0, 2, 10),
                prefix_length: 24,
            }],
        },
        ipv6: Ipv6Configuration::Automatic,
        dns: DnsConfiguration {
            automatic: false,
            servers: vec![IpAddr::v4(192, 0, 2, 53)],
            search_domains: Vec::new(),
        },
        routes: Vec::new(),
        mtu: Some(1500),
    }
}

#[test]
fn builds_fixed_absolute_commands_without_shell() {
    let commands = build_macos_networksetup_commands("en0", &desired()).expect("commands");
    assert_eq!(commands[0].program, "/usr/sbin/networksetup");
    assert_eq!(
        commands[0].arguments,
        [
            "-setmanual",
            "en0",
            "192.0.2.10",
            "255.255.255.0",
            "0.0.0.0"
        ]
    );
    assert!(commands
        .iter()
        .all(|command| command.arguments.iter().all(|value| !value.contains(';'))));
}

#[test]
fn rejects_unsafe_interface_and_routes() {
    assert!(build_macos_networksetup_commands("en0;id", &desired()).is_err());
    let mut state = desired();
    state.routes.push(RouteConfiguration {
        destination: IpPrefix {
            address: IpAddr::v4(198, 51, 100, 0),
            prefix_length: 24,
        },
        gateway: None,
        metric: None,
    });
    assert!(build_macos_networksetup_commands("en0", &state).is_err());

    let mut search_domain_state = desired();
    search_domain_state
        .dns
        .search_domains
        .push("lab.example".to_owned());
    assert!(build_macos_networksetup_commands("en0", &search_domain_state).is_err());

    let mut multiple_addresses = desired();
    if let Ipv4Configuration::Static { addresses } = &mut multiple_addresses.ipv4 {
        addresses.push(addresses[0].clone());
    }
    assert!(build_macos_networksetup_commands("en0", &multiple_addresses).is_err());
}

#[test]
fn builds_windows_fixed_netsh_commands() {
    let commands = build_windows_netsh_commands("Ethernet", &desired()).expect("commands");
    assert_eq!(commands[0].program, r"C:\Windows\System32\netsh.exe");
    assert_eq!(
        commands[0].arguments[0..5],
        ["interface", "ipv4", "set", "address", "name=Ethernet"]
    );
    assert!(commands.iter().all(|command| {
        command
            .arguments
            .iter()
            .all(|value| !value.contains('|') && !value.contains('&'))
    }));
}

#[test]
fn validates_runner_boundary_before_execution() {
    let valid = PlatformCommand {
        program: "/usr/sbin/networksetup".to_owned(),
        arguments: vec!["-getinfo".to_owned(), "en0".to_owned()],
    };
    assert!(validate_platform_command(&valid).is_ok());

    let invalid_program = PlatformCommand {
        program: "/bin/sh".to_owned(),
        arguments: vec!["-c".to_owned(), "id".to_owned()],
    };
    assert!(validate_platform_command(&invalid_program).is_err());

    let invalid_argument = PlatformCommand {
        program: "/usr/sbin/networksetup".to_owned(),
        arguments: vec!["en0;id".to_owned()],
    };
    assert!(validate_platform_command(&invalid_argument).is_err());

    let arbitrary_powershell = PlatformCommand {
        program: r"C:\Windows\System32\WindowsPowerShell\v1.0\powershell.exe".to_owned(),
        arguments: vec!["-Command".to_owned(), "Write-Output unsafe".to_owned()],
    };
    assert!(validate_platform_command(&arbitrary_powershell).is_err());

    let mut runner = Programs::new(RecordingRunner::default());
    run_validated_platform_command(&mut runner, &valid).expect("validated execution");
    assert_eq!(runner.runner().calls, 1);
    assert!(run_validated_platform_command(&mut runner, &invalid_argument).is_err());
    assert_eq!(runner.runner().calls, 1, "invalid command must not reach runner");

    let mut programs = Programs::new(RecordingRunner {
        fail_on_call: Some(2),
        ..RecordingRunner::default()
    });
    let commands = vec![valid.clone(), valid];
    assert!(execute_platform_commands(&mut programs, &commands).is_err());
    assert_eq!(programs.runner().calls, 2);
}

/// Keeps snapshots under the ids that the library gives them.
#[test]
fn records_may_be_written_as_lists() {
    let state = parse(
        r#"[1,1,"Ethernet",[false,[["192.0.2.10",24]]],["automatic",[]],[["192.0.2.53"]],1500,[],0]"#,
        "Ethernet",
    )
    .expect("state");
    assert!(matches!(state.ipv4, Ipv4Configuration::Static { .. }));
    assert_eq!(state.dns.servers.len(), 1);
    assert!(parse(
        r#"[1,1,"Ethernet",[false,[["192.0.2.10",24]]],["automatic",[]],[["192.0.2.53"]],1500,[]]"#,
        "Ethernet",
    )
    .is_err());
}

#[derive(Clone, Default)]
struct MemorySnapshots {
    saved: Rc<RefCell<Vec<(String, PlatformSnapshot)>>>,
}

fn encoded(state: &NetworkDesiredState) -> Vec<u8> {
    format!("{state:?}").into_bytes()
}

impl PlatformSnapshotStore for MemorySnapshots {
    fn save(&mut self, snapshot: &PlatformSnapshot) -> Result<String, NetToolError> {
        let id = platform_snapshot_id(7, &encoded(&snapshot.state));
        self.saved.borrow_mut().push((id.clone(), snapshot.clone()));
        Ok(id)
    }

    fn load(&mut self, snapshot_id: &str) -> Result<PlatformSnapshot, NetToolError> {
        self.saved
            .borrow()
            .iter()
            .find(|(id, _)| id == snapshot_id)
            .map(|(_, snapshot)| snapshot.clone())
            .ok_or_else(|| NetToolError::new(ErrorCode::PersistenceFailed, "missing", false))
    }

    fn encode(&mut self, state: &NetworkDesiredState) -> Result<Vec<u8>, NetToolError> {
        Ok(encoded(state))
    }
}

#[test]
fn platform_executor_persists_and_restores_typed_snapshot() {
    let state = desired();
    let snapshots = MemorySnapshots::default();
    let mut executor = PlatformNetworkExecutor::new(
        RecordingRunner::default(),
        StaticReader {
            state: state.clone(),
        },
        snapshots.clone(),
        PlatformBackend::Macos,
    );
    let (snapshot_id, old_state) = executor.snapshot("en0").expect("snapshot");
    assert_eq!(old_state, encoded(&state));
    executor.apply("en0", &state).expect("apply");
    executor.verify("en0", &state).expect("verify");
    executor.restore(&snapshot_id).expect("restore");
    assert!(is_snapshot_id(&snapshot_id));
    assert!(snapshots.saved.borrow().iter().any(|(id, _)| *id == snapshot_id));
    assert!(executor.restore("../etc/passwd").is_err());
}

#[test]
fn parses_complete_macos_networksetup_state_and_rejects_unrepresentable_gateway() {
    let state = parse_macos_state(
        "DHCP Configuration\nIP address: 192.0.2.10\nSubnet mask: 255.255.255.0\nRouter: 0.0.0.0\n",
        "IPv6: Automatic\n",
        "192.0.2.53\n2001:db8::53\n",
        "Active MTU: 1500 (Current Setting: 1500)\n",
    )
    .expect("state");
    assert!(matches!(state.ipv4, Ipv4Configuration::Dhcp));
    assert_eq!(state.dns.servers.len(), 2);
    assert_eq!(state.mtu, Some(1500));

    assert!(parse_macos_state(
        "IP address: 192.0.2.10\nSubnet mask: 255.255.255.0\nRouter: 192.0.2.1\n",
        "IPv6: Automatic\n",
        "There aren't any DNS Servers set on this service.\n",
        "Active MTU: 1500 (Current Setting: 1500)\n",
    )
    .is_err());
}

#[test]
fn repeated_members_are_refused() {
    let address = |members: Vec<(&str, JsonValue)>| {
        JsonValue::Object(
            members
                .into_iter()
                .map(|(name, value)| (name.to_owned(), value))
                .collect(),
        )
    };
    let servers = || address(vec![("servers", JsonValue::List(Vec::new()))]);
    let document = |dns: JsonValue| {
        address(vec![
            ("schema_version", JsonValue::Number(JsonNumber::Unsigned(1))),
            ("interface_count", JsonValue::Number(JsonNumber::Unsigned(1))),
            ("interface_id", JsonValue::Text("Ethernet".to_owned())),
            (
                "ipv4",
                address(vec![
                    ("dhcp", JsonValue::Bool(true)),
                    ("addresses", JsonValue::List(Vec::new())),
                ]),
            ),
            (
                "ipv6",
                address(vec![
                    ("state", JsonValue::Text("automatic".to_owned())),
                    ("addresses", JsonValue::List(Vec::new())),
                ]),
            ),
            ("dns", dns),
            ("mtu", JsonValue::Number(JsonNumber::Unsigned(1500))),
            ("default_gateways", JsonValue::List(Vec::new())),
            ("route_count", JsonValue::Number(JsonNumber::Unsigned(0))),
        ])
    };
    assert!(parse_windows_json_state(&document(servers()), "Ethernet").is_ok());
    let twice = address(vec![
        ("servers", JsonValue::List(Vec::new())),
        ("servers", JsonValue::List(Vec::new())),
    ]);
    assert_eq!(
        parse_windows_json_state(&document(twice), "Ethernet")
            .expect_err("repeated member")
            .message,
        "Windows state JSON is malformed"
    );
}

#[test]
fn parses_windows_json_state_and_rejects_gateway() {
    let state = parse(
        r#"{"schema_version":1,"interface_count":1,"interface_id":"Ethernet","ipv4":{"dhcp":false,"addresses":[{"address":"192.0.2.10","prefix_length":24}]},"ipv6":{"state":"automatic","addresses":[]},"dns":{"servers":["192.0.2.53","2001:db8::53"]},"mtu":1500,"default_gateways":[],"route_count":0}"#,
        "Ethernet",
    )
    .expect("state");
    assert!(matches!(state.ipv4, Ipv4Configuration::Static { .. }));
    assert!(matches!(state.ipv6, Ipv6Configuration::Automatic));
    assert_eq!(state.dns.servers.len(), 2);
    assert_eq!(state.mtu, Some(1500));

    assert!(parse(
        r#"{"schema_version":1,"interface_count":1,"interface_id":"Ethernet","ipv4":{"dhcp":false,"addresses":[{"address":"192.0.2.10","prefix_length":24}]},"ipv6":{"state":"automatic","addresses":[]},"dns":{"servers":[]},"mtu":1500,"default_gateways":["192.0.2.1"],"route_count":1}"#,
        "Ethernet",
    )
    .is_err());
}

#[derive(Clone, Default)]
struct FixtureRunner {
    output: String,
    success: Option<bool>,
    seen: Rc<RefCell<Vec<(String, Vec<String>)>>>,
}

impl CommandRunner for FixtureRunner {
    fn run(&mut self, program: &str, arguments: &[String]) -> Result<CommandOutput, NetToolError> {
        self.seen
            .borrow_mut()
            .push((program.to_owned(), arguments.to_owned()));
        Ok(CommandOutput {
            success: self.success.unwrap_or(true),
            stdout: self.output.clone(),
            stderr: String::new(),
        })
    }
}

fn fixture(interface_id: &str) -> String {
    format!(
        r#"{{"schema_version":1,"interface_count":1,"interface_id":"{interface_id}","ipv4":{{"dhcp":true,"addresses":[]}},"ipv6":{{"state":"disabled","addresses":[]}},"dns":{{"servers":[]}},"mtu":1500,"default_gateways":[],"route_count":0}}"#
    )
}

#[test]
fn reader_uses_fixed_powershell_and_independent_alias_argument() {
    let interface_id = "Office ' | Get-Process *";
    let runner = FixtureRunner {
        output: fixture(interface_id),
        ..FixtureRunner::default()
    };
    let seen = runner.seen.clone();
    let mut reader = WindowsNetshStateReader::new(runner, Decoder);
    assert!(reader.read_state(interface_id).is_ok());
    let (program, arguments) = seen.borrow()[0].clone();
    assert_eq!(program, POWERSHELL_EXE);
    assert_eq!(arguments.last(), Some(&interface_id.to_owned()));
    assert!(arguments[6].contains("Get-NetAdapter"));
    assert!(arguments[6].contains("NlMtu"));
    assert!(arguments[6].contains("PrefixOrigin -eq 'Manual'"));
    assert!(arguments[6].contains("OutputEncoding"));
    assert!(!arguments[6].contains(interface_id));
}

#[test]
fn reader_returns_execution_failure_without_parsing_stdout() {
    let runner = FixtureRunner {
        output: fixture("Ethernet"),
        success: Some(false),
        ..FixtureRunner::default()
    };
    let mut reader = WindowsNetshStateReader::new(runner, Decoder);
    let error = reader
        .read_state("Ethernet")
        .expect_err("failed PowerShell query must not parse stdout");
    assert_eq!(error.code, ErrorCode::HelperExecutionFailed);
}

#[test]
fn state_query_validation_rejects_script_tampering_extra_arguments_and_unsafe_alias() {
    let query = |interface_id: &str| PlatformCommand {
        program: POWERSHELL_EXE.to_owned(),
        arguments: vec![
            "-NoLogo".to_owned(),
            "-NoProfile".to_owned(),
            "-NonInteractive".to_owned(),
            "-ExecutionPolicy".to_owned(),
            "Bypass".to_owned(),
            "-Command".to_owned(),
            WINDOWS_STATE_QUERY.to_owned(),
            "--".to_owned(),
            interface_id.to_owned(),
        ],
    };

    assert!(validate_state_query_command(&query("Ethernet")).is_ok());

    let mut tampered = query("Ethernet");
    tampered.arguments[6].push_str("; Get-Process");
    assert!(validate_state_query_command(&tampered).is_err());

    let mut extra = query("Ethernet");
    extra.arguments.push("unexpected".to_owned());
    assert!(validate_state_query_command(&extra).is_err());

    let unsafe_alias = query("Office\r\nGet-Process");
    assert!(validate_state_query_command(&unsafe_alias).is_err());
}

#[test]
fn parser_accepts_representative_static_dhcp_ipv6_dns_and_mtu_state() {
    let json = r#"{"schema_version":1,"interface_count":1,"interface_id":"Ethernet 2","ipv4":{"dhcp":false,"addresses":[{"address":"192.0.2.10","prefix_length":24}]},"ipv6":{"state":"static","addresses":[{"address":"2001:db8::10%12","prefix_length":64}]},"dns":{"servers":["192.0.2.53","2001:db8::53"]},"mtu":9000,"default_gateways":[],"route_count":0}"#;
    let state = parse(json, "Ethernet 2").expect("valid fixture");
    assert!(matches!(state.ipv4, Ipv4Configuration::Static { .. }));
    assert!(matches!(state.ipv6, Ipv6Configuration::Static { .. }));
    assert_eq!(state.dns.servers.len(), 2);
    assert_eq!(state.mtu, Some(9000));
}

#[test]
fn parser_fails_closed_for_missing_fields_malformed_json_duplicates_routes_and_dns_overflow() {
    let missing = fixture("Ethernet").replace("\"mtu\":1500,", "");
    assert!(parse(&missing, "Ethernet").is_err());
    assert!(parse("not json", "Ethernet").is_err());
    let duplicate = fixture("Ethernet").replace("\"interface_count\":1", "\"interface_count\":2");
    assert!(parse(&duplicate, "Ethernet").is_err());
    let route = fixture("Ethernet").replace("\"route_count\":0", "\"route_count\":1");
    assert!(parse(&route, "Ethernet").is_err());
    let dns = (0..17)
        .map(|index| format!("\"192.0.2.{}\"", index + 1))
        .collect::<Vec<_>>()
        .join(",");
    let too_many_dns =
        fixture("Ethernet").replace("\"servers\":[]", &format!("\"servers\":[{dns}]"));
    assert!(parse(&too_many_dns, "Ethernet").is_err());
    let runner = FixtureRunner {
        output: "not json".to_owned(),
        ..FixtureRunner::default()
    };
    assert!(WindowsNetshStateReader::new(runner, Decoder)
        .read_state("Ethernet")
        .is_err());
}

#[test]
fn parser_rejects_interface_mismatch_and_invalid_address_state() {
    let valid = fixture("Ethernet");
    assert!(parse(&valid, "Wi-Fi").is_err());

    let invalid_dns = valid.replace("\"servers\":[]", "\"servers\":[\"not-an-ip\"]");
    assert!(parse(&invalid_dns, "Ethernet").is_err());

    let invalid_ipv6_state = valid.replace("\"state\":\"disabled\"", "\"state\":\"unknown\"");
    assert!(parse(&invalid_ipv6_state, "Ethernet").is_err());

    let invalid_mtu = valid.replace("\"mtu\":1500", "\"mtu\":128");
    assert!(parse(&invalid_mtu, "Ethernet").is_err());
}

#[test]
fn macos_reader_asks_four_fixed_questions() {
    let runner = FixtureRunner {
        output: String::new(),
        ..FixtureRunner::default()
    };
    let seen = runner.seen.clone();
    let mut reader = MacosNetworkStateReader::new(runner);
    assert!(reader.read_state("en0").is_err());
    assert!(!seen.borrow().is_empty());
    assert!(seen
        .borrow()
        .iter()
        .all(|(program, _)| program == "/usr/sbin/networksetup"));
    seen.borrow_mut().clear();
    assert!(reader.read_state("en0;id").is_err());
    assert!(seen.borrow().is_empty());
}

#[test]
fn states_are_compared_field_by_field() {
    assert!(verify_state(&desired(), &desired()).is_ok());
    let mut other = desired();
    other.mtu = Some(1400);
    assert!(verify_state(&other, &desired()).is_err());
}

#[test]
fn snapshot_ids_are_digests() {
    let id = platform_snapshot_id(1, b"abc");
    assert!(is_snapshot_id(&id));
    assert_ne!(id, platform_snapshot_id(2, b"abc"));
    assert_eq!(
        platform::snapshot_file_name(&id).expect("name"),
        format!("{id}.json")
    );
    assert!(platform::snapshot_file_name("a/b").is_err());
    let first = new_snapshot_id(5, "eth0").expect("id");
    let second = new_snapshot_id(5, "eth0").expect("id");
    assert_ne!(first, second, "ids hold chance");
    assert!(snapshot_file_name(&first).is_ok());
    assert!(snapshot_file_name("../x").is_err());
    assert_eq!(snapshot_id(&[1; 16], 5, "eth0"), snapshot_id(&[1; 16], 5, "eth0"));
    assert_ne!(snapshot_id(&[1; 16], 5, "eth0"), snapshot_id(&[1; 16], 5, "eth1"));
}

/// Answers as the network manager does, out of a list of properties.
struct ManagerRunner {
    properties: Vec<(String, String)>,
    commands: Rc<RefCell<Vec<Vec<String>>>>,
}

const UUID: &str = "11111111-2222-3333-4444-555555555555";

impl CommandRunner for ManagerRunner {
    fn run(&mut self, _program: &str, arguments: &[String]) -> Result<CommandOutput, NetToolError> {
        self.commands.borrow_mut().push(arguments.to_owned());
        let joined = arguments.join(" ");
        let stdout = if joined.contains("GENERAL.CON-UUID") {
            format!("{UUID}\n")
        } else if joined.contains("GENERAL.TYPE") {
            "ethernet\n".to_owned()
        } else if joined.contains("modify") {
            let at = arguments
                .iter()
                .position(|argument| argument == UUID)
                .expect("connection");
            for pair in arguments[at + 1..].chunks(2) {
                self.properties.retain(|(name, _)| *name != pair[0]);
                self.properties.push((pair[0].clone(), pair[1].clone()));
            }
            String::new()
        } else {
            self.properties
                .iter()
                .find(|(name, _)| arguments.contains(name))
                .map(|(_, value)| value.clone())
                .unwrap_or_default()
        };
        Ok(CommandOutput {
            success: true,
            stdout,
            stderr: String::new(),
        })
    }
}

#[derive(Default)]
struct ManagerStore {
    saved: Vec<NetworkManagerSnapshot>,
}

impl NetworkSnapshotStore for ManagerStore {
    fn save(&mut self, snapshot: &NetworkManagerSnapshot) -> Result<String, NetToolError> {
        self.saved.push(snapshot.clone());
        new_snapshot_id(self.saved.len() as u128, &snapshot.interface_id)
    }

    fn load(&mut self, _snapshot_id: &str) -> Result<NetworkManagerSnapshot, NetToolError> {
        Ok(self.saved.last().expect("saved").clone())
    }

    fn encode(&mut self, snapshot: &NetworkManagerSnapshot) -> Result<Vec<u8>, NetToolError> {
        Ok(format!("{snapshot:?}").into_bytes())
    }
}

#[test]
fn network_manager_state_is_applied_verified_and_restored() {
    let commands = Rc::new(RefCell::new(Vec::new()));
    let runner = ManagerRunner {
        properties: vec![("ipv4.method".to_owned(), "auto".to_owned())],
        commands: commands.clone(),
    };
    let mut executor =
        LinuxNetworkManagerExecutor::new(runner, ManagerStore::default(), "/usr/bin/nmcli")
            .expect("executor");
    let (id, _) = executor.snapshot("eth0").expect("snapshot");
    executor.apply("eth0", &desired()).expect("apply");
    executor.verify("eth0", &desired()).expect("verify");
    let mut other = desired();
    other.mtu = Some(1400);
    let error = executor.verify("eth0", &other).expect_err("other");
    assert_eq!(
        error.details,
        [("property".to_owned(), "802-3-ethernet.mtu".to_owned())]
    );
    executor.restore(&id).expect("restore");
    assert!(executor.verify("eth0", &desired()).is_err());
    assert!(commands
        .borrow()
        .iter()
        .flatten()
        .all(|argument| !argument.contains("sh -c")));
    assert!(LinuxNetworkManagerExecutor::new(
        RecordingRunner::default(),
        ManagerStore::default(),
        "nmcli"
    )
    .is_err());
}

#[test]
fn network_manager_answers_are_checked() {
    assert_eq!(accept_uuid(&format!("{UUID}\n")).expect("uuid"), UUID);
    assert!(accept_uuid("--").is_err());
    assert!(accept_device_type("ethernet\n").is_ok());
    assert!(accept_device_type("wifi").is_err());
    assert_eq!(normalize_property(" a , ,b,"), "a,b");
}

#[test]
fn properties_are_read_one_by_one_and_kept_by_name() {
    let commands = Rc::new(RefCell::new(Vec::new()));
    let runner = ManagerRunner {
        properties: vec![
            ("ipv4.method".to_owned(), "auto".to_owned()),
            ("802-3-ethernet.mtu".to_owned(), "1500".to_owned()),
            ("ipv6.routes".to_owned(), "2001:db8::/64".to_owned()),
        ],
        commands: commands.clone(),
    };
    let mut executor =
        LinuxNetworkManagerExecutor::new(runner, ManagerStore::default(), "/usr/bin/nmcli")
            .expect("executor");
    let (_, state) = executor.snapshot("eth0").expect("snapshot");
    let asked: Vec<String> = commands
        .borrow()
        .iter()
        .map(|arguments: &Vec<String>| arguments[1].clone())
        .collect();
    assert_eq!(
        asked,
        [
            "GENERAL.TYPE",
            "GENERAL.CON-UUID",
            "ipv4.method",
            "ipv4.addresses",
            "ipv4.dns",
            "ipv4.dns-search",
            "ipv4.routes",
            "ipv4.ignore-auto-dns",
            "ipv6.method",
            "ipv6.addresses",
            "ipv6.dns",
            "ipv6.dns-search",
            "ipv6.routes",
            "ipv6.ignore-auto-dns",
            "802-3-ethernet.mtu",
        ]
    );
    let text = String::from_utf8(state).expect("text");
    let places: Vec<usize> = [
        "(\"802-3-ethernet.mtu\", \"1500\")",
        "(\"ipv4.method\", \"auto\")",
        "(\"ipv6.routes\", \"2001:db8::/64\")",
    ]
    .iter()
    .map(|pair| text.find(pair).expect("property"))
    .collect();
    assert!(places[0] < places[1] && places[1] < places[2]);
}
