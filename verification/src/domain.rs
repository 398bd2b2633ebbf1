//! The data model: platforms, probes, profiles, nodes, sessions and records.

use crate::json::JsonValue;
use crate::net::IpAddr;
use vstd::prelude::*;

verus! {

/// The platform that a program runs on.
#[derive(Clone, Copy, Debug, PartialEq, Eq, Structural)]
pub enum Platform {
    /// Linux.
    Linux,
    /// macOS.
    MacOs,
    /// Windows.
    Windows,
    /// A platform without support.
    Unknown,
}

impl Platform {
    /// The stable identifier of the platform.
    pub open spec fn text(self) -> Seq<char> {
        match self {
            Platform::Linux => "linux"@,
            Platform::MacOs => "macos"@,
            Platform::Windows => "windows"@,
            Platform::Unknown => "unknown"@,
        }
    }

    /// Returns the stable identifier of the platform.
    #[must_use]
    pub fn as_str(self) -> (r: &'static str)
        ensures
            r@ == self.text(),
    {
        match self {
            Platform::Linux => "linux",
            Platform::MacOs => "macos",
            Platform::Windows => "windows",
            Platform::Unknown => "unknown",
        }
    }
}

/// The bus of a network interface, as far as there is evidence for it.
#[derive(Clone, Copy, Debug, PartialEq, Eq, Structural)]
pub enum NicBusType {
    /// A USB interface.
    Usb,
    /// A PCI interface.
    Pci,
    /// There is not enough evidence.
    Unknown,
}

impl NicBusType {
    /// The stable identifier of the bus.
    pub open spec fn text(self) -> Seq<char> {
        match self {
            NicBusType::Usb => "usb"@,
            NicBusType::Pci => "pci"@,
            NicBusType::Unknown => "unknown"@,
        }
    }

    /// Returns the stable identifier of the bus.
    #[must_use]
    pub fn as_str(self) -> (r: &'static str)
        ensures
            r@ == self.text(),
    {
        match self {
            NicBusType::Usb => "usb",
            NicBusType::Pci => "pci",
            NicBusType::Unknown => "unknown",
        }
    }
}

/// What was found out about one network interface.
#[derive(Clone, Debug, PartialEq, Eq)]
pub struct NicProbe {
    /// The name that the operating system gives it.
    pub name: String,
    /// Its addresses; empty where they cannot be had.
    pub ip_addresses: Vec<String>,
    /// Its PCI address, where it has a verified one.
    pub pci_address: Option<String>,
    /// Its bus.
    pub bus_type: NicBusType,
    /// The name of its driver.
    pub driver: Option<String>,
    /// Its link speed in megabits per second.
    pub link_speed_mbps: Option<u64>,
    /// The number of its receive queues.
    pub rx_queues: Option<u32>,
    /// The number of its transmit queues.
    pub tx_queues: Option<u32>,
    /// Its NUMA node.
    pub numa_node: Option<i32>,
}

/// A complete snapshot of the environment.
#[derive(Clone, Debug, PartialEq, Eq)]
pub struct ProbeReport {
    /// The version of this schema.
    pub schema_version: &'static str,
    /// The platform.
    pub platform: Platform,
    /// The number of logical processors that can be used.
    pub logical_cpus: usize,
    /// The number of NUMA nodes.
    pub numa_nodes: Option<u32>,
    /// The number of huge pages.
    pub huge_pages_total: Option<u64>,
    /// The number of free huge pages.
    pub huge_pages_free: Option<u64>,
    /// The size of a huge page in kibibytes.
    pub huge_page_size_kib: Option<u64>,
    /// The network interfaces.
    pub nics: Vec<NicProbe>,
    /// Whether a DPDK runtime was found.
    pub dpdk_capable: bool,
    /// Whether the kernel has the `AF_XDP` interface.
    pub af_xdp_capable: bool,
    /// Whether zero copy with `AF_XDP` is proven.
    pub af_xdp_zero_copy_capable: bool,
    /// What could not be found out.
    pub warnings: Vec<String>,
}

/// A JSON object whose members belong to a backend.
#[derive(Debug, PartialEq, Eq)]
pub struct ValidatedJson(JsonValue);

impl Clone for ValidatedJson {
    fn clone(&self) -> (r: Self)
        ensures
            crate::json::same_value(self.value(), r.value()),
    {
        proof {
            use_type_invariant(self);
        }
        ValidatedJson(self.0.clone())
    }
}

impl ValidatedJson {
    /// The JSON value inside.
    pub closed spec fn value(self) -> JsonValue {
        self.0
    }

    #[verifier::type_invariant]
    spec fn is_valid(self) -> bool {
        self.0 is Object
    }

    /// Takes a JSON value that is an object.
    ///
    /// # Errors
    ///
    /// Fails when the value is no object.
    pub fn try_from_value(value: JsonValue) -> (r: Result<Self, &'static str>)
        ensures
            match r {
                Ok(v) => value is Object && v.value() == value,
                Err(message) => !(value is Object) && message@
                    == "validated JSON payload must be an object"@,
            },
    {
        if value.is_object() {
            Ok(ValidatedJson(value))
        } else {
            Err("validated JSON payload must be an object")
        }
    }

    /// Returns the JSON value for reading.
    #[must_use]
    pub fn as_value(&self) -> (r: &JsonValue)
        ensures
            *r == self.value(),
            *r is Object,
    {
        proof {
            use_type_invariant(self);
        }
        &self.0
    }

    /// Takes the JSON value out.
    #[must_use]
    pub fn into_value(self) -> (r: JsonValue)
        ensures
            r == self.value(),
            r is Object,
    {
        proof {
            use_type_invariant(&self);
        }
        self.0
    }
}

/// Identifies a network profile.
#[derive(Clone, Debug, PartialEq, Eq, PartialOrd, Ord, Hash)]
pub struct ProfileId(pub String);

impl ProfileId {
    /// Creates an identifier; its uniqueness is up to the caller.
    #[must_use]
    pub fn new(value: &str) -> (r: Self)
        ensures
            r.0@ == value@,
    {
        ProfileId(value.to_owned())
    }
}

/// Identifies a hosts profile.
#[derive(Clone, Debug, PartialEq, Eq, PartialOrd, Ord, Hash)]
pub struct HostsProfileId(pub String);

impl HostsProfileId {
    /// Creates an identifier; its uniqueness is up to the caller.
    #[must_use]
    pub fn new(value: &str) -> (r: Self)
        ensures
            r.0@ == value@,
    {
        HostsProfileId(value.to_owned())
    }
}

/// Identifies a remote node.
#[derive(Clone, Debug, PartialEq, Eq, PartialOrd, Ord, Hash)]
pub struct NodeId(pub String);

impl NodeId {
    /// Creates an identifier; its uniqueness is up to the caller.
    #[must_use]
    pub fn new(value: &str) -> (r: Self)
        ensures
            r.0@ == value@,
    {
        NodeId(value.to_owned())
    }
}

/// Identifies a speed or packet session.
#[derive(Clone, Debug, PartialEq, Eq, PartialOrd, Ord, Hash)]
pub struct SessionId(pub String);

impl SessionId {
    /// Creates an identifier; its uniqueness is up to the caller.
    #[must_use]
    pub fn new(value: &str) -> (r: Self)
        ensures
            r.0@ == value@,
    {
        SessionId(value.to_owned())
    }
}

/// Identifies a reservation of hardware resources.
#[derive(Clone, Debug, PartialEq, Eq, PartialOrd, Ord, Hash)]
pub struct ReservationId(pub String);

impl ReservationId {
    /// Creates an identifier; its uniqueness is up to the caller.
    #[must_use]
    pub fn new(value: &str) -> (r: Self)
        ensures
            r.0@ == value@,
    {
        ReservationId(value.to_owned())
    }
}

/// Identifies an operation with side effects, so that it can be repeated safely.
#[derive(Clone, Debug, PartialEq, Eq, PartialOrd, Ord, Hash)]
pub struct OperationId(pub String);

impl OperationId {
    /// Creates an identifier; its uniqueness is up to the caller.
    #[must_use]
    pub fn new(value: &str) -> (r: Self)
        ensures
            r.0@ == value@,
    {
        OperationId(value.to_owned())
    }
}

/// Identifies a network interface across platforms.
#[derive(Clone, Debug, PartialEq, Eq)]
pub struct InterfaceId {
    /// The platform.
    pub platform: String,
    /// What the platform identifies the interface by; not a name that may change.
    pub stable_id: String,
}

/// What can be observed of a network interface.
#[derive(Clone, Debug, PartialEq, Eq)]
pub struct Interface {
    /// The identifier that survives a restart.
    pub id: InterfaceId,
    /// The hardware address.
    pub mac_address: Option<String>,
    /// The display name.
    pub friendly_name: Option<String>,
    /// The current name.
    pub current_name: String,
    /// The PCI address.
    pub pci_address: Option<String>,
    /// The index.
    pub interface_index: Option<u32>,
}

/// How a profile selects its interface.
#[derive(Clone, Debug, PartialEq, Eq)]
pub enum InterfaceSelector {
    /// By its stable identifier.
    StableId(InterfaceId),
    /// By its PCI address.
    PciAddress(String),
    /// By its hardware address.
    MacAddress(String),
}

/// How version 4 addresses are configured.
#[derive(Clone, Debug, PartialEq, Eq)]
pub enum Ipv4Configuration {
    /// By DHCP.
    Dhcp,
    /// By fixed addresses.
    Static {
        /// The addresses with their prefixes.
        addresses: Vec<IpPrefix>,
    },
    /// Not at all.
    Disabled,
}

/// How version 6 addresses are configured.
#[derive(Clone, Debug, PartialEq, Eq)]
pub enum Ipv6Configuration {
    /// By the platform.
    Automatic,
    /// By fixed addresses.
    Static {
        /// The addresses with their prefixes.
        addresses: Vec<IpPrefix>,
    },
    /// Not at all.
    Disabled,
}

/// An address with a prefix length, which validation holds against the address family.
#[derive(Clone, Copy, Debug, PartialEq, Eq, Structural)]
pub struct IpPrefix {
    /// The address.
    pub address: IpAddr,
    /// The prefix length.
    pub prefix_length: u8,
}

/// How names are resolved.
#[derive(Clone, Debug, PartialEq, Eq)]
pub struct DnsConfiguration {
    /// Whether the servers that DHCP offers are used.
    pub automatic: bool,
    /// The servers.
    pub servers: Vec<IpAddr>,
    /// The search domains.
    pub search_domains: Vec<String>,
}

/// A static route.
#[derive(Clone, Debug, PartialEq, Eq)]
pub struct RouteConfiguration {
    /// The destination network.
    pub destination: IpPrefix,
    /// The next hop; none for a route on the link.
    pub gateway: Option<IpAddr>,
    /// The metric.
    pub metric: Option<u32>,
}

/// How connectivity is verified before a change is kept.
#[derive(Clone, Debug, PartialEq, Eq)]
pub enum ConnectivityPolicy {
    /// Only link and addresses are checked.
    LinkOnly,
    /// The given targets are probed.
    Targets(Vec<IpAddr>),
    /// Nothing is probed; the deadline still holds.
    Disabled,
}

/// How safely a network change is made.
#[derive(Clone, Debug, PartialEq, Eq)]
pub struct SafetyPolicy {
    /// Whether the change has to be confirmed.
    pub safe_apply: bool,
    /// After how many seconds without confirmation it is undone.
    pub confirm_timeout_seconds: u64,
    /// How connectivity is verified.
    pub connectivity_check: ConnectivityPolicy,
}

impl Default for SafetyPolicy {
    fn default() -> (r: Self)
        ensures
            r.safe_apply,
            r.confirm_timeout_seconds == 60,
            r.connectivity_check == ConnectivityPolicy::LinkOnly,
    {
        SafetyPolicy {
            safe_apply: true,
            confirm_timeout_seconds: 60,
            connectivity_check: ConnectivityPolicy::LinkOnly,
        }
    }
}

/// A network profile.
#[derive(Clone, Debug, PartialEq, Eq)]
pub struct NetworkProfile {
    /// The identifier.
    pub id: ProfileId,
    /// The display name.
    pub name: String,
    /// The interface.
    pub interface_selector: InterfaceSelector,
    /// The version 4 configuration.
    pub ipv4: Ipv4Configuration,
    /// The version 6 configuration.
    pub ipv6: Ipv6Configuration,
    /// The name resolution.
    pub dns: DnsConfiguration,
    /// The static routes.
    pub routes: Vec<RouteConfiguration>,
    /// The maximum transmission unit; none leaves it unchanged.
    pub mtu: Option<u32>,
    /// The hosts profile that belongs to it.
    pub hosts_profile: Option<HostsProfileId>,
    /// How safely it is applied.
    pub safety: SafetyPolicy,
}

/// The life of a reservation.
#[derive(Clone, Copy, Debug, PartialEq, Eq, Structural)]
pub enum ReservationState {
    /// Created, without all resources.
    Pending,
    /// All resources are held.
    Active,
    /// Resources are being released.
    Releasing,
    /// All resources are released.
    Released,
    /// Reserving or releasing failed.
    Failed,
}

/// The hardware resources of a fast session.
#[derive(Clone, Debug, PartialEq, Eq)]
pub struct ResourceReservation {
    /// The identifier.
    pub id: ReservationId,
    /// The session that owns it.
    pub session_id: SessionId,
    /// The PCI addresses of its interfaces.
    pub nic_pci_addresses: Vec<String>,
    /// Its queues.
    pub queues: Vec<u16>,
    /// Its logical processors.
    pub cpus: Vec<u32>,
    /// Its share of huge pages in bytes.
    pub huge_page_bytes: u64,
    /// Its state.
    pub state: ReservationState,
}

/// An entry of a hosts profile.
#[derive(Clone, Debug, PartialEq, Eq)]
pub struct HostsEntry {
    /// The identifier.
    pub id: String,
    /// Whether it is written.
    pub enabled: bool,
    /// The address.
    pub address: IpAddr,
    /// The host name.
    pub hostname: String,
    /// A comment.
    pub comment: Option<String>,
    /// Where it stands in the profile.
    pub sort_order: i32,
}

/// A hosts profile.
#[derive(Clone, Debug, PartialEq, Eq)]
pub struct HostsProfile {
    /// The identifier.
    pub id: HostsProfileId,
    /// The display name.
    pub name: String,
    /// The entries.
    pub entries: Vec<HostsEntry>,
}

/// A capability of a node.
#[derive(Clone, Debug, PartialEq, Eq)]
pub struct Capability {
    /// The registered identifier.
    pub id: String,
    /// Its version.
    pub version: u32,
    /// Further limits.
    pub parameters: ValidatedJson,
}

/// A remote node.
#[derive(Clone, Debug, PartialEq, Eq)]
pub struct Node {
    /// The persistent identifier.
    pub id: NodeId,
    /// The display name.
    pub name: String,
    /// The control address that was used last.
    pub last_address: Option<String>,
    /// The capabilities that were negotiated last.
    pub capabilities: Vec<Capability>,
}

/// Whether the identity of a node is trusted.
#[derive(Clone, Copy, Debug, PartialEq, Eq, Structural)]
pub enum TrustStatus {
    /// Not paired.
    Unpaired,
    /// A user has confirmed the fingerprint.
    Trusted,
    /// An administrator has revoked the trust.
    Revoked,
    /// The same node has another fingerprint.
    IdentityChanged,
}

/// The trust in a node; holds no private key.
#[derive(Clone, Debug, PartialEq, Eq)]
pub struct NodeTrust {
    /// The node.
    pub node_id: NodeId,
    /// The fingerprint of its key.
    pub fingerprint: String,
    /// The current status.
    pub status: TrustStatus,
    /// When it was first trusted, in seconds since the epoch.
    pub trusted_at_unix_seconds: Option<u64>,
}

/// The state of a long lived session.
#[derive(Clone, Copy, Debug, PartialEq, Eq, Structural)]
pub enum SessionState {
    /// Created, without resources.
    Created,
    /// Taking resources and checking.
    Preparing,
    /// Waiting for the start.
    Ready,
    /// Running.
    Running,
    /// Stopping.
    Stopping,
    /// Completed.
    Completed,
    /// Cancelled.
    Canceled,
    /// Failed for good.
    Failed,
}

/// What all sessions have.
#[derive(Clone, Debug, PartialEq, Eq)]
pub struct Session {
    /// The identifier.
    pub id: SessionId,
    /// The state.
    pub state: SessionState,
    /// When it was created, in seconds since the epoch.
    pub created_at_unix_seconds: u64,
    /// Its reservation.
    pub reservation_id: Option<ReservationId>,
}

/// The protocol of a speed test.
#[derive(Clone, Copy, Debug, PartialEq, Eq, Structural)]
pub enum SpeedProtocol {
    /// TCP streams.
    Tcp,
    /// UDP datagrams.
    Udp,
    /// Raw Ethernet frames.
    Raw,
}

/// The direction of a test.
#[derive(Clone, Copy, Debug, PartialEq, Eq, Structural)]
pub enum Direction {
    /// From the client to the server.
    Upload,
    /// From the server to the client.
    Download,
    /// Both at once.
    Bidirectional,
}

/// A speed session.
#[derive(Clone, Debug, PartialEq)]
pub struct SpeedSession {
    /// What all sessions have.
    pub session: Session,
    /// The remote node.
    pub remote_node: Option<NodeId>,
    /// The protocol.
    pub protocol: SpeedProtocol,
    /// The registered backend.
    pub backend: String,
    /// The direction.
    pub direction: Direction,
    /// The number of streams.
    pub streams: u16,
    /// The result, when the test is complete.
    pub result: Option<ValidatedJson>,
}

/// What is kept of packets. By default nothing is.
#[derive(Clone, Copy, Debug, PartialEq, Eq, Structural)]
pub enum CaptureMode {
    /// Nothing.
    Off,
    /// Headers.
    Headers,
    /// Everything, because the user asked for it.
    Full,
}

impl Default for CaptureMode {
    fn default() -> (r: Self)
        ensures
            r == CaptureMode::Off,
    {
        CaptureMode::Off
    }
}

/// A packet session.
#[derive(Clone, Debug, PartialEq)]
pub struct PacketSession {
    /// What all sessions have.
    pub session: Session,
    /// The interface.
    pub interface_id: InterfaceId,
    /// The registered backend.
    pub backend: String,
    /// What is kept.
    pub capture_mode: CaptureMode,
    /// Whether packets are analysed as they come.
    pub analysis_enabled: bool,
    /// The final drop counters.
    pub drops: DropCounters,
    /// How far the analysis can be trusted.
    pub confidence: AnalysisConfidence,
}

/// Dropped packets by cause.
#[derive(Clone, Copy, Debug, PartialEq, Eq, Structural)]
pub struct DropCounters {
    /// By the hardware.
    pub nic: u64,
    /// By the capture writer.
    pub capture: u64,
    /// By a full ring.
    pub ring: u64,
    /// By an overloaded analyzer.
    pub analyzer: u64,
    /// By the network, inferred from gaps.
    pub network_inferred_loss: u64,
}

impl Default for DropCounters {
    fn default() -> (r: Self)
        ensures
            r == (DropCounters {
                nic: 0,
                capture: 0,
                ring: 0,
                analyzer: 0,
                network_inferred_loss: 0,
            }),
    {
        DropCounters { nic: 0, capture: 0, ring: 0, analyzer: 0, network_inferred_loss: 0 }
    }
}

/// How far an analysis can be trusted.
#[derive(Clone, Copy, Debug, PartialEq, Eq, Structural)]
pub enum AnalysisConfidence {
    /// Counters are complete and nothing relevant was dropped.
    High,
    /// Sampled, or something minor is missing.
    Medium,
    /// Drops or pressure have affected the result.
    Low,
    /// Not to be used.
    Invalid,
}

/// A benchmark that can be repeated.
#[derive(Clone, Debug, PartialEq)]
pub struct BenchmarkProfile {
    /// The registered identifier.
    pub id: String,
    /// The frame sizes in bytes.
    pub frame_sizes_bytes: Vec<u32>,
    /// The numbers of flows.
    pub flow_counts: Vec<u64>,
    /// The warm up time in seconds.
    pub warmup_seconds: u64,
    /// The measuring time in seconds.
    pub measurement_seconds: u64,
    /// The parameters of the backend.
    pub parameters: ValidatedJson,
}

/// The hardware and software that a certification is bound to.
#[derive(Clone, Debug, PartialEq, Eq)]
pub struct HardwareProfile {
    /// The operating system and its version.
    pub os: String,
    /// The kernel.
    pub kernel: String,
    /// The processor.
    pub cpu: String,
    /// The NUMA topology.
    pub numa: String,
    /// The network interface.
    pub nic: String,
    /// Its PCI address.
    pub pci_address: Option<String>,
    /// Its firmware.
    pub firmware: Option<String>,
    /// The driver and its version.
    pub driver: String,
    /// The backend and its version.
    pub backend: String,
}

/// A stored operation.
#[derive(Clone, Debug, PartialEq, Eq)]
pub struct Operation {
    /// The identifier.
    pub id: OperationId,
    /// The registered action.
    pub action: String,
    /// The stable state name.
    pub state: String,
    /// The stable error code.
    pub error_code: Option<String>,
}

/// An audit record without sensitive content.
#[derive(Clone, Debug, PartialEq, Eq)]
pub struct AuditRecord {
    /// The operation.
    pub operation_id: Option<OperationId>,
    /// The action.
    pub action: String,
    /// The target.
    pub target: Option<String>,
    /// The hash of the state before.
    pub old_state_hash: Option<String>,
    /// The hash of the state after.
    pub new_state_hash: Option<String>,
    /// The verified caller.
    pub caller: String,
    /// The stable result name.
    pub result: String,
}

} // verus!
