//! The Linux adapter: network settings as properties of a `NetworkManager` connection.

use crate::digest;
use crate::digest::sha256;
use crate::domain::{IpPrefix, Ipv4Configuration, Ipv6Configuration, RouteConfiguration};
use crate::error::{ErrorCode, NetToolError};
use crate::helper::command;
use crate::helper::command::{CommandOutput, CommandRunner};
use crate::helper::nm_store::{Snapshots, StoreStep};
use crate::helper::platform;
use crate::helper::platform::{is_snapshot_id, push_be128};
use crate::helper::programs::{Programs, RunStep};
use crate::helper::safe_apply::NetworkExecutor;
use crate::helper_protocol;
use crate::helper_protocol::{FamilyView, NetworkDesiredState, NetworkStateView};
use crate::net::{format_address, IpAddr};
use crate::octets::push_bytes;
use crate::random::random_bytes;
use crate::text;
use crate::text::{
    chars_of, concat, decimal_text, hex_text, join, owned, same, split_on, starts_with, trim,
    whitespace,
};
use vstd::prelude::*;
use vstd::utf8::encode_utf8;

verus! {

/// The version of connection snapshots.
pub const SNAPSHOT_VERSION: u32 = 1;

/// A property of a connection: its name and its value.
pub type Property = (String, String);

/// Properties as texts.
pub open spec fn property_views(properties: Seq<Property>) -> Seq<(Seq<char>, Seq<char>)> {
    Seq::new(properties.len(), |i: int| (properties[i].0@, properties[i].1@))
}

// -------------------------------------------------------------------------- the properties

/// The texts of addresses with their prefixes.
pub open spec fn prefix_texts(prefixes: Seq<IpPrefix>) -> Seq<Seq<char>> {
    Seq::new(
        prefixes.len(),
        |i: int| prefixes[i].address.text() + "/"@ + text::decimal(prefixes[i].prefix_length as nat),
    )
}

/// The value of the method property of a family.
pub open spec fn method_text(family: FamilyView) -> Seq<char> {
    match family {
        FamilyView::Automatic => "auto"@,
        FamilyView::Static(_) => "manual"@,
        FamilyView::Disabled => "disabled"@,
    }
}

/// The value of the address property of a family.
pub open spec fn addresses_text(family: FamilyView) -> Seq<char> {
    match family {
        FamilyView::Static(addresses) => text::joined(prefix_texts(addresses), ","@),
        _ => ""@,
    }
}

/// The texts of the servers of a family, in their order.
pub open spec fn family_servers(servers: Seq<IpAddr>, ipv4: bool) -> Seq<Seq<char>>
    decreases servers.len(),
{
    if servers.len() == 0 {
        Seq::empty()
    } else {
        let head = family_servers(servers.drop_last(), ipv4);
        if (servers.last() is V4) == ipv4 {
            head.push(servers.last().text())
        } else {
            head
        }
    }
}

/// The text of a route: destination, next hop and metric. Where only the metric is given, the
/// unspecified address stands for the next hop.
pub open spec fn route_text(route: RouteConfiguration, ipv4: bool) -> Seq<char> {
    let destination = route.destination.address.text() + "/"@ + text::decimal(
        route.destination.prefix_length as nat,
    );
    let hop = match route.gateway {
        Some(gateway) => " "@ + gateway.text(),
        None => if route.metric is Some {
            if ipv4 {
                " 0.0.0.0"@
            } else {
                " ::"@
            }
        } else {
            ""@
        },
    };
    let metric = match route.metric {
        Some(metric) => " "@ + text::decimal(metric as nat),
        None => ""@,
    };
    destination + hop + metric
}

/// The texts of the routes of a family, in their order.
pub open spec fn family_routes(routes: Seq<RouteConfiguration>, ipv4: bool) -> Seq<Seq<char>>
    decreases routes.len(),
{
    if routes.len() == 0 {
        Seq::empty()
    } else {
        let head = family_routes(routes.drop_last(), ipv4);
        if (routes.last().destination.address is V4) == ipv4 {
            head.push(route_text(routes.last(), ipv4))
        } else {
            head
        }
    }
}

/// Whether the servers that DHCP offers are ignored.
pub open spec fn ignore_text(automatic: bool) -> Seq<char> {
    if automatic {
        "no"@
    } else {
        "yes"@
    }
}

/// The properties that express a configuration, in the order of their names.
pub open spec fn connection_properties(state: NetworkStateView) -> Seq<(Seq<char>, Seq<char>)> {
    let mtu = match state.mtu {
        Some(mtu) => seq![("802-3-ethernet.mtu"@, text::decimal(mtu as nat))],
        None => Seq::empty(),
    };
    mtu + seq![
        ("ipv4.addresses"@, addresses_text(state.ipv4)),
        ("ipv4.dns"@, text::joined(family_servers(state.servers, true), ","@)),
        ("ipv4.dns-search"@, text::joined(state.search_domains, ","@)),
        ("ipv4.ignore-auto-dns"@, ignore_text(state.automatic_dns)),
        ("ipv4.method"@, method_text(state.ipv4)),
        ("ipv4.routes"@, text::joined(family_routes(state.routes, true), ","@)),
        ("ipv6.addresses"@, addresses_text(state.ipv6)),
        ("ipv6.dns"@, text::joined(family_servers(state.servers, false), ","@)),
        ("ipv6.dns-search"@, ""@),
        ("ipv6.ignore-auto-dns"@, ignore_text(state.automatic_dns)),
        ("ipv6.method"@, method_text(state.ipv6)),
        ("ipv6.routes"@, text::joined(family_routes(state.routes, false), ","@)),
    ]
}

fn format_addresses(addresses: &Vec<IpPrefix>) -> (r: String)
    ensures
        r@ == text::joined(prefix_texts(addresses@), ","@),
{
    let mut out: Vec<String> = Vec::new();
    let mut i: usize = 0;
    while i < addresses.len()
        invariant
            i <= addresses@.len(),
            out@.len() == i,
            forall|j: int| 0 <= j < i ==> (#[trigger] out@[j])@ == prefix_texts(addresses@)[j],
        decreases addresses@.len() - i,
    {
        let mut t = format_address(&addresses[i].address);
        t.append("/");
        t.append(decimal_text(addresses[i].prefix_length as u64).as_str());
        out.push(t);
        i += 1;
    }
    proof {
        assert(text::texts(out@) =~= prefix_texts(addresses@));
    }
    join(out.as_slice(), ",")
}

fn format_servers(servers: &Vec<IpAddr>, ipv4: bool) -> (r: String)
    ensures
        r@ == text::joined(family_servers(servers@, ipv4), ","@),
{
    let mut out: Vec<String> = Vec::new();
    let mut i: usize = 0;
    proof {
        assert(text::texts(out@) =~= family_servers(servers@.take(0), ipv4));
    }
    while i < servers.len()
        invariant
            i <= servers@.len(),
            text::texts(out@) == family_servers(servers@.take(i as int), ipv4),
        decreases servers@.len() - i,
    {
        let ghost sofar = text::texts(out@);
        proof {
            assert(servers@.take(i + 1).drop_last() == servers@.take(i as int));
            assert(servers@.take(i + 1).last() == servers@[i as int]);
        }
        if servers[i].is_ipv4() == ipv4 {
            out.push(format_address(&servers[i]));
            proof {
                assert(text::texts(out@) =~= sofar.push(servers@[i as int].text()));
            }
        }
        i += 1;
    }
    proof {
        assert(servers@.take(servers@.len() as int) == servers@);
    }
    join(out.as_slice(), ",")
}

fn format_route(route: &RouteConfiguration, ipv4: bool) -> (r: String)
    ensures
        r@ == route_text(*route, ipv4),
{
    let mut t = format_address(&route.destination.address);
    t.append("/");
    t.append(decimal_text(route.destination.prefix_length as u64).as_str());
    let hop: String = match &route.gateway {
        Some(gateway) => concat(" ", format_address(gateway).as_str()),
        None => if route.metric.is_some() {
            if ipv4 {
                " 0.0.0.0".to_owned()
            } else {
                " ::".to_owned()
            }
        } else {
            "".to_owned()
        },
    };
    let metric: String = match route.metric {
        Some(metric) => concat(" ", decimal_text(metric as u64).as_str()),
        None => "".to_owned(),
    };
    t.append(hop.as_str());
    t.append(metric.as_str());
    t
}

fn format_routes(routes: &Vec<RouteConfiguration>, ipv4: bool) -> (r: String)
    ensures
        r@ == text::joined(family_routes(routes@, ipv4), ","@),
{
    let mut out: Vec<String> = Vec::new();
    let mut i: usize = 0;
    proof {
        assert(text::texts(out@) =~= family_routes(routes@.take(0), ipv4));
    }
    while i < routes.len()
        invariant
            i <= routes@.len(),
            text::texts(out@) == family_routes(routes@.take(i as int), ipv4),
        decreases routes@.len() - i,
    {
        let ghost sofar = text::texts(out@);
        proof {
            assert(routes@.take(i + 1).drop_last() == routes@.take(i as int));
            assert(routes@.take(i + 1).last() == routes@[i as int]);
        }
        if routes[i].destination.address.is_ipv4() == ipv4 {
            out.push(format_route(&routes[i], ipv4));
            proof {
                assert(text::texts(out@) =~= sofar.push(route_text(routes@[i as int], ipv4)));
            }
        }
        i += 1;
    }
    proof {
        assert(routes@.take(routes@.len() as int) == routes@);
    }
    join(out.as_slice(), ",")
}

fn ipv4_property_values(configuration: &Ipv4Configuration) -> (r: (&'static str, String))
    ensures
        r.0@ == method_text(helper_protocol::ipv4_view(*configuration)),
        r.1@ == addresses_text(helper_protocol::ipv4_view(*configuration)),
{
    match configuration {
        Ipv4Configuration::Dhcp => ("auto", "".to_owned()),
        Ipv4Configuration::Static { addresses } => ("manual", format_addresses(addresses)),
        Ipv4Configuration::Disabled => ("disabled", "".to_owned()),
    }
}

fn ipv6_property_values(configuration: &Ipv6Configuration) -> (r: (&'static str, String))
    ensures
        r.0@ == method_text(helper_protocol::ipv6_view(*configuration)),
        r.1@ == addresses_text(helper_protocol::ipv6_view(*configuration)),
{
    match configuration {
        Ipv6Configuration::Automatic => ("auto", "".to_owned()),
        Ipv6Configuration::Static { addresses } => ("manual", format_addresses(addresses)),
        Ipv6Configuration::Disabled => ("disabled", "".to_owned()),
    }
}

fn put(out: &mut Vec<Property>, name: &str, value: String)
    ensures
        property_views(final(out)@) == property_views(old(out)@).push((name@, value@)),
{
    let ghost before = property_views(out@);
    out.push((name.to_owned(), value));
    proof {
        assert(property_views(out@) =~= before.push((name@, value@)));
    }
}

/// Expresses a configuration as the properties of a connection, in the order of their names.
#[must_use]
pub fn build_network_manager_properties(state: &NetworkDesiredState) -> (r: Vec<Property>)
    ensures
        property_views(r@) == connection_properties(state@),
{
    let (method4, addresses4) = ipv4_property_values(&state.ipv4);
    let (method6, addresses6) = ipv6_property_values(&state.ipv6);
    let ignore = if state.dns.automatic {
        "no"
    } else {
        "yes"
    };
    let mut out: Vec<Property> = Vec::new();
    if let Some(mtu) = state.mtu {
        put(&mut out, "802-3-ethernet.mtu", decimal_text(mtu as u64));
    }
    put(&mut out, "ipv4.addresses", addresses4);
    put(&mut out, "ipv4.dns", format_servers(&state.dns.servers, true));
    put(&mut out, "ipv4.dns-search", join(state.dns.search_domains.as_slice(), ","));
    put(&mut out, "ipv4.ignore-auto-dns", ignore.to_owned());
    put(&mut out, "ipv4.method", method4.to_owned());
    put(&mut out, "ipv4.routes", format_routes(&state.routes, true));
    put(&mut out, "ipv6.addresses", addresses6);
    put(&mut out, "ipv6.dns", format_servers(&state.dns.servers, false));
    put(&mut out, "ipv6.dns-search", "".to_owned());
    put(&mut out, "ipv6.ignore-auto-dns", ignore.to_owned());
    put(&mut out, "ipv6.method", method6.to_owned());
    put(&mut out, "ipv6.routes", format_routes(&state.routes, false));
    proof {
        assert(property_views(out@) =~= connection_properties(state@));
    }
    out
}

/// Returns the value of a property.
pub fn find_property<'a>(properties: &'a Vec<Property>, name: &str) -> (r: Option<&'a String>)
    ensures
        match r {
            Some(value) => exists|i: int|
                0 <= i < properties@.len() && (#[trigger] properties@[i]).0@ == name@
                    && properties@[i].1 == *value,
            None => forall|i: int|
                0 <= i < properties@.len() ==> (#[trigger] properties@[i]).0@ != name@,
        },
{
    let mut i: usize = 0;
    while i < properties.len()
        invariant
            i <= properties@.len(),
            forall|j: int| 0 <= j < i ==> (#[trigger] properties@[j]).0@ != name@,
        decreases properties@.len() - i,
    {
        if same(properties[i].0.as_str(), name) {
            return Some(&properties[i].1);
        }
        i += 1;
    }
    None
}

// ------------------------------------------------------------------------- what is read back

/// A property without blanks and empty items between its commas.
pub open spec fn normalized(value: Seq<char>) -> Seq<char> {
    text::joined(text::filled(text::split(value, ',')), ","@)
}

/// Removes blanks and empty items between the commas of a property.
pub fn normalize_property(value: &str) -> (r: String)
    ensures
        r@ == normalized(value@),
{
    let items = split_on(value, ',');
    let ghost all = text::split(value@, ',');
    let mut out: Vec<String> = Vec::new();
    let mut i: usize = 0;
    proof {
        assert(text::texts(out@) =~= text::filled(all.take(0)));
    }
    while i < items.len()
        invariant
            i <= items@.len(),
            text::texts(items@) == all,
            all == text::split(value@, ','),
            text::texts(out@) == text::filled(all.take(i as int)),
        decreases items@.len() - i,
    {
        let item = trim(items[i].as_str());
        let ghost before = text::texts(out@);
        proof {
            assert(all.take(i + 1).drop_last() == all.take(i as int));
            assert(all.take(i + 1).last() == items@[i as int]@);
        }
        if !item.as_str().is_empty() {
            out.push(item);
            proof {
                assert(text::texts(out@) =~= before.push(text::trimmed(items@[i as int]@)));
            }
        }
        i += 1;
    }
    proof {
        assert(all.take(all.len() as int) == all);
    }
    join(out.as_slice(), ",")
}

/// The error of a platform step: what was tried and the detail, or that there is none.
pub open spec fn execution_text(context: Seq<char>, detail: Seq<char>) -> Seq<char> {
    context + ": "@ + (if detail.len() == 0 {
        "no platform detail"@
    } else {
        detail
    })
}

/// The error of a platform step.
pub fn execution_error(context: &str, detail: &str, retryable: bool) -> (r: NetToolError)
    ensures
        r.is(ErrorCode::HelperExecutionFailed, execution_text(context@, detail@), retryable),
{
    let shown = if detail.is_empty() {
        "no platform detail"
    } else {
        detail
    };
    let mut message = context.to_owned();
    message.append(": ");
    message.append(shown);
    NetToolError::new(ErrorCode::HelperExecutionFailed, message.as_str(), retryable)
}

/// Whether what a command printed was taken, or its failure.
pub open spec fn is_checked(output: CommandOutput, r: Result<String, NetToolError>) -> bool {
    match r {
        Ok(stdout) => output.success && stdout@ == output.stdout@,
        Err(e) => !output.success && e.is(
            ErrorCode::HelperExecutionFailed,
            execution_text("NetworkManager command failed"@, text::trimmed(output.stderr@)),
            false,
        ),
    }
}

/// Takes what a successful command printed.
///
/// # Errors
///
/// Fails with what a failed command printed as its error.
pub fn checked_output(output: CommandOutput) -> (r: Result<String, NetToolError>)
    ensures
        is_checked(output, r),
{
    if output.success {
        Ok(output.stdout)
    } else {
        let detail = trim(output.stderr.as_str());
        Err(execution_error("NetworkManager command failed", detail.as_str(), false))
    }
}

/// Whether a text holds a blank.
pub open spec fn has_blank(s: Seq<char>) -> bool {
    exists|i: int| 0 <= i < s.len() && text::is_whitespace(#[trigger] s[i])
}

fn contains_blank(s: &str) -> (r: bool)
    ensures
        r == has_blank(s@),
{
    let v = chars_of(s);
    let mut i: usize = 0;
    while i < v.len()
        invariant
            v@ == s@,
            i <= v@.len(),
            forall|j: int| 0 <= j < i ==> !text::is_whitespace(#[trigger] v@[j]),
        decreases v@.len() - i,
    {
        if whitespace(v[i]) {
            return true;
        }
        i += 1;
    }
    false
}

/// Whether a text names exactly one connection.
pub open spec fn uuid_accepted(uuid: Seq<char>) -> bool {
    uuid.len() > 0 && uuid != "--"@ && !has_blank(uuid)
}

/// Whether the connection that an output names was taken, or refused.
pub open spec fn is_connection(output: Seq<char>, r: Result<String, NetToolError>) -> bool {
    match r {
        Ok(uuid) => uuid_accepted(text::trimmed(output)) && uuid@ == text::trimmed(output),
        Err(e) => !uuid_accepted(text::trimmed(output)) && e.is(
            ErrorCode::HelperExecutionFailed,
            execution_text(
                "resolve active NetworkManager connection UUID"@,
                "device has no unambiguous active connection"@,
            ),
            false,
        ),
    }
}

/// Takes the identifier of the active connection of a device.
///
/// # Errors
///
/// Fails when there is none or more than one.
pub fn accept_uuid(output: &str) -> (r: Result<String, NetToolError>)
    ensures
        is_connection(output@, r),
{
    let uuid = trim(output);
    if uuid.as_str().is_empty() || same(uuid.as_str(), "--") || contains_blank(uuid.as_str()) {
        return Err(
            execution_error(
                "resolve active NetworkManager connection UUID",
                "device has no unambiguous active connection",
                false,
            ),
        );
    }
    Ok(uuid)
}

/// Whether the device type that an output names was accepted, or refused.
pub open spec fn is_ethernet(output: Seq<char>, r: Result<(), NetToolError>) -> bool {
    match r {
        Ok(_) => text::trimmed(output) == "ethernet"@,
        Err(e) => text::trimmed(output) != "ethernet"@ && e.is(
            ErrorCode::Unsupported,
            "Linux NetworkManager executor currently supports Ethernet devices only"@,
            false,
        ),
    }
}

/// Checks that a device is an Ethernet device.
///
/// # Errors
///
/// Fails for any other device.
pub fn accept_device_type(output: &str) -> (r: Result<(), NetToolError>)
    ensures
        is_ethernet(output@, r),
{
    if same(trim(output).as_str(), "ethernet") {
        Ok(())
    } else {
        Err(
            NetToolError::new(
                ErrorCode::Unsupported,
                "Linux NetworkManager executor currently supports Ethernet devices only",
                false,
            ),
        )
    }
}

/// Decides whether a property that was read is the one that was asked for.
pub fn property_matches(actual: &str, expected: &str) -> (r: bool)
    ensures
        r == (normalized(actual@) == normalized(expected@)),
{
    same(normalize_property(actual).as_str(), normalize_property(expected).as_str())
}

// --------------------------------------------------------------------------------- arguments

/// The arguments that query a field of a device.
pub open spec fn device_arguments(field: Seq<char>, interface_id: Seq<char>) -> Seq<Seq<char>> {
    seq!["--get-values"@, field, "device"@, "show"@, interface_id]
}

/// The arguments that query a property of a connection.
pub open spec fn property_arguments(uuid: Seq<char>, property: Seq<char>) -> Seq<Seq<char>> {
    seq!["--get-values"@, property, "connection"@, "show"@, "uuid"@, uuid]
}

/// The arguments that activate a connection on a device.
pub open spec fn activation_arguments(uuid: Seq<char>, interface_id: Seq<char>) -> Seq<Seq<char>> {
    seq![
        "--wait"@,
        "30"@,
        "connection"@,
        "up"@,
        "uuid"@,
        uuid,
        "ifname"@,
        interface_id,
    ]
}

/// The arguments that set properties of a connection.
pub open spec fn modification_arguments(
    uuid: Seq<char>,
    properties: Seq<(Seq<char>, Seq<char>)>,
) -> Seq<Seq<char>> {
    seq!["connection"@, "modify"@, "uuid"@, uuid] + flat(properties)
}

/// The arguments that query a field of a device.
pub fn device_query(field: &str, interface_id: &str) -> (r: Vec<String>)
    ensures
        text::texts(r@) == device_arguments(field@, interface_id@),
{
    let pieces = ["--get-values", field, "device", "show", interface_id];
    proof {
        assert(text::names(pieces@) =~= device_arguments(field@, interface_id@));
    }
    owned(&pieces)
}

/// The arguments that query a property of a connection.
pub fn property_query(uuid: &str, property: &str) -> (r: Vec<String>)
    ensures
        text::texts(r@) == property_arguments(uuid@, property@),
{
    let pieces = ["--get-values", property, "connection", "show", "uuid", uuid];
    proof {
        assert(text::names(pieces@) =~= property_arguments(uuid@, property@));
    }
    owned(&pieces)
}

/// The arguments that activate a connection on a device.
pub fn activation(uuid: &str, interface_id: &str) -> (r: Vec<String>)
    ensures
        text::texts(r@) == activation_arguments(uuid@, interface_id@),
{
    let pieces = ["--wait", "30", "connection", "up", "uuid", uuid, "ifname", interface_id];
    proof {
        assert(text::names(pieces@) =~= activation_arguments(uuid@, interface_id@));
    }
    owned(&pieces)
}

/// Names and values of properties, one behind the other.
pub open spec fn flat(properties: Seq<(Seq<char>, Seq<char>)>) -> Seq<Seq<char>>
    decreases properties.len(),
{
    if properties.len() == 0 {
        Seq::empty()
    } else {
        flat(properties.drop_last()).push(properties.last().0).push(properties.last().1)
    }
}

/// The arguments that set properties of a connection.
pub fn modification(uuid: &str, properties: &Vec<Property>) -> (r: Vec<String>)
    ensures
        text::texts(r@) == modification_arguments(uuid@, property_views(properties@)),
{
    let pieces = ["connection", "modify", "uuid", uuid];
    let ghost base = seq!["connection"@, "modify"@, "uuid"@, uuid@];
    let ghost all = property_views(properties@);
    proof {
        assert(text::names(pieces@) =~= base);
    }
    let mut out = owned(&pieces);
    let mut i: usize = 0;
    proof {
        assert(base + flat(all.take(0)) =~= base);
    }
    while i < properties.len()
        invariant
            i <= properties@.len(),
            all == property_views(properties@),
            text::texts(out@) == base + flat(all.take(i as int)),
        decreases properties@.len() - i,
    {
        let ghost sofar = text::texts(out@);
        proof {
            assert(all.take(i + 1).drop_last() == all.take(i as int));
            assert(all.take(i + 1).last() == all[i as int]);
        }
        out.push(properties[i].0.as_str().to_owned());
        out.push(properties[i].1.as_str().to_owned());
        proof {
            assert(text::texts(out@) =~= sofar.push(all[i as int].0).push(all[i as int].1));
            assert(text::texts(out@) =~= base + flat(all.take(i + 1)));
        }
        i += 1;
    }
    proof {
        assert(all.take(all.len() as int) == all);
    }
    out
}

// --------------------------------------------------------------------------------- snapshots

/// A kept state of a connection.
#[derive(Clone, Debug, PartialEq, Eq)]
pub struct NetworkManagerSnapshot {
    /// The version of the snapshot.
    pub version: u32,
    /// The device.
    pub interface_id: String,
    /// The connection.
    pub connection_uuid: String,
    /// Its properties, in the order of their names.
    pub properties: Vec<Property>,
}

/// Something that keeps snapshots and writes them as JSON.
pub trait NetworkSnapshotStore {
    /// Keeps a snapshot and returns its identifier.
    fn save(&mut self, snapshot: &NetworkManagerSnapshot) -> Result<String, NetToolError>;

    /// Returns a snapshot.
    fn load(&mut self, snapshot_id: &str) -> Result<NetworkManagerSnapshot, NetToolError>;

    /// Writes a snapshot as JSON.
    fn encode(&mut self, snapshot: &NetworkManagerSnapshot) -> Result<Vec<u8>, NetToolError>;
}

/// The name of the file of a snapshot.
///
/// # Errors
///
/// Fails when the text cannot identify a snapshot.
pub fn snapshot_file_name(snapshot_id: &str) -> (r: Result<String, NetToolError>)
    ensures
        match r {
            Ok(name) => platform::snapshot_id_valid(snapshot_id@) && name@ == snapshot_id@
                + ".json"@,
            Err(e) => !platform::snapshot_id_valid(snapshot_id@) && e.is(
                ErrorCode::InvalidArgument,
                "snapshot ID is invalid"@,
                false,
            ),
        },
{
    if !is_snapshot_id(snapshot_id) {
        return Err(NetToolError::new(ErrorCode::InvalidArgument, "snapshot ID is invalid", false));
    }
    Ok(concat(snapshot_id, ".json"))
}

/// The identifier of a snapshot: the digest of random bytes, the time and the device.
pub fn snapshot_id(entropy: &[u8], timestamp_nanos: u128, interface_id: &str) -> (r: String)
    ensures
        r@ == text::hex(
            digest::sha256_of(
                entropy@ + platform::be128(timestamp_nanos) + encode_utf8(interface_id@),
            ),
            false,
        ),
{
    let mut input: Vec<u8> = Vec::new();
    push_bytes(&mut input, entropy);
    push_be128(&mut input, timestamp_nanos);
    push_bytes(&mut input, interface_id.as_bytes());
    proof {
        assert(input@ =~= entropy@ + platform::be128(timestamp_nanos) + encode_utf8(
            interface_id@,
        ));
    }
    hex_text(sha256(input.as_slice()).as_slice(), false)
}

/// Makes a new identifier for a snapshot.
///
/// # Errors
///
/// Fails when there are no random bytes; trying again may help. Whatever the random bytes
/// are, the identifier is the digest of 32 of them, the time and the device.
pub fn new_snapshot_id(timestamp_nanos: u128, interface_id: &str) -> (r: Result<
    String,
    NetToolError,
>)
    ensures
        match r {
            Ok(id) => exists|entropy: Seq<u8>|
                entropy.len() == 32 && id@ == text::hex(
                    #[trigger] digest::sha256_of(
                        entropy + platform::be128(timestamp_nanos) + encode_utf8(interface_id@),
                    ),
                    false,
                ),
            Err(e) => e.code == ErrorCode::RandomFailed && e.retryable && text::has_prefix(
                e.message@,
                "generate snapshot identifier: "@,
            ),
        },
{
    match random_bytes(32) {
        Ok(entropy) => {
            let id = snapshot_id(entropy.as_slice(), timestamp_nanos, interface_id);
            proof {
                let e = entropy@;
                assert(id@ == text::hex(
                    digest::sha256_of(
                        e + platform::be128(timestamp_nanos) + encode_utf8(interface_id@),
                    ),
                    false,
                ));
            }
            Ok(id)
        },
        Err(message) => {
            proof {
                text::lemma_begins_with("generate snapshot identifier: "@, message@);
            }
            Err(
                NetToolError::new(
                    ErrorCode::RandomFailed,
                    concat("generate snapshot identifier: ", message.as_str()).as_str(),
                    true,
                ),
            )
        },
    }
}

/// Checks that a snapshot can be restored.
///
/// # Errors
///
/// Fails when it has another version.
pub fn check_snapshot(snapshot: &NetworkManagerSnapshot) -> (r: Result<(), NetToolError>)
    ensures
        match r {
            Ok(_) => snapshot.version == SNAPSHOT_VERSION,
            Err(e) => snapshot.version != SNAPSHOT_VERSION && e.is(
                ErrorCode::ProtocolIncompatible,
                "network snapshot version is unsupported"@,
                false,
            ),
        },
{
    if snapshot.version != SNAPSHOT_VERSION {
        return Err(
            NetToolError::new(
                ErrorCode::ProtocolIncompatible,
                "network snapshot version is unsupported",
                false,
            ),
        );
    }
    Ok(())
}

// ------------------------------------------------------------------------- how it is carried out

/// Whether a runner was given arguments for a program, and what that printed was taken.
pub open spec fn command_answered(
    from: Seq<RunStep>,
    to: Seq<RunStep>,
    path: Seq<char>,
    arguments: Seq<Seq<char>>,
    r: Result<String, NetToolError>,
) -> bool {
    exists|answer: Result<CommandOutput, NetToolError>|
        to == #[trigger] from.push(((path, arguments), answer)) && match answer {
            Ok(output) => is_checked(output, r),
            Err(e) => r == Err::<String, NetToolError>(e),
        }
}

/// How it is checked that a device is an Ethernet device.
pub open spec fn ethernet_answered(
    from: Seq<RunStep>,
    to: Seq<RunStep>,
    path: Seq<char>,
    interface_id: Seq<char>,
    r: Result<(), NetToolError>,
) -> bool {
    exists|output: Result<String, NetToolError>| #[trigger]
        command_answered(from, to, path, device_arguments("GENERAL.TYPE"@, interface_id), output)
            && match output {
            Ok(printed) => is_ethernet(printed@, r),
            Err(e) => r == Err::<(), NetToolError>(e),
        }
}

/// How the connection of a device is found.
pub open spec fn connection_answered(
    from: Seq<RunStep>,
    to: Seq<RunStep>,
    path: Seq<char>,
    interface_id: Seq<char>,
    r: Result<String, NetToolError>,
) -> bool {
    exists|output: Result<String, NetToolError>| #[trigger]
        command_answered(from, to, path, device_arguments("GENERAL.CON-UUID"@, interface_id), output)
            && match output {
            Ok(printed) => is_connection(printed@, r),
            Err(e) => r == Err::<String, NetToolError>(e),
        }
}

/// How a property of a connection is read.
pub open spec fn property_answered(
    from: Seq<RunStep>,
    to: Seq<RunStep>,
    path: Seq<char>,
    uuid: Seq<char>,
    property: Seq<char>,
    r: Result<String, NetToolError>,
) -> bool {
    exists|output: Result<String, NetToolError>| #[trigger]
        command_answered(from, to, path, property_arguments(uuid, property), output) && match output {
            Ok(printed) => r matches Ok(value) && value@ == text::trimmed(printed@),
            Err(e) => r == Err::<String, NetToolError>(e),
        }
}

/// How properties of a connection are set: all at once; then it is activated.
pub open spec fn properties_set(
    from: Seq<RunStep>,
    to: Seq<RunStep>,
    path: Seq<char>,
    uuid: Seq<char>,
    properties: Seq<(Seq<char>, Seq<char>)>,
    interface_id: Seq<char>,
    r: Result<(), NetToolError>,
) -> bool {
    exists|middle: Seq<RunStep>, changed: Result<String, NetToolError>| #[trigger]
        command_answered(from, middle, path, modification_arguments(uuid, properties), changed)
            && match changed {
            Ok(_) => activated(middle, to, path, uuid, interface_id, r),
            Err(e) => to == middle && r == Err::<(), NetToolError>(e),
        }
}

/// How a connection is activated on a device.
pub open spec fn activated(
    from: Seq<RunStep>,
    to: Seq<RunStep>,
    path: Seq<char>,
    uuid: Seq<char>,
    interface_id: Seq<char>,
    r: Result<(), NetToolError>,
) -> bool {
    exists|output: Result<String, NetToolError>| #[trigger]
        command_answered(from, to, path, activation_arguments(uuid, interface_id), output)
            && match output {
            Ok(_) => r is Ok,
            Err(e) => r == Err::<(), NetToolError>(e),
        }
}

/// The properties that a snapshot keeps, in the order in which they are read.
pub open spec fn reading_order() -> Seq<Seq<char>> {
    seq![
        "ipv4.method"@,
        "ipv4.addresses"@,
        "ipv4.dns"@,
        "ipv4.dns-search"@,
        "ipv4.routes"@,
        "ipv4.ignore-auto-dns"@,
        "ipv6.method"@,
        "ipv6.addresses"@,
        "ipv6.dns"@,
        "ipv6.dns-search"@,
        "ipv6.routes"@,
        "ipv6.ignore-auto-dns"@,
        "802-3-ethernet.mtu"@,
    ]
}

/// The places in the reading order of the properties in the order of their names.
pub open spec fn reading_places() -> Seq<int> {
    seq![12, 1, 2, 3, 5, 0, 4, 7, 8, 9, 11, 6, 10]
}

/// How properties of a connection are read: one behind the other, each once, up to the first
/// that fails. The steps give what was run before each of them and behind the last.
pub open spec fn properties_read(
    steps: Seq<Seq<RunStep>>,
    path: Seq<char>,
    uuid: Seq<char>,
    names: Seq<Seq<char>>,
    values: Seq<Result<String, NetToolError>>,
) -> bool {
    &&& values.len() <= names.len()
    &&& steps.len() == values.len() + 1
    &&& forall|i: int|
        #![trigger values[i]]
        0 <= i < values.len() ==> property_answered(
            steps[i],
            steps[i + 1],
            path,
            uuid,
            names[i],
            values[i],
        ) && (i < values.len() - 1 ==> values[i] is Ok)
}

/// What becomes of the properties of a snapshot that were read.
pub open spec fn properties_kept(
    values: Seq<Result<String, NetToolError>>,
    r: Result<Vec<Property>, NetToolError>,
) -> bool {
    match r {
        Ok(properties) => {
            &&& values.len() == 13
            &&& values.last() is Ok
            &&& properties@.len() == 13
            &&& forall|i: int|
                0 <= i < 13 ==> (#[trigger] properties@[i]).0@ == profile_properties()[i]
                    && properties@[i].1@ == (values[reading_places()[i]]->Ok_0)@
        },
        Err(e) => values.len() > 0 && values.last() == Err::<String, NetToolError>(e),
    }
}

/// How the properties of a connection are read for a snapshot.
pub open spec fn profile_read(
    from: Seq<RunStep>,
    to: Seq<RunStep>,
    path: Seq<char>,
    uuid: Seq<char>,
    r: Result<Vec<Property>, NetToolError>,
) -> bool {
    exists|steps: Seq<Seq<RunStep>>, values: Seq<Result<String, NetToolError>>| #[trigger]
        properties_read(steps, path, uuid, reading_order(), values) && steps[0] == from
            && steps.last() == to && properties_kept(values, r)
}

/// How a snapshot of a device is made. Only an Ethernet device with one connection has one.
pub open spec fn snapshot_made(
    from: Seq<RunStep>,
    to: Seq<RunStep>,
    path: Seq<char>,
    interface_id: Seq<char>,
    r: Result<NetworkManagerSnapshot, NetToolError>,
) -> bool {
    exists|middle: Seq<RunStep>, ethernet: Result<(), NetToolError>| #[trigger]
        ethernet_answered(from, middle, path, interface_id, ethernet) && match ethernet {
            Ok(_) => snapshot_of_connection(middle, to, path, interface_id, r),
            Err(e) => to == middle && r == Err::<NetworkManagerSnapshot, NetToolError>(e),
        }
}

/// How a snapshot of the connection of a device is made.
pub open spec fn snapshot_of_connection(
    from: Seq<RunStep>,
    to: Seq<RunStep>,
    path: Seq<char>,
    interface_id: Seq<char>,
    r: Result<NetworkManagerSnapshot, NetToolError>,
) -> bool {
    exists|middle: Seq<RunStep>, connection: Result<String, NetToolError>| #[trigger]
        connection_answered(from, middle, path, interface_id, connection) && match connection {
            Ok(uuid) => exists|read: Result<Vec<Property>, NetToolError>| #[trigger]
                profile_read(middle, to, path, uuid@, read) && match read {
                    Ok(properties) => r matches Ok(snapshot) && snapshot.version
                        == SNAPSHOT_VERSION && snapshot.interface_id@ == interface_id
                        && snapshot.connection_uuid == uuid && snapshot.properties == properties,
                    Err(e) => r == Err::<NetworkManagerSnapshot, NetToolError>(e),
                },
            Err(e) => to == middle && r == Err::<NetworkManagerSnapshot, NetToolError>(e),
        }
}

/// How a configuration is applied to a device.
pub open spec fn configured(
    from: Seq<RunStep>,
    to: Seq<RunStep>,
    path: Seq<char>,
    interface_id: Seq<char>,
    properties: Seq<(Seq<char>, Seq<char>)>,
    r: Result<(), NetToolError>,
) -> bool {
    exists|middle: Seq<RunStep>, ethernet: Result<(), NetToolError>| #[trigger]
        ethernet_answered(from, middle, path, interface_id, ethernet) && match ethernet {
            Ok(_) => connection_configured(middle, to, path, interface_id, properties, r),
            Err(e) => to == middle && r == Err::<(), NetToolError>(e),
        }
}

/// How a configuration is applied to the connection of a device.
pub open spec fn connection_configured(
    from: Seq<RunStep>,
    to: Seq<RunStep>,
    path: Seq<char>,
    interface_id: Seq<char>,
    properties: Seq<(Seq<char>, Seq<char>)>,
    r: Result<(), NetToolError>,
) -> bool {
    exists|middle: Seq<RunStep>, connection: Result<String, NetToolError>| #[trigger]
        connection_answered(from, middle, path, interface_id, connection) && match connection {
            Ok(uuid) => properties_set(middle, to, path, uuid@, properties, interface_id, r),
            Err(e) => to == middle && r == Err::<(), NetToolError>(e),
        }
}

/// What a comparison of the properties of a connection with expected ones comes to. The first
/// one that cannot be read or does not match ends it.
pub open spec fn properties_compared(
    values: Seq<Result<String, NetToolError>>,
    expected: Seq<(Seq<char>, Seq<char>)>,
    r: Result<(), NetToolError>,
) -> bool {
    let n = values.len() as int;
    &&& n <= expected.len()
    &&& forall|i: int|
        #![trigger values[i]]
        0 <= i < n - 1 ==> (values[i] matches Ok(value) && normalized(value@) == normalized(
            expected[i].1,
        ))
    &&& match r {
        Ok(_) => n == expected.len() && (n > 0 ==> (values[n - 1] matches Ok(value) && normalized(
            value@,
        ) == normalized(expected[n - 1].1))),
        Err(e) => n > 0 && match values[n - 1] {
            Ok(value) => normalized(value@) != normalized(expected[n - 1].1) && is_mismatch(e, expected[n - 1].0),
            Err(f) => e == f,
        },
    }
}

/// Whether an error says that a property was not set as asked for, and names the property.
pub open spec fn is_mismatch(e: NetToolError, property: Seq<char>) -> bool {
    &&& e.code == ErrorCode::HelperExecutionFailed
    &&& e.message@ == execution_text(
        "verify NetworkManager state"@,
        "profile property does not match requested state"@,
    )
    &&& !e.retryable
    &&& e.details@.len() == 1
    &&& e.details@[0].0@ == "property"@
    &&& e.details@[0].1@ == property
}

/// The names of properties.
pub open spec fn property_names(properties: Seq<(Seq<char>, Seq<char>)>) -> Seq<Seq<char>> {
    Seq::new(properties.len(), |i: int| properties[i].0)
}

/// How it is checked that a configuration is in force on a device.
pub open spec fn compared(
    from: Seq<RunStep>,
    to: Seq<RunStep>,
    path: Seq<char>,
    interface_id: Seq<char>,
    expected: Seq<(Seq<char>, Seq<char>)>,
    r: Result<(), NetToolError>,
) -> bool {
    exists|middle: Seq<RunStep>, connection: Result<String, NetToolError>| #[trigger]
        connection_answered(from, middle, path, interface_id, connection) && match connection {
            Ok(uuid) => exists|
                steps: Seq<Seq<RunStep>>,
                values: Seq<Result<String, NetToolError>>,
            | #[trigger]
                properties_read(steps, path, uuid@, property_names(expected), values) && steps[0]
                    == middle && steps.last() == to && properties_compared(values, expected, r),
            Err(e) => to == middle && r == Err::<(), NetToolError>(e),
        }
}

/// How a kept state is restored: it is read back, and its properties are set. What cannot be
/// restored reaches no program.
pub open spec fn restored(
    from: Seq<RunStep>,
    to: Seq<RunStep>,
    kept_from: Seq<StoreStep>,
    kept_to: Seq<StoreStep>,
    path: Seq<char>,
    snapshot_id: Seq<char>,
    r: Result<(), NetToolError>,
) -> bool {
    exists|loaded: Result<NetworkManagerSnapshot, NetToolError>|
        kept_to == #[trigger] kept_from.push(StoreStep::Load(snapshot_id, loaded)) && match loaded {
            Ok(snapshot) => if snapshot.version != SNAPSHOT_VERSION {
                to == from && (r matches Err(e) && e.is(
                    ErrorCode::ProtocolIncompatible,
                    "network snapshot version is unsupported"@,
                    false,
                ))
            } else {
                properties_set(
                    from,
                    to,
                    path,
                    snapshot.connection_uuid@,
                    property_views(snapshot.properties@),
                    snapshot.interface_id@,
                    r,
                )
            },
            Err(e) => to == from && r == Err::<(), NetToolError>(e),
        }
}

/// How the state of a device is read.
pub open spec fn state_read(
    from: Seq<RunStep>,
    to: Seq<RunStep>,
    kept_from: Seq<StoreStep>,
    kept_to: Seq<StoreStep>,
    path: Seq<char>,
    interface_id: Seq<char>,
    r: Result<Vec<u8>, NetToolError>,
) -> bool {
    exists|made: Result<NetworkManagerSnapshot, NetToolError>| #[trigger]
        snapshot_made(from, to, path, interface_id, made) && match made {
            Ok(snapshot) => kept_to == kept_from.push(StoreStep::Encode(snapshot, r)),
            Err(e) => kept_to == kept_from && r == Err::<Vec<u8>, NetToolError>(e),
        }
}

/// How the state of a device is kept.
pub open spec fn state_kept(
    from: Seq<RunStep>,
    to: Seq<RunStep>,
    kept_from: Seq<StoreStep>,
    kept_to: Seq<StoreStep>,
    path: Seq<char>,
    interface_id: Seq<char>,
    r: Result<(String, Vec<u8>), NetToolError>,
) -> bool {
    exists|made: Result<NetworkManagerSnapshot, NetToolError>| #[trigger]
        snapshot_made(from, to, path, interface_id, made) && match made {
            Ok(snapshot) => snapshot_kept(kept_from, kept_to, snapshot, r),
            Err(e) => kept_to == kept_from && r == Err::<(String, Vec<u8>), NetToolError>(e),
        }
}

/// How a snapshot is kept, and written as JSON behind that.
pub open spec fn snapshot_kept(
    from: Seq<StoreStep>,
    to: Seq<StoreStep>,
    snapshot: NetworkManagerSnapshot,
    r: Result<(String, Vec<u8>), NetToolError>,
) -> bool {
    exists|saved: Result<String, NetToolError>|
        {
            let behind = #[trigger] from.push(StoreStep::Save(snapshot, saved));
            match saved {
                Ok(id) => exists|encoded: Result<Vec<u8>, NetToolError>|
                    to == #[trigger] behind.push(StoreStep::Encode(snapshot, encoded))
                        && match encoded {
                        Ok(json) => r == Ok::<(String, Vec<u8>), NetToolError>((id, json)),
                        Err(e) => r == Err::<(String, Vec<u8>), NetToolError>(e),
                    },
                Err(e) => to == behind && r == Err::<(String, Vec<u8>), NetToolError>(e),
            }
        }
}

// ---------------------------------------------------------------------------------- executor

/// Applies network settings with `nmcli`.
pub struct LinuxNetworkManagerExecutor<R, S> {
    programs: Programs<R>,
    snapshots: Snapshots<S>,
    nmcli_path: String,
}

impl<R: CommandRunner, S: NetworkSnapshotStore> LinuxNetworkManagerExecutor<R, S> {
    /// The path of `nmcli`.
    pub closed spec fn path(self) -> Seq<char> {
        self.nmcli_path@
    }

    /// The programs that were run.
    pub closed spec fn runs(self) -> Seq<RunStep> {
        self.programs.log()
    }

    /// The calls that were made of the store.
    pub closed spec fn kept(self) -> Seq<StoreStep> {
        self.snapshots.log()
    }

    /// Creates an executor. The path of `nmcli` has to be absolute, so that the search path
    /// plays no part.
    ///
    /// # Errors
    ///
    /// Fails when the path is not absolute.
    pub fn new(runner: R, store: S, nmcli_path: &str) -> (r: Result<Self, NetToolError>)
        ensures
            match r {
                Ok(executor) => text::has_prefix(nmcli_path@, "/"@) && executor.path()
                    == nmcli_path@ && executor.runs() == Seq::<RunStep>::empty() && executor.kept()
                    == Seq::<StoreStep>::empty(),
                Err(e) => !text::has_prefix(nmcli_path@, "/"@) && e.is(
                    ErrorCode::InvalidArgument,
                    "nmcli path must be absolute"@,
                    false,
                ),
            },
    {
        if !starts_with(nmcli_path, "/") {
            return Err(
                NetToolError::new(ErrorCode::InvalidArgument, "nmcli path must be absolute", false),
            );
        }
        Ok(
            LinuxNetworkManagerExecutor {
                programs: Programs::new(runner),
                snapshots: Snapshots::new(store),
                nmcli_path: nmcli_path.to_owned(),
            },
        )
    }

    fn run_checked(&mut self, arguments: &Vec<String>) -> (r: Result<String, NetToolError>)
        ensures
            final(self).path() == old(self).path(),
            final(self).kept() == old(self).kept(),
            command_answered(old(self).runs(), final(self).runs(), old(self).path(), text::texts(arguments@), r),
    {
        let program = self.nmcli_path.as_str();
        let pieces = arguments.as_slice();
        let ghost from = self.runs();
        let answer = self.programs.run(program, pieces);
        proof {
            assert(self.runs() == from.push(((self.path(), text::texts(arguments@)), answer)));
        }
        match answer {
            Ok(output) => checked_output(output),
            Err(e) => Err(e),
        }
    }

    fn connection_uuid(&mut self, interface_id: &str) -> (r: Result<String, NetToolError>)
        ensures
            final(self).path() == old(self).path(),
            final(self).kept() == old(self).kept(),
            connection_answered(old(self).runs(), final(self).runs(), old(self).path(), interface_id@, r),
    {
        let ghost from = self.runs();
        let output = self.run_checked(&device_query("GENERAL.CON-UUID", interface_id));
        proof {
            assert(command_answered(
                from,
                self.runs(),
                self.path(),
                device_arguments("GENERAL.CON-UUID"@, interface_id@),
                output,
            ));
        }
        match output {
            Ok(printed) => accept_uuid(printed.as_str()),
            Err(e) => Err(e),
        }
    }

    fn ensure_ethernet(&mut self, interface_id: &str) -> (r: Result<(), NetToolError>)
        ensures
            final(self).path() == old(self).path(),
            final(self).kept() == old(self).kept(),
            ethernet_answered(old(self).runs(), final(self).runs(), old(self).path(), interface_id@, r),
    {
        let ghost from = self.runs();
        let output = self.run_checked(&device_query("GENERAL.TYPE", interface_id));
        proof {
            assert(command_answered(
                from,
                self.runs(),
                self.path(),
                device_arguments("GENERAL.TYPE"@, interface_id@),
                output,
            ));
        }
        match output {
            Ok(printed) => accept_device_type(printed.as_str()),
            Err(e) => Err(e),
        }
    }

    fn read_property(&mut self, uuid: &str, property: &str) -> (r: Result<String, NetToolError>)
        ensures
            final(self).path() == old(self).path(),
            final(self).kept() == old(self).kept(),
            property_answered(old(self).runs(), final(self).runs(), old(self).path(), uuid@, property@, r),
    {
        let ghost from = self.runs();
        let output = self.run_checked(&property_query(uuid, property));
        proof {
            assert(command_answered(
                from,
                self.runs(),
                self.path(),
                property_arguments(uuid@, property@),
                output,
            ));
        }
        match output {
            Ok(printed) => Ok(trim(printed.as_str())),
            Err(e) => Err(e),
        }
    }

    fn set_properties(
        &mut self,
        uuid: &str,
        properties: &Vec<Property>,
        interface_id: &str,
    ) -> (r: Result<(), NetToolError>)
        ensures
            final(self).path() == old(self).path(),
            final(self).kept() == old(self).kept(),
            properties_set(
                old(self).runs(),
                final(self).runs(),
                old(self).path(),
                uuid@,
                property_views(properties@),
                interface_id@,
                r,
            ),
    {
        let ghost l0 = self.runs();
        let changed = self.run_checked(&modification(uuid, properties));
        let ghost l1 = self.runs();
        let ghost first = changed;
        proof {
            assert(command_answered(
                l0,
                l1,
                self.path(),
                modification_arguments(uuid@, property_views(properties@)),
                first,
            ));
        }
        match changed {
            Ok(_) => {},
            Err(e) => {
                return Err(e);
            },
        }
        let output = self.run_checked(&activation(uuid, interface_id));
        let ghost second = output;
        let r = match output {
            Ok(_) => Ok(()),
            Err(e) => Err(e),
        };
        proof {
            assert(command_answered(
                l1,
                self.runs(),
                self.path(),
                activation_arguments(uuid@, interface_id@),
                second,
            ));
            assert(activated(l1, self.runs(), self.path(), uuid@, interface_id@, r));
        }
        r
    }

    /// Reads the properties of a connection and puts them in the order of their names.
    fn read_properties(&mut self, uuid: &str) -> (r: Result<Vec<Property>, NetToolError>)
        ensures
            final(self).path() == old(self).path(),
            final(self).kept() == old(self).kept(),
            profile_read(old(self).runs(), final(self).runs(), old(self).path(), uuid@, r),
    {
        let names = [
            "ipv4.method",
            "ipv4.addresses",
            "ipv4.dns",
            "ipv4.dns-search",
            "ipv4.routes",
            "ipv4.ignore-auto-dns",
            "ipv6.method",
            "ipv6.addresses",
            "ipv6.dns",
            "ipv6.dns-search",
            "ipv6.routes",
            "ipv6.ignore-auto-dns",
            "802-3-ethernet.mtu",
        ];
        proof {
            assert(text::names(names@) =~= reading_order());
        }
        let ghost mut steps: Seq<Seq<RunStep>> = seq![self.runs()];
        let ghost mut answers: Seq<Result<String, NetToolError>> = Seq::empty();
        let mut read: Vec<String> = Vec::new();
        let mut i: usize = 0;
        while i < 13
            invariant
                i <= 13,
                names@.len() == 13,
                text::names(names@) == reading_order(),
                read@.len() == i,
                answers.len() == i,
                steps.len() == i + 1,
                steps[0] == old(self).runs(),
                steps.last() == self.runs(),
                self.kept() == old(self).kept(),
                forall|k: int|
                    #![trigger answers[k]]
                    0 <= k < i ==> property_answered(
                        steps[k],
                        steps[k + 1],
                        self.path(),
                        uuid@,
                        reading_order()[k],
                        answers[k],
                    ) && (answers[k] matches Ok(value) && value@ == read@[k]@),
                self.path() == old(self).path(),
            decreases 13 - i,
        {
            proof {
                assert(text::names(names@)[i as int] == names@[i as int]@);
            }
            let answer = self.read_property(uuid, names[i]);
            proof {
                answers = answers.push(answer);
                steps = steps.push(self.runs());
            }
            match answer {
                Ok(value) => {
                    read.push(value);
                },
                Err(e) => {
                    proof {
                        let r = Err::<Vec<Property>, NetToolError>(e);
                        assert(properties_read(
                            steps,
                            self.path(),
                            uuid@,
                            reading_order(),
                            answers,
                        ));
                        assert(properties_kept(answers, r));
                    }
                    return Err(e);
                },
            }
            i += 1;
        }
        let places: [usize; 13] = [12, 1, 2, 3, 5, 0, 4, 7, 8, 9, 11, 6, 10];
        let mut out: Vec<Property> = Vec::new();
        let mut k: usize = 0;
        while k < 13
            invariant
                k <= 13,
                names@.len() == 13,
                text::names(names@) == reading_order(),
                read@.len() == 13,
                places@ == seq![12usize, 1, 2, 3, 5, 0, 4, 7, 8, 9, 11, 6, 10],
                out@.len() == k,
                forall|j: int|
                    0 <= j < k ==> (#[trigger] out@[j]).0@ == profile_properties()[j]
                        && out@[j].1@ == read@[reading_places()[j]]@,
            decreases 13 - k,
        {
            let at: usize = places[k];
            proof {
                assert(at == reading_places()[k as int]);
                assert(text::names(names@)[at as int] == names@[at as int]@);
                assert(reading_order()[reading_places()[k as int]] == profile_properties()[k as int]);
            }
            out.push((names[at].to_owned(), read[at].as_str().to_owned()));
            k += 1;
        }
        proof {
            let r = Ok::<Vec<Property>, NetToolError>(out);
            assert(properties_read(steps, self.path(), uuid@, reading_order(), answers));
            assert forall|j: int| 0 <= j < 13 implies (#[trigger] out@[j]).1@ == (
            answers[reading_places()[j]]->Ok_0)@ by {
                let at = reading_places()[j];
                assert(0 <= at < 13);
                assert(answers[at] is Ok);
            }
            assert(answers[12] is Ok);
            assert(properties_kept(answers, r));
        }
        Ok(out)
    }

    fn current_snapshot(&mut self, interface_id: &str) -> (r: Result<
        NetworkManagerSnapshot,
        NetToolError,
    >)
        ensures
            final(self).path() == old(self).path(),
            final(self).kept() == old(self).kept(),
            snapshot_made(old(self).runs(), final(self).runs(), old(self).path(), interface_id@, r),
    {
        let ghost l0 = self.runs();
        let ethernet = self.ensure_ethernet(interface_id);
        let ghost checked = ethernet;
        let ghost l1 = self.runs();
        proof {
            assert(ethernet_answered(l0, l1, self.path(), interface_id@, checked));
        }
        match ethernet {
            Ok(_) => {},
            Err(e) => {
                return Err(e);
            },
        }
        let connection = self.connection_uuid(interface_id);
        let ghost found = connection;
        let ghost l2 = self.runs();
        proof {
            assert(connection_answered(l1, l2, self.path(), interface_id@, found));
        }
        let connection_uuid = match connection {
            Ok(uuid) => uuid,
            Err(e) => {
                proof {
                    let r = Err::<NetworkManagerSnapshot, NetToolError>(e);
                    assert(snapshot_of_connection(l1, l2, self.path(), interface_id@, r));
                }
                return Err(e);
            },
        };
        let ghost uuid = connection_uuid@;
        let read = self.read_properties(connection_uuid.as_str());
        let ghost kept = read;
        let r = match read {
            Ok(properties) => Ok(
                NetworkManagerSnapshot {
                    version: SNAPSHOT_VERSION,
                    interface_id: interface_id.to_owned(),
                    connection_uuid,
                    properties,
                },
            ),
            Err(e) => Err(e),
        };
        proof {
            assert(profile_read(l2, self.runs(), self.path(), uuid, kept));
            assert(snapshot_of_connection(l1, self.runs(), self.path(), interface_id@, r));
        }
        r
    }
}

/// The properties that a snapshot keeps.
pub open spec fn profile_properties() -> Seq<Seq<char>> {
    seq![
        "802-3-ethernet.mtu"@,
        "ipv4.addresses"@,
        "ipv4.dns"@,
        "ipv4.dns-search"@,
        "ipv4.ignore-auto-dns"@,
        "ipv4.method"@,
        "ipv4.routes"@,
        "ipv6.addresses"@,
        "ipv6.dns"@,
        "ipv6.dns-search"@,
        "ipv6.ignore-auto-dns"@,
        "ipv6.method"@,
        "ipv6.routes"@,
    ]
}

/// Every property that a configuration sets is one that a snapshot keeps, so that restoring a
/// snapshot undoes all of it.
pub proof fn law_snapshots_cover_what_is_set(state: NetworkStateView, i: int)
    requires
        0 <= i < connection_properties(state).len(),
    ensures
        profile_properties().contains(connection_properties(state)[i].0),
{
    let n = connection_properties(state).len();
    let kept = profile_properties();
    let k = if n == 13 {
        i
    } else {
        i + 1
    };
    assert(kept[k] == connection_properties(state)[i].0);
}

impl<R: CommandRunner, S: NetworkSnapshotStore> NetworkExecutor for LinuxNetworkManagerExecutor<
    R,
    S,
> {
    fn read_state(&mut self, interface_id: &str) -> (r: Result<Vec<u8>, NetToolError>)
        ensures
            final(self).path() == old(self).path(),
            state_read(
                old(self).runs(),
                final(self).runs(),
                old(self).kept(),
                final(self).kept(),
                old(self).path(),
                interface_id@,
                r,
            ),
    {
        let ghost from = self.runs();
        let made = self.current_snapshot(interface_id);
        let ghost first = made;
        proof {
            assert(snapshot_made(from, self.runs(), self.path(), interface_id@, first));
        }
        match made {
            Ok(snapshot) => self.snapshots.encode(&snapshot),
            Err(e) => Err(e),
        }
    }

    fn snapshot(&mut self, interface_id: &str) -> (r: Result<(String, Vec<u8>), NetToolError>)
        ensures
            final(self).path() == old(self).path(),
            state_kept(
                old(self).runs(),
                final(self).runs(),
                old(self).kept(),
                final(self).kept(),
                old(self).path(),
                interface_id@,
                r,
            ),
    {
        let ghost from = self.runs();
        let ghost k0 = self.kept();
        let made = self.current_snapshot(interface_id);
        let ghost first = made;
        proof {
            assert(snapshot_made(from, self.runs(), self.path(), interface_id@, first));
        }
        let snapshot = match made {
            Ok(snapshot) => snapshot,
            Err(e) => {
                return Err(e);
            },
        };
        let saved = self.snapshots.save(&snapshot);
        let ghost second = saved;
        let ghost k1 = self.kept();
        proof {
            assert(k1 == k0.push(StoreStep::Save(snapshot, second)));
        }
        let id = match saved {
            Ok(id) => id,
            Err(e) => {
                proof {
                    let r = Err::<(String, Vec<u8>), NetToolError>(e);
                    assert(snapshot_kept(k0, k1, snapshot, r));
                }
                return Err(e);
            },
        };
        let encoded = self.snapshots.encode(&snapshot);
        let ghost third = encoded;
        proof {
            assert(self.kept() == k1.push(StoreStep::Encode(snapshot, third)));
        }
        let r = match encoded {
            Ok(bytes) => Ok((id, bytes)),
            Err(e) => Err(e),
        };
        proof {
            assert(snapshot_kept(k0, self.kept(), snapshot, r));
        }
        r
    }

    /// Applies a configuration. One that is not valid reaches no program.
    fn apply(&mut self, interface_id: &str, desired_state: &NetworkDesiredState) -> (r: Result<
        (),
        NetToolError,
    >)
        ensures
            final(self).path() == old(self).path(),
            match helper_protocol::state_fault(*desired_state) {
                Some(fault) => {
                    &&& *final(self) == *old(self)
                    &&& r matches Err(e) && e.is(ErrorCode::InvalidArgument, fault, false)
                },
                None => final(self).kept() == old(self).kept() && configured(
                    old(self).runs(),
                    final(self).runs(),
                    old(self).path(),
                    interface_id@,
                    connection_properties(desired_state@),
                    r,
                ),
            },
    {
        match desired_state.validate() {
            Ok(_) => {},
            Err(message) => {
                return Err(NetToolError::new(ErrorCode::InvalidArgument, message, false));
            },
        }
        let ghost l0 = self.runs();
        let ethernet = self.ensure_ethernet(interface_id);
        let ghost checked = ethernet;
        let ghost l1 = self.runs();
        proof {
            assert(ethernet_answered(l0, l1, self.path(), interface_id@, checked));
        }
        match ethernet {
            Ok(_) => {},
            Err(e) => {
                return Err(e);
            },
        }
        let connection = self.connection_uuid(interface_id);
        let ghost found = connection;
        let ghost l2 = self.runs();
        let ghost wanted = connection_properties(desired_state@);
        proof {
            assert(connection_answered(l1, l2, self.path(), interface_id@, found));
        }
        let uuid = match connection {
            Ok(uuid) => uuid,
            Err(e) => {
                proof {
                    let r = Err::<(), NetToolError>(e);
                    assert(connection_configured(l1, l2, self.path(), interface_id@, wanted, r));
                }
                return Err(e);
            },
        };
        let properties = build_network_manager_properties(desired_state);
        let r = self.set_properties(uuid.as_str(), &properties, interface_id);
        proof {
            assert(connection_configured(
                l1,
                self.runs(),
                self.path(),
                interface_id@,
                wanted,
                r,
            ));
        }
        r
    }

    fn verify(&mut self, interface_id: &str, desired_state: &NetworkDesiredState) -> (r: Result<
        (),
        NetToolError,
    >)
        ensures
            final(self).path() == old(self).path(),
            final(self).kept() == old(self).kept(),
            compared(
                old(self).runs(),
                final(self).runs(),
                old(self).path(),
                interface_id@,
                connection_properties(desired_state@),
                r,
            ),
    {
        let ghost from = self.runs();
        let connection = self.connection_uuid(interface_id);
        let ghost found = connection;
        let ghost middle = self.runs();
        proof {
            assert(connection_answered(from, middle, self.path(), interface_id@, found));
        }
        let uuid = match connection {
            Ok(uuid) => uuid,
            Err(e) => {
                return Err(e);
            },
        };
        let expected = build_network_manager_properties(desired_state);
        let ghost wanted = connection_properties(desired_state@);
        let ghost mut steps: Seq<Seq<RunStep>> = seq![self.runs()];
        let ghost mut values: Seq<Result<String, NetToolError>> = Seq::empty();
        let mut i: usize = 0;
        while i < expected.len()
            invariant
                i <= expected@.len(),
                wanted == property_views(expected@),
                values.len() == i,
                forall|k: int|
                    #![trigger values[k]]
                    0 <= k < i ==> property_answered(
                        steps[k],
                        steps[k + 1],
                        self.path(),
                        uuid@,
                        property_names(wanted)[k],
                        values[k],
                    ) && (values[k] matches Ok(value) && normalized(value@) == normalized(
                        wanted[k].1,
                    )),
                self.path() == old(self).path(),
                found == Ok::<String, NetToolError>(uuid),
                connection_answered(from, middle, self.path(), interface_id@, found),
                from == old(self).runs(),
                steps.len() == i + 1,
                steps[0] == middle,
                steps.last() == self.runs(),
                self.kept() == old(self).kept(),
                wanted == connection_properties(desired_state@),
            decreases expected@.len() - i,
        {
            proof {
                assert(wanted[i as int] == (expected@[i as int].0@, expected@[i as int].1@));
            }
            let answer = self.read_property(uuid.as_str(), expected[i].0.as_str());
            proof {
                values = values.push(answer);
                steps = steps.push(self.runs());
            }
            let actual = match answer {
                Ok(actual) => actual,
                Err(e) => {
                    proof {
                        let r = Err::<(), NetToolError>(e);
                        assert(properties_read(
                            steps,
                            self.path(),
                            uuid@,
                            property_names(wanted),
                            values,
                        ));
                        assert(properties_compared(values, wanted, r));
                    }
                    return Err(e);
                },
            };
            if !property_matches(actual.as_str(), expected[i].1.as_str()) {
                let error = property_mismatch(expected[i].0.as_str());
                proof {
                    let r = Err::<(), NetToolError>(error);
                    assert(properties_read(
                        steps,
                        self.path(),
                        uuid@,
                        property_names(wanted),
                        values,
                    ));
                    assert(properties_compared(values, wanted, r));
                }
                return Err(error);
            }
            i += 1;
        }
        proof {
            assert(properties_read(steps, self.path(), uuid@, property_names(wanted), values));
            assert(properties_compared(values, wanted, Ok(())));
        }
        Ok(())
    }

    /// Restores a kept state. What cannot identify a snapshot reaches neither store nor
    /// program.
    fn restore(&mut self, snapshot_id: &str) -> (r: Result<(), NetToolError>)
        ensures
            final(self).path() == old(self).path(),
            if platform::snapshot_id_valid(snapshot_id@) {
                restored(
                    old(self).runs(),
                    final(self).runs(),
                    old(self).kept(),
                    final(self).kept(),
                    old(self).path(),
                    snapshot_id@,
                    r,
                )
            } else {
                &&& *final(self) == *old(self)
                &&& r matches Err(e) && e.is(
                    ErrorCode::InvalidArgument,
                    "snapshot ID is invalid"@,
                    false,
                )
            },
    {
        match snapshot_file_name(snapshot_id) {
            Ok(_) => {},
            Err(e) => {
                return Err(e);
            },
        }
        let ghost from = self.kept();
        let loaded = self.snapshots.load(snapshot_id);
        let ghost first = loaded;
        proof {
            assert(self.kept() == from.push(StoreStep::Load(snapshot_id@, first)));
        }
        let snapshot = match loaded {
            Ok(snapshot) => snapshot,
            Err(e) => {
                return Err(e);
            },
        };
        match check_snapshot(&snapshot) {
            Ok(_) => {},
            Err(e) => {
                return Err(e);
            },
        }
        self.set_properties(
            snapshot.connection_uuid.as_str(),
            &snapshot.properties,
            snapshot.interface_id.as_str(),
        )
    }
}

/// The error of a property that was not set as asked for; its details name the property.
pub fn property_mismatch(property: &str) -> (r: NetToolError)
    ensures
        is_mismatch(r, property@),
{
    let mut error = execution_error(
        "verify NetworkManager state",
        "profile property does not match requested state",
        false,
    );
    error.details.push(("property".to_owned(), property.to_owned()));
    error
}

} // verus!
