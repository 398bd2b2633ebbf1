//! The Windows adapter: commands for `netsh.exe`, and what the state query returns.

use crate::domain::{DnsConfiguration, IpPrefix, Ipv4Configuration, Ipv6Configuration};
use crate::error::{ErrorCode, NetToolError};
use crate::helper::command;
use crate::helper::command::{
    invalid, run_validated_platform_command, validate_commands, validate_interface, CommandRunner,
    CommandView, PlatformCommand, NETSH_EXE, POWERSHELL_EXE,
};
use crate::helper::macos;
use crate::helper::macos::{parse_addresses, reader_error};
use crate::helper::platform::PlatformStateReader;
use crate::helper::programs::{Programs, RunStep};
use crate::helper_protocol;
use crate::helper_protocol::{FamilyView, NetworkDesiredState, NetworkStateView};
use crate::json;
use crate::json::{find_member, JsonNumber, JsonValue};
use crate::net;
use crate::net::{format_address, format_v4, mask_of, parse_v4, parse_v6, IpAddr};
use crate::text;
use crate::text::{concat, decimal_text, owned, same, split_on};
use vstd::prelude::*;

verus! {

// --------------------------------------------------------------------------- the state query

/// The version of the schema that the state query returns.
pub const WINDOWS_STATE_SCHEMA_VERSION: u32 = 1;

/// The script that queries the state of an interface. The name of the interface is a separate
/// argument and never part of the script.
pub const WINDOWS_STATE_QUERY: &'static str = r"& {
param([Parameter(Mandatory=$true)][string]$InterfaceId)
$ErrorActionPreference = 'Stop'
Set-StrictMode -Version Latest
[Console]::OutputEncoding = [System.Text.UTF8Encoding]::new($false)
$adapter = @(Get-NetAdapter -Name $InterfaceId -ErrorAction Stop)
if ($adapter.Count -ne 1) { throw 'interface lookup did not return exactly one adapter' }
$index = $adapter[0].ifIndex
$v4Interface = @(Get-NetIPInterface -InterfaceIndex $index -AddressFamily IPv4 -ErrorAction Stop)
$v6Interface = @(Get-NetIPInterface -InterfaceIndex $index -AddressFamily IPv6 -ErrorAction Stop)
if ($v4Interface.Count -ne 1 -or $v6Interface.Count -ne 1) { throw 'IP interface lookup did not return exactly one entry per family' }
$v4 = @(Get-NetIPAddress -InterfaceIndex $index -AddressFamily IPv4 -ErrorAction Stop |
    Where-Object { $_.AddressState -eq 'Preferred' }) |
    ForEach-Object { @{ address=$_.IPAddress; prefix_length=[int]$_.PrefixLength } }
$v6 = @(Get-NetIPAddress -InterfaceIndex $index -AddressFamily IPv6 -ErrorAction Stop |
    Where-Object { $_.AddressState -eq 'Preferred' -and $_.PrefixOrigin -eq 'Manual' }) |
    ForEach-Object { @{ address=$_.IPAddress; prefix_length=[int]$_.PrefixLength } }
$routes = @(Get-NetRoute -InterfaceIndex $index -ErrorAction Stop |
    Where-Object { $_.RouteMetric -ge 0 -and $_.NextHop -notin @('0.0.0.0','::') })
$gateways = @($routes | Where-Object { $_.DestinationPrefix -in @('0.0.0.0/0','::/0') } |
    ForEach-Object { $_.NextHop })
$dns = @(Get-DnsClientServerAddress -InterfaceIndex $index -ErrorAction Stop |
    ForEach-Object { $_.ServerAddresses } | Where-Object { $_ })
$ipv6State = if ($v6.Count -gt 0) {
    'static'
} elseif ($v6Interface[0].RouterDiscovery -eq 'Disabled' -and $v6Interface[0].Dhcp -eq 'Disabled') {
    'disabled'
} else {
    'automatic'
}
@{ schema_version=1; interface_count=$adapter.Count; interface_id=$adapter[0].Name;
   ipv4=@{ dhcp=($v4Interface[0].Dhcp -eq 'Enabled'); addresses=@($v4) };
   ipv6=@{ state=$ipv6State; addresses=@($v6) };
   dns=@{ servers=@($dns) }; mtu=[int]$v4Interface[0].NlMtu;
   default_gateways=@($gateways); route_count=$routes.Count } | ConvertTo-Json -Compress -Depth 6
}";

/// The arguments of the state query.
pub open spec fn query_arguments(interface_id: Seq<char>) -> Seq<Seq<char>> {
    seq![
        "-NoLogo"@,
        "-NoProfile"@,
        "-NonInteractive"@,
        "-ExecutionPolicy"@,
        "Bypass"@,
        "-Command"@,
        WINDOWS_STATE_QUERY@,
        "--"@,
        interface_id,
    ]
}

/// What is wrong with the arguments of a state query, if something is: they have to be those
/// of the query, with the valid name of an interface at the end.
pub open spec fn query_fault(arguments: Seq<Seq<char>>) -> Option<Seq<char>> {
    if arguments.len() != 9 || arguments != query_arguments(arguments[8]) {
        Some("PowerShell state query arguments are not allowlisted"@)
    } else {
        command::interface_fault(arguments[8])
    }
}

/// Checks that a command is the state query.
///
/// # Errors
///
/// Fails when an argument differs, or when the name of the interface is not valid.
pub fn validate_state_query_command(command: &PlatformCommand) -> (r: Result<(), NetToolError>)
    ensures
        match r {
            Ok(_) => query_fault(command@.1) is None,
            Err(e) => query_fault(command@.1) is Some && e.is(
                ErrorCode::InvalidArgument,
                query_fault(command@.1)->0,
                false,
            ),
        },
{
    let ghost arguments = text::texts(command.arguments@);
    if command.arguments.len() != 9 {
        return Err(invalid("PowerShell state query arguments are not allowlisted"));
    }
    let expected = [
        "-NoLogo",
        "-NoProfile",
        "-NonInteractive",
        "-ExecutionPolicy",
        "Bypass",
        "-Command",
        WINDOWS_STATE_QUERY,
        "--",
    ];
    let ghost wanted = query_arguments(arguments[8]);
    proof {
        assert(arguments[8] == command.arguments@[8]@);
        assert(text::names(expected@) =~= wanted.take(8));
    }
    let mut i: usize = 0;
    while i < 8
        invariant
            i <= 8,
            command.arguments@.len() == 9,
            arguments == text::texts(command.arguments@),
            wanted == query_arguments(arguments[8]),
            expected@.len() == 8,
            text::names(expected@) == wanted.take(8),
            forall|j: int| 0 <= j < i ==> arguments[j] == wanted[j],
        decreases 8 - i,
    {
        proof {
            assert(arguments[i as int] == command.arguments@[i as int]@);
            assert(text::names(expected@)[i as int] == expected@[i as int]@);
            assert(wanted.take(8)[i as int] == wanted[i as int]);
        }
        if !same(command.arguments[i].as_str(), expected[i]) {
            proof {
                assert(arguments[i as int] != wanted[i as int]);
            }
            return Err(invalid("PowerShell state query arguments are not allowlisted"));
        }
        i += 1;
    }
    proof {
        assert(arguments =~= wanted);
    }
    validate_interface(command.arguments[8].as_str())
}

/// Builds the state query for an interface.
pub fn state_query_command(interface_id: &str) -> (r: PlatformCommand)
    ensures
        r@ == (POWERSHELL_EXE@, query_arguments(interface_id@)),
{
    let pieces = [
        "-NoLogo",
        "-NoProfile",
        "-NonInteractive",
        "-ExecutionPolicy",
        "Bypass",
        "-Command",
        WINDOWS_STATE_QUERY,
        "--",
        interface_id,
    ];
    proof {
        assert(text::names(pieces@) =~= query_arguments(interface_id@));
    }
    PlatformCommand { program: POWERSHELL_EXE.to_owned(), arguments: owned(&pieces) }
}

// ---------------------------------------------------------------------- the queried document

/// An address in the queried state.
#[derive(Clone, Debug)]
pub struct WindowsAddress {
    /// The address.
    pub address: String,
    /// The length of its prefix.
    pub prefix_length: u8,
}

/// The version 4 part of the queried state.
#[derive(Clone, Debug)]
pub struct WindowsIpv4State {
    /// Whether DHCP is on.
    pub dhcp: bool,
    /// The addresses.
    pub addresses: Vec<WindowsAddress>,
}

/// The version 6 part of the queried state.
#[derive(Clone, Debug)]
pub struct WindowsIpv6State {
    /// How it is configured.
    pub state: String,
    /// The fixed addresses.
    pub addresses: Vec<WindowsAddress>,
}

/// The queried state.
#[derive(Clone, Debug)]
pub struct WindowsStateDocument {
    /// The version of the schema.
    pub schema_version: u32,
    /// The number of interfaces with the name.
    pub interface_count: u32,
    /// The name.
    pub interface_id: String,
    /// The version 4 part.
    pub ipv4: WindowsIpv4State,
    /// The version 6 part.
    pub ipv6: WindowsIpv6State,
    /// The name servers.
    pub dns_servers: Vec<String>,
    /// The maximum transmission unit.
    pub mtu: u32,
    /// The default gateways.
    pub default_gateways: Vec<String>,
    /// The number of routes.
    pub route_count: u32,
}

/// Whether a JSON value is an object whose members are exactly those with the given names,
/// each once.
pub open spec fn closed_object(value: JsonValue, allowed: Seq<Seq<char>>) -> bool {
    match value {
        JsonValue::Object(members) => {
            &&& members@.len() == allowed.len()
            &&& forall|i: int|
                0 <= i < members@.len() ==> allowed.contains((#[trigger] members@[i]).0@)
            &&& forall|i: int, j: int|
                0 <= i < j < members@.len() ==> (#[trigger] members@[i]).0@
                    != (#[trigger] members@[j]).0@
        },
        _ => false,
    }
}

/// Whether a JSON value is a record with the given parts: an object that has them as members,
/// or a list that has as many items.
pub open spec fn record_shape(value: JsonValue, parts: Seq<Seq<char>>) -> bool {
    match value {
        JsonValue::List(items) => items@.len() == parts.len(),
        _ => closed_object(value, parts),
    }
}

/// The part of a record with a name and a place.
pub open spec fn part_of(value: JsonValue, name: Seq<char>, at: int) -> Option<JsonValue> {
    match value {
        JsonValue::List(items) => if 0 <= at < items@.len() {
            Some(items@[at])
        } else {
            None
        },
        _ => json::member(value, name),
    }
}

/// The whole number, up to a limit, that a JSON value is.
pub open spec fn number_of(value: Option<JsonValue>, max: nat) -> Option<nat> {
    match value {
        Some(JsonValue::Number(JsonNumber::Unsigned(n))) => if n <= max {
            Some(n as nat)
        } else {
            None
        },
        _ => None,
    }
}

/// The text that a JSON value is.
pub open spec fn text_of(value: Option<JsonValue>) -> Option<Seq<char>> {
    match value {
        Some(JsonValue::Text(t)) => Some(t@),
        _ => None,
    }
}

/// The truth value that a JSON value is.
pub open spec fn truth_of(value: Option<JsonValue>) -> Option<bool> {
    match value {
        Some(JsonValue::Bool(b)) => Some(b),
        _ => None,
    }
}

/// Whether a JSON value is a list of texts.
pub open spec fn is_text_list(value: Option<JsonValue>) -> bool {
    match value {
        Some(JsonValue::List(items)) => forall|i: int|
            0 <= i < items@.len() ==> (#[trigger] items@[i]) is Text,
        _ => false,
    }
}

/// The texts in a list.
pub open spec fn texts_of(value: Option<JsonValue>) -> Seq<Seq<char>> {
    match value {
        Some(JsonValue::List(items)) => Seq::new(
            items@.len(),
            |i: int|
                match items@[i] {
                    JsonValue::Text(t) => t@,
                    _ => Seq::empty(),
                },
        ),
        _ => Seq::empty(),
    }
}

/// Whether a JSON value has the shape of an address.
pub open spec fn address_shape(value: JsonValue) -> bool {
    &&& record_shape(value, seq!["address"@, "prefix_length"@])
    &&& text_of(part_of(value, "address"@, 0)) is Some
    &&& number_of(part_of(value, "prefix_length"@, 1), u8::MAX as nat) is Some
}

/// Whether an address is what a JSON value says.
pub open spec fn is_address(value: JsonValue, a: WindowsAddress) -> bool {
    &&& text_of(part_of(value, "address"@, 0)) == Some(a.address@)
    &&& number_of(part_of(value, "prefix_length"@, 1), u8::MAX as nat) == Some(
        a.prefix_length as nat,
    )
}

/// Whether a JSON value is a list of addresses.
pub open spec fn address_list_shape(value: Option<JsonValue>) -> bool {
    match value {
        Some(JsonValue::List(items)) => forall|i: int|
            0 <= i < items@.len() ==> address_shape(#[trigger] items@[i]),
        _ => false,
    }
}

/// Whether addresses are what a JSON list says.
pub open spec fn are_addresses(value: Option<JsonValue>, a: Seq<WindowsAddress>) -> bool {
    match value {
        Some(JsonValue::List(items)) => {
            &&& items@.len() == a.len()
            &&& forall|i: int| 0 <= i < a.len() ==> is_address(items@[i], #[trigger] a[i])
        },
        _ => false,
    }
}

/// Whether a JSON value has the shape of the version 4 part.
pub open spec fn ipv4_shape(value: Option<JsonValue>) -> bool {
    match value {
        Some(v) => {
            &&& record_shape(v, seq!["dhcp"@, "addresses"@])
            &&& truth_of(part_of(v, "dhcp"@, 0)) is Some
            &&& address_list_shape(part_of(v, "addresses"@, 1))
        },
        None => false,
    }
}

/// Whether a JSON value has the shape of the version 6 part.
pub open spec fn ipv6_shape(value: Option<JsonValue>) -> bool {
    match value {
        Some(v) => {
            &&& record_shape(v, seq!["state"@, "addresses"@])
            &&& text_of(part_of(v, "state"@, 0)) is Some
            &&& address_list_shape(part_of(v, "addresses"@, 1))
        },
        None => false,
    }
}

/// Whether a JSON value has the shape of the part on name servers.
pub open spec fn dns_shape(value: Option<JsonValue>) -> bool {
    match value {
        Some(v) => record_shape(v, seq!["servers"@]) && is_text_list(part_of(v, "servers"@, 0)),
        None => false,
    }
}

/// The names of the members of the queried state.
pub open spec fn document_keys() -> Seq<Seq<char>> {
    seq![
        "schema_version"@,
        "interface_count"@,
        "interface_id"@,
        "ipv4"@,
        "ipv6"@,
        "dns"@,
        "mtu"@,
        "default_gateways"@,
        "route_count"@,
    ]
}

/// A number of 32 bits in a part.
pub open spec fn count_in(value: JsonValue, name: Seq<char>, at: int) -> Option<nat> {
    number_of(part_of(value, name, at), u32::MAX as nat)
}

/// Whether a JSON value has the shape of the queried state.
pub open spec fn document_shape(value: JsonValue) -> bool {
    &&& record_shape(value, document_keys())
    &&& count_in(value, "schema_version"@, 0) is Some
    &&& count_in(value, "interface_count"@, 1) is Some
    &&& text_of(part_of(value, "interface_id"@, 2)) is Some
    &&& ipv4_shape(part_of(value, "ipv4"@, 3))
    &&& ipv6_shape(part_of(value, "ipv6"@, 4))
    &&& dns_shape(part_of(value, "dns"@, 5))
    &&& count_in(value, "mtu"@, 6) is Some
    &&& is_text_list(part_of(value, "default_gateways"@, 7))
    &&& count_in(value, "route_count"@, 8) is Some
}

/// Whether a version 4 part is what a JSON value says.
pub open spec fn is_ipv4(value: Option<JsonValue>, part: WindowsIpv4State) -> bool {
    &&& value is Some
    &&& truth_of(part_of(value->0, "dhcp"@, 0)) == Some(part.dhcp)
    &&& are_addresses(part_of(value->0, "addresses"@, 1), part.addresses@)
}

/// Whether a version 6 part is what a JSON value says.
pub open spec fn is_ipv6(value: Option<JsonValue>, part: WindowsIpv6State) -> bool {
    &&& value is Some
    &&& text_of(part_of(value->0, "state"@, 0)) == Some(part.state@)
    &&& are_addresses(part_of(value->0, "addresses"@, 1), part.addresses@)
}

/// Whether a document is what a JSON value says.
pub open spec fn is_document(value: JsonValue, d: WindowsStateDocument) -> bool {
    &&& count_in(value, "schema_version"@, 0) == Some(d.schema_version as nat)
    &&& count_in(value, "interface_count"@, 1) == Some(d.interface_count as nat)
    &&& text_of(part_of(value, "interface_id"@, 2)) == Some(d.interface_id@)
    &&& is_ipv4(part_of(value, "ipv4"@, 3), d.ipv4)
    &&& is_ipv6(part_of(value, "ipv6"@, 4), d.ipv6)
    &&& part_of(value, "dns"@, 5) is Some
    &&& texts_of(part_of(part_of(value, "dns"@, 5)->0, "servers"@, 0)) == text::texts(
        d.dns_servers@,
    )
    &&& count_in(value, "mtu"@, 6) == Some(d.mtu as nat)
    &&& texts_of(part_of(value, "default_gateways"@, 7)) == text::texts(d.default_gateways@)
    &&& count_in(value, "route_count"@, 8) == Some(d.route_count as nat)
}

fn is_listed(name: &str, allowed: &[&str]) -> (r: bool)
    ensures
        r == text::names(allowed@).contains(name@),
{
    let mut i: usize = 0;
    while i < allowed.len()
        invariant
            i <= allowed@.len(),
            forall|j: int| 0 <= j < i ==> (#[trigger] allowed@[j])@ != name@,
        decreases allowed@.len() - i,
    {
        if same(allowed[i], name) {
            proof {
                assert(text::names(allowed@)[i as int] == name@);
            }
            return true;
        }
        i += 1;
    }
    proof {
        if text::names(allowed@).contains(name@) {
            let k = choose|k: int|
                0 <= k < text::names(allowed@).len() && text::names(allowed@)[k] == name@;
            assert(allowed@[k]@ == name@);
        }
    }
    false
}

fn is_closed_object(value: &JsonValue, allowed: &[&str]) -> (r: bool)
    ensures
        r == closed_object(*value, text::names(allowed@)),
{
    match value {
        JsonValue::Object(members) => {
            let ghost ms = value->Object_0@;
            if members.len() != allowed.len() {
                return false;
            }
            let mut i: usize = 0;
            while i < members.len()
                invariant
                    *value == JsonValue::Object(*members),
                    ms == members@,
                    ms == value->Object_0@,
                    members@.len() == allowed@.len(),
                    i <= members@.len(),
                    forall|j: int|
                        0 <= j < i ==> text::names(allowed@).contains((#[trigger] ms[j]).0@),
                    forall|k: int, j: int|
                        0 <= k < j < i ==> (#[trigger] ms[k]).0@ != (#[trigger] ms[j]).0@,
                decreases members@.len() - i,
            {
                if !is_listed(members[i].0.as_str(), allowed) {
                    proof {
                        assert(!text::names(allowed@).contains(ms[i as int].0@));
                    }
                    return false;
                }
                let mut j: usize = 0;
                while j < i
                    invariant
                        *value == JsonValue::Object(*members),
                        ms == members@,
                        ms == value->Object_0@,
                        members@.len() == allowed@.len(),
                        j <= i < members@.len(),
                        forall|k: int| 0 <= k < j ==> (#[trigger] ms[k]).0@ != ms[i as int].0@,
                    decreases i - j,
                {
                    if same(members[j].0.as_str(), members[i].0.as_str()) {
                        proof {
                            assert(ms[j as int].0@ == ms[i as int].0@);
                        }
                        return false;
                    }
                    j += 1;
                }
                i += 1;
            }
            true
        },
        _ => false,
    }
}

fn is_record(value: &JsonValue, parts: &[&str]) -> (r: bool)
    ensures
        r == record_shape(*value, text::names(parts@)),
{
    match value {
        JsonValue::List(items) => items.len() == parts.len(),
        _ => is_closed_object(value, parts),
    }
}

fn find_part<'a>(value: &'a JsonValue, name: &str, at: usize) -> (r: Option<&'a JsonValue>)
    ensures
        pointed(r) == part_of(*value, name@, at as int),
{
    match value {
        JsonValue::List(items) => if at < items.len() {
            Some(&items[at])
        } else {
            None
        },
        _ => find_member(value, name),
    }
}

fn read_number(value: Option<&JsonValue>, max: u64) -> (r: Option<u64>)
    ensures
        match r {
            Some(n) => number_of(pointed(value), max as nat) == Some(n as nat) && n <= max,
            None => number_of(pointed(value), max as nat) is None,
        },
{
    match value {
        Some(JsonValue::Number(JsonNumber::Unsigned(n))) => if *n <= max {
            Some(*n)
        } else {
            None
        },
        _ => None,
    }
}

/// What a reference points to, if there is one.
pub open spec fn pointed(value: Option<&JsonValue>) -> Option<JsonValue> {
    match value {
        Some(v) => Some(*v),
        None => None,
    }
}

fn read_text(value: Option<&JsonValue>) -> (r: Option<String>)
    ensures
        text::optional(r) == text_of(pointed(value)),
{
    match value {
        Some(JsonValue::Text(t)) => Some(t.as_str().to_owned()),
        _ => None,
    }
}

fn read_truth(value: Option<&JsonValue>) -> (r: Option<bool>)
    ensures
        r == truth_of(pointed(value)),
{
    match value {
        Some(JsonValue::Bool(b)) => Some(*b),
        _ => None,
    }
}

fn read_texts(value: Option<&JsonValue>) -> (r: Option<Vec<String>>)
    ensures
        match r {
            Some(v) => is_text_list(pointed(value)) && text::texts(v@) == texts_of(pointed(value)),
            None => !is_text_list(pointed(value)),
        },
{
    match value {
        Some(JsonValue::List(items)) => {
            let ghost all = pointed(value);
            let mut out: Vec<String> = Vec::new();
            let mut i: usize = 0;
            while i < items.len()
                invariant
                    all == pointed(value),
                    all == Some(JsonValue::List(*items)),
                    i <= items@.len(),
                    out@.len() == i,
                    forall|j: int| 0 <= j < i ==> (#[trigger] items@[j]) is Text,
                    forall|j: int| 0 <= j < i ==> (#[trigger] out@[j])@ == texts_of(all)[j],
                decreases items@.len() - i,
            {
                match &items[i] {
                    JsonValue::Text(t) => {
                        out.push(t.as_str().to_owned());
                    },
                    _ => {
                        proof {
                            assert(!(items@[i as int] is Text));
                        }
                        return None;
                    },
                }
                i += 1;
            }
            proof {
                assert(text::texts(out@) =~= texts_of(all));
            }
            Some(out)
        },
        _ => None,
    }
}

fn read_address(value: &JsonValue) -> (r: Option<WindowsAddress>)
    ensures
        match r {
            Some(a) => address_shape(*value) && is_address(*value, a),
            None => !address_shape(*value),
        },
{
    let allowed = ["address", "prefix_length"];
    proof {
        assert(text::names(allowed@) =~= seq!["address"@, "prefix_length"@]);
    }
    if !is_record(value, &allowed) {
        return None;
    }
    match (
        read_text(find_part(value, "address", 0)),
        read_number(find_part(value, "prefix_length", 1), 0xff),
    ) {
        (Some(address), Some(n)) => Some(WindowsAddress { address, prefix_length: n as u8 }),
        _ => None,
    }
}

fn read_addresses(value: Option<&JsonValue>) -> (r: Option<Vec<WindowsAddress>>)
    ensures
        match r {
            Some(a) => address_list_shape(pointed(value)) && are_addresses(pointed(value), a@),
            None => !address_list_shape(pointed(value)),
        },
{
    match value {
        Some(JsonValue::List(items)) => {
            let ghost all = pointed(value);
            let mut out: Vec<WindowsAddress> = Vec::new();
            let mut i: usize = 0;
            while i < items.len()
                invariant
                    all == pointed(value),
                    all == Some(JsonValue::List(*items)),
                    i <= items@.len(),
                    out@.len() == i,
                    forall|j: int| 0 <= j < i ==> address_shape(#[trigger] items@[j]),
                    forall|j: int| 0 <= j < i ==> is_address(items@[j], #[trigger] out@[j]),
                decreases items@.len() - i,
            {
                match read_address(&items[i]) {
                    Some(a) => {
                        out.push(a);
                    },
                    None => {
                        proof {
                            let its = (all->0)->List_0@;
                            assert(!address_shape(its[i as int]));
                        }
                        return None;
                    },
                }
                i += 1;
            }
            Some(out)
        },
        _ => None,
    }
}

fn read_ipv4_part(value: Option<&JsonValue>) -> (r: Option<WindowsIpv4State>)
    ensures
        match r {
            Some(part) => ipv4_shape(pointed(value)) && is_ipv4(pointed(value), part),
            None => !ipv4_shape(pointed(value)),
        },
{
    let v: &JsonValue = match value {
        Some(v) => v,
        None => {
            return None;
        },
    };
    let allowed = ["dhcp", "addresses"];
    proof {
        assert(text::names(allowed@) =~= seq!["dhcp"@, "addresses"@]);
    }
    if !is_record(v, &allowed) {
        return None;
    }
    match (read_truth(find_part(v, "dhcp", 0)), read_addresses(find_part(v, "addresses", 1))) {
        (Some(dhcp), Some(addresses)) => Some(WindowsIpv4State { dhcp, addresses }),
        _ => None,
    }
}

fn read_ipv6_part(value: Option<&JsonValue>) -> (r: Option<WindowsIpv6State>)
    ensures
        match r {
            Some(part) => ipv6_shape(pointed(value)) && is_ipv6(pointed(value), part),
            None => !ipv6_shape(pointed(value)),
        },
{
    let v: &JsonValue = match value {
        Some(v) => v,
        None => {
            return None;
        },
    };
    let allowed = ["state", "addresses"];
    proof {
        assert(text::names(allowed@) =~= seq!["state"@, "addresses"@]);
    }
    if !is_record(v, &allowed) {
        return None;
    }
    match (read_text(find_part(v, "state", 0)), read_addresses(find_part(v, "addresses", 1))) {
        (Some(state), Some(addresses)) => Some(WindowsIpv6State { state, addresses }),
        _ => None,
    }
}

fn read_dns_part(value: Option<&JsonValue>) -> (r: Option<Vec<String>>)
    ensures
        match r {
            Some(servers) => {
                &&& dns_shape(pointed(value))
                &&& texts_of(part_of(pointed(value)->0, "servers"@, 0)) == text::texts(servers@)
            },
            None => !dns_shape(pointed(value)),
        },
{
    let v: &JsonValue = match value {
        Some(v) => v,
        None => {
            return None;
        },
    };
    let allowed = ["servers"];
    proof {
        assert(text::names(allowed@) =~= seq!["servers"@]);
    }
    if !is_record(v, &allowed) {
        return None;
    }
    read_texts(find_part(v, "servers", 0))
}

/// Reads the queried state from JSON. Nothing may be missing, doubled or unknown. A record may
/// also be written as the list of its parts.
pub fn decode_document(value: &JsonValue) -> (r: Option<WindowsStateDocument>)
    ensures
        match r {
            Some(d) => document_shape(*value) && is_document(*value, d),
            None => !document_shape(*value),
        },
{
    let allowed = [
        "schema_version",
        "interface_count",
        "interface_id",
        "ipv4",
        "ipv6",
        "dns",
        "mtu",
        "default_gateways",
        "route_count",
    ];
    proof {
        assert(text::names(allowed@) =~= document_keys());
    }
    if !is_record(value, &allowed) {
        return None;
    }
    let schema_version = read_number(find_part(value, "schema_version", 0), 0xffff_ffff);
    let interface_count = read_number(find_part(value, "interface_count", 1), 0xffff_ffff);
    let mtu = read_number(find_part(value, "mtu", 6), 0xffff_ffff);
    let route_count = read_number(find_part(value, "route_count", 8), 0xffff_ffff);
    let (schema_version, interface_count, mtu, route_count): (u64, u64, u64, u64) = match (
        schema_version,
        interface_count,
        mtu,
        route_count,
    ) {
        (Some(a), Some(b), Some(c), Some(d)) => (a, b, c, d),
        _ => {
            return None;
        },
    };
    let interface_id = match read_text(find_part(value, "interface_id", 2)) {
        Some(t) => t,
        None => {
            return None;
        },
    };
    let ipv4 = match read_ipv4_part(find_part(value, "ipv4", 3)) {
        Some(p) => p,
        None => {
            return None;
        },
    };
    let ipv6 = match read_ipv6_part(find_part(value, "ipv6", 4)) {
        Some(p) => p,
        None => {
            return None;
        },
    };
    let dns_servers = match read_dns_part(find_part(value, "dns", 5)) {
        Some(s) => s,
        None => {
            return None;
        },
    };
    let default_gateways = match read_texts(find_part(value, "default_gateways", 7)) {
        Some(s) => s,
        None => {
            return None;
        },
    };
    Some(
        WindowsStateDocument {
            schema_version: schema_version as u32,
            interface_count: interface_count as u32,
            interface_id,
            ipv4,
            ipv6,
            dns_servers,
            mtu: mtu as u32,
            default_gateways,
            route_count: route_count as u32,
        },
    )
}

// ---------------------------------------------------------------------- the queried state

/// What the document says of the version 4 addresses.
pub open spec fn ipv4_of(part: WindowsIpv4State) -> Result<FamilyView, Seq<char>> {
    if part.dhcp {
        Ok(FamilyView::Automatic)
    } else if part.addresses@.len() != 1 {
        Err("Windows static IPv4 must have one address"@)
    } else {
        match net::v4_value(part.addresses@[0].address@) {
            None => Err("Windows IPv4 address is invalid"@),
            Some(n) => Ok(
                FamilyView::Static(
                    seq![
                        IpPrefix {
                            address: IpAddr::V4(n as u32),
                            prefix_length: part.addresses@[0].prefix_length,
                        },
                    ],
                ),
            ),
        }
    }
}

/// What the document says of the version 6 addresses. The zone behind a per cent sign is left
/// out.
pub open spec fn ipv6_of(part: WindowsIpv6State) -> Result<FamilyView, Seq<char>> {
    if part.state@ == "disabled"@ {
        if part.addresses@.len() > 0 {
            Err("disabled IPv6 has addresses"@)
        } else {
            Ok(FamilyView::Disabled)
        }
    } else if part.state@ == "automatic"@ {
        Ok(FamilyView::Automatic)
    } else if part.state@ == "static"@ {
        if part.addresses@.len() != 1 {
            Err("Windows static IPv6 must have one address"@)
        } else {
            match net::v6_value(text::split(part.addresses@[0].address@, '%')[0]) {
                None => Err("Windows IPv6 address is invalid"@),
                Some(n) => Ok(
                    FamilyView::Static(
                        seq![
                            IpPrefix {
                                address: IpAddr::V6(n as u128),
                                prefix_length: part.addresses@[0].prefix_length,
                            },
                        ],
                    ),
                ),
            }
        }
    } else {
        Err("Windows IPv6 state is invalid"@)
    }
}

/// Whether a document describes exactly the interface asked for, without what cannot be
/// expressed.
pub open spec fn document_accepted(d: WindowsStateDocument, expected: Seq<char>) -> bool {
    &&& d.schema_version == WINDOWS_STATE_SCHEMA_VERSION
    &&& d.interface_count == 1
    &&& d.interface_id@ == expected
    &&& d.route_count == 0
    &&& d.default_gateways@.len() == 0
    &&& d.dns_servers@.len() <= 16
    &&& 576 <= d.mtu <= 65535
}

/// What a document says of an interface.
pub open spec fn windows_state(d: WindowsStateDocument, expected: Seq<char>) -> Result<
    NetworkStateView,
    Seq<char>,
> {
    if !document_accepted(d, expected) {
        Err("Windows state JSON failed schema validation"@)
    } else {
        match ipv4_of(d.ipv4) {
            Err(message) => Err(message),
            Ok(ipv4) => match ipv6_of(d.ipv6) {
                Err(message) => Err(message),
                Ok(ipv6) => match macos::addresses_of(text::texts(d.dns_servers@)) {
                    None => Err("Windows DNS address is invalid"@),
                    Some(servers) => Ok(
                        NetworkStateView {
                            ipv4,
                            ipv6,
                            automatic_dns: servers.len() == 0,
                            servers,
                            search_domains: Seq::empty(),
                            routes: Seq::empty(),
                            mtu: Some(d.mtu),
                        },
                    ),
                },
            },
        }
    }
}

fn read_ipv4_state(part: &WindowsIpv4State) -> (r: Result<Ipv4Configuration, NetToolError>)
    ensures
        match r {
            Ok(c) => ipv4_of(*part) == Ok::<FamilyView, Seq<char>>(helper_protocol::ipv4_view(c)),
            Err(e) => ipv4_of(*part) matches Err(message) && e.is(
                ErrorCode::HelperExecutionFailed,
                message,
                true,
            ),
        },
{
    if part.dhcp {
        return Ok(Ipv4Configuration::Dhcp);
    }
    if part.addresses.len() != 1 {
        return Err(reader_error("Windows static IPv4 must have one address"));
    }
    match parse_v4(part.addresses[0].address.as_str()) {
        None => Err(reader_error("Windows IPv4 address is invalid")),
        Some(n) => {
            let prefix = IpPrefix {
                address: IpAddr::V4(n),
                prefix_length: part.addresses[0].prefix_length,
            };
            let mut addresses: Vec<IpPrefix> = Vec::new();
            addresses.push(prefix);
            proof {
                assert(addresses@ =~= seq![prefix]);
            }
            Ok(Ipv4Configuration::Static { addresses })
        },
    }
}

fn read_ipv6_state(part: &WindowsIpv6State) -> (r: Result<Ipv6Configuration, NetToolError>)
    ensures
        match r {
            Ok(c) => ipv6_of(*part) == Ok::<FamilyView, Seq<char>>(helper_protocol::ipv6_view(c)),
            Err(e) => ipv6_of(*part) matches Err(message) && e.is(
                ErrorCode::HelperExecutionFailed,
                message,
                true,
            ),
        },
{
    let state = part.state.as_str();
    if same(state, "disabled") {
        if part.addresses.len() > 0 {
            return Err(reader_error("disabled IPv6 has addresses"));
        }
        return Ok(Ipv6Configuration::Disabled);
    }
    if same(state, "automatic") {
        return Ok(Ipv6Configuration::Automatic);
    }
    if !same(state, "static") {
        return Err(reader_error("Windows IPv6 state is invalid"));
    }
    if part.addresses.len() != 1 {
        return Err(reader_error("Windows static IPv6 must have one address"));
    }
    let pieces = split_on(part.addresses[0].address.as_str(), '%');
    proof {
        assert(text::texts(pieces@)[0] == pieces@[0]@);
    }
    match parse_v6(pieces[0].as_str()) {
        None => Err(reader_error("Windows IPv6 address is invalid")),
        Some(n) => {
            let prefix = IpPrefix {
                address: IpAddr::V6(n),
                prefix_length: part.addresses[0].prefix_length,
            };
            let mut addresses: Vec<IpPrefix> = Vec::new();
            addresses.push(prefix);
            proof {
                assert(addresses@ =~= seq![prefix]);
            }
            Ok(Ipv6Configuration::Static { addresses })
        },
    }
}

/// Reads the state of an interface from the queried document. What cannot be expressed whole
/// is refused.
///
/// # Errors
///
/// Fails when the document describes another interface, several ones, routes or gateways,
/// when an address is not one, and when the configuration is not valid.
pub fn read_document(document: &WindowsStateDocument, expected_interface_id: &str) -> (r: Result<
    NetworkDesiredState,
    NetToolError,
>)
    ensures
        match r {
            Ok(state) => {
                &&& windows_state(*document, expected_interface_id@) == Ok::<
                    NetworkStateView,
                    Seq<char>,
                >(state@)
                &&& helper_protocol::state_fault(state) is None
            },
            Err(e) => match windows_state(*document, expected_interface_id@) {
                Err(message) => e.is(ErrorCode::HelperExecutionFailed, message, true),
                Ok(state) => macos::refused(state, e),
            },
        },
{
    if document.schema_version != WINDOWS_STATE_SCHEMA_VERSION || document.interface_count != 1
        || !same(document.interface_id.as_str(), expected_interface_id) || document.route_count
        != 0 || document.default_gateways.len() > 0 || document.dns_servers.len() > 16
        || document.mtu < 576 || document.mtu > 65535 {
        return Err(reader_error("Windows state JSON failed schema validation"));
    }
    let ipv4 = match read_ipv4_state(&document.ipv4) {
        Ok(c) => c,
        Err(e) => {
            return Err(e);
        },
    };
    let ipv6 = match read_ipv6_state(&document.ipv6) {
        Ok(c) => c,
        Err(e) => {
            return Err(e);
        },
    };
    let servers = match parse_addresses(&document.dns_servers) {
        Some(s) => s,
        None => {
            return Err(reader_error("Windows DNS address is invalid"));
        },
    };
    let state = NetworkDesiredState {
        ipv4,
        ipv6,
        dns: DnsConfiguration {
            automatic: servers.len() == 0,
            servers,
            search_domains: Vec::new(),
        },
        routes: Vec::new(),
        mtu: Some(document.mtu),
    };
    proof {
        assert(state@.search_domains =~= Seq::<Seq<char>>::empty());
        assert(state@.routes =~= Seq::empty());
    }
    match state.validate() {
        Ok(_) => Ok(state),
        Err(message) => {
            let e = NetToolError::new(ErrorCode::ProtocolInvalid, message, false);
            proof {
                assert(helper_protocol::state_fault(state) is Some);
                assert(macos::refused(state@, e));
            }
            Err(e)
        },
    }
}

/// Whether what a document says of an interface, or why it is not understood, was handed on.
pub open spec fn document_understood(
    value: JsonValue,
    interface_id: Seq<char>,
    r: Result<NetworkDesiredState, NetToolError>,
) -> bool {
    if document_shape(value) {
        exists|d: WindowsStateDocument|
            #[trigger] is_document(value, d) && macos::understood(
                windows_state(d, interface_id),
                r,
            )
    } else {
        malformed(r)
    }
}

/// Whether an output was refused because it is no document.
pub open spec fn malformed(r: Result<NetworkDesiredState, NetToolError>) -> bool {
    r matches Err(e) && e.is(
        ErrorCode::HelperExecutionFailed,
        "Windows state JSON is malformed"@,
        true,
    )
}

/// Reads the state of an interface from what the state query returned.
///
/// # Errors
///
/// Fails when the JSON does not have the shape of the queried state, and as reading a
/// document does.
pub fn parse_windows_json_state(value: &JsonValue, expected_interface_id: &str) -> (r: Result<
    NetworkDesiredState,
    NetToolError,
>)
    ensures
        document_understood(*value, expected_interface_id@, r),
{
    match decode_document(value) {
        None => Err(reader_error("Windows state JSON is malformed")),
        Some(document) => {
            let r = read_document(&document, expected_interface_id);
            proof {
                assert(is_document(*value, document));
            }
            r
        },
    }
}

/// Something that reads JSON.
pub trait JsonDecoder {
    /// Reads JSON; nothing where the text is not JSON. Every member that was written is there,
    /// also one whose name occurs again.
    fn decode(&self, text: &str) -> Option<JsonValue>;
}

/// Whether a decoder, given a text, answered so.
pub open spec fn decode_answered<D: JsonDecoder>(
    decoder: D,
    text: Seq<char>,
    r: Option<JsonValue>,
) -> bool {
    exists|t: &str| #[trigger] call_ensures(D::decode, (&decoder, t), r) && t@ == text
}

/// What the answer to the state query comes to.
pub open spec fn concluded<D: JsonDecoder>(
    decoder: D,
    answer: Result<String, NetToolError>,
    interface_id: Seq<char>,
    r: Result<NetworkDesiredState, NetToolError>,
) -> bool {
    match answer {
        Err(e) => r == Err::<NetworkDesiredState, NetToolError>(e),
        Ok(output) => exists|decoded: Option<JsonValue>| #[trigger]
            decode_answered::<D>(decoder, output@, decoded) && match decoded {
                None => malformed(r),
                Some(value) => document_understood(value, interface_id, r),
            },
    }
}

/// Reads the state of interfaces with the state query.
pub struct WindowsNetshStateReader<R, D> {
    programs: Programs<R>,
    decoder: D,
}

impl<R: CommandRunner, D: JsonDecoder> WindowsNetshStateReader<R, D> {
    /// The programs that were run.
    pub closed spec fn log(self) -> Seq<RunStep> {
        self.programs.log()
    }

    /// The decoder.
    pub closed spec fn decoder(self) -> D {
        self.decoder
    }

    /// Creates a reader that runs its program with a runner and reads the output with a
    /// decoder.
    #[must_use]
    pub fn new(runner: R, decoder: D) -> (r: Self)
        ensures
            r.log() == Seq::<RunStep>::empty(),
            r.decoder() == decoder,
    {
        WindowsNetshStateReader { programs: Programs::new(runner), decoder }
    }

    fn query(&mut self, interface_id: &str) -> (r: Result<String, NetToolError>)
        ensures
            final(self).decoder() == old(self).decoder(),
            command::output_answered(
                old(self).log(),
                final(self).log(),
                (POWERSHELL_EXE@, query_arguments(interface_id@)),
                "PowerShell state query failed"@,
                r,
            ),
    {
        let command = state_query_command(interface_id);
        let ghost from = self.log();
        let answer = run_validated_platform_command(&mut self.programs, &command);
        proof {
            assert(command::validated_answered(from, self.log(), command@, answer));
        }
        match answer {
            Err(e) => Err(e),
            Ok(output) => if output.success {
                Ok(output.stdout)
            } else {
                Err(
                    NetToolError::new(
                        ErrorCode::HelperExecutionFailed,
                        "PowerShell state query failed",
                        true,
                    ),
                )
            },
        }
    }
}

impl<R: CommandRunner, D: JsonDecoder> PlatformStateReader for WindowsNetshStateReader<R, D> {
    /// Runs the state query, once, and reads what it prints. A name that is not valid reaches
    /// no program; a state that is returned is valid.
    fn read_state(&mut self, interface_id: &str) -> (r: Result<NetworkDesiredState, NetToolError>)
        ensures
            final(self).decoder() == old(self).decoder(),
            match command::interface_fault(interface_id@) {
                Some(fault) => {
                    &&& r matches Err(e) && e.is(ErrorCode::InvalidArgument, fault, false)
                    &&& *final(self) == *old(self)
                },
                None => exists|answer: Result<String, NetToolError>| #[trigger]
                    command::output_answered(
                        old(self).log(),
                        final(self).log(),
                        (POWERSHELL_EXE@, query_arguments(interface_id@)),
                        "PowerShell state query failed"@,
                        answer,
                    ) && concluded::<D>(old(self).decoder(), answer, interface_id@, r),
            },
    {
        match validate_interface(interface_id) {
            Ok(_) => {},
            Err(e) => {
                return Err(e);
            },
        }
        let answer = self.query(interface_id);
        let ghost answered = answer;
        let output = match answer {
            Ok(s) => s,
            Err(e) => {
                proof {
                    let r = Err::<NetworkDesiredState, NetToolError>(e);
                    assert(concluded::<D>(self.decoder(), answered, interface_id@, r));
                }
                return Err(e);
            },
        };
        let decoded = self.decoder.decode(output.as_str());
        proof {
            assert(decode_answered::<D>(self.decoder(), output@, decoded));
        }
        let r = match &decoded {
            None => Err(reader_error("Windows state JSON is malformed")),
            Some(value) => parse_windows_json_state(value, interface_id),
        };
        proof {
            assert(decode_answered::<D>(self.decoder(), output@, decoded));
            assert(concluded::<D>(self.decoder(), answered, interface_id@, r));
        }
        r
    }
}

// -------------------------------------------------------------------------------- commands

/// The arguments that set the version 4 addresses.
pub open spec fn ipv4_arguments(interface_id: Seq<char>, ipv4: FamilyView) -> Seq<Seq<char>> {
    let base = seq!["interface"@, "ipv4"@, "set"@, "address"@, "name="@ + interface_id];
    base + (match ipv4 {
        FamilyView::Automatic => seq!["source=dhcp"@],
        FamilyView::Disabled => seq![
            "source=static"@,
            "addr=0.0.0.0"@,
            "mask=0.0.0.0"@,
            "gateway=none"@,
        ],
        FamilyView::Static(addresses) => seq![
            "source=static"@,
            "addr="@ + addresses[0].address.text(),
            "mask="@ + net::v4_text(net::netmask(addresses[0].prefix_length as nat)),
            "gateway=none"@,
        ],
    })
}

/// The arguments that set the version 6 addresses.
pub open spec fn ipv6_arguments(interface_id: Seq<char>, ipv6: FamilyView) -> Seq<Seq<char>> {
    let base = seq!["interface"@, "ipv6"@, "set"@, "address"@, "interface="@ + interface_id];
    base + (match ipv6 {
        FamilyView::Automatic => seq!["source=dhcp"@],
        FamilyView::Disabled => seq!["source=none"@],
        FamilyView::Static(addresses) => seq![
            "address="@ + addresses[0].address.text(),
            "prefixlength="@ + text::decimal(addresses[0].prefix_length as nat),
            "store=active"@,
        ],
    })
}

/// The arguments that set the name servers.
pub open spec fn dns_arguments(
    interface_id: Seq<char>,
    automatic: bool,
    servers: Seq<IpAddr>,
) -> Seq<Seq<char>> {
    let base = seq!["interface"@, "ipv4"@, "set"@, "dnsservers"@, "name="@ + interface_id];
    base + (if automatic {
        seq!["source=dhcp"@]
    } else {
        seq!["source=static"@, "address="@ + servers[0].text(), "validate=no"@]
    })
}

/// The arguments that set the maximum transmission unit.
pub open spec fn mtu_arguments(interface_id: Seq<char>, mtu: u32) -> Seq<Seq<char>> {
    seq![
        "interface"@,
        "ipv4"@,
        "set"@,
        "subinterface"@,
        "interface="@ + interface_id,
        "mtu="@ + text::decimal(mtu as nat),
        "store=active"@,
    ]
}

/// The commands that apply a configuration.
pub open spec fn windows_commands(interface_id: Seq<char>, state: NetworkStateView) -> Seq<
    CommandView,
> {
    let base = seq![
        (NETSH_EXE@, ipv4_arguments(interface_id, state.ipv4)),
        (NETSH_EXE@, ipv6_arguments(interface_id, state.ipv6)),
        (NETSH_EXE@, dns_arguments(interface_id, state.automatic_dns, state.servers)),
    ];
    match state.mtu {
        Some(mtu) => base.push((NETSH_EXE@, mtu_arguments(interface_id, mtu))),
        None => base,
    }
}

/// Why a configuration cannot be applied, if it cannot.
pub open spec fn windows_fault(interface_id: Seq<char>, desired: NetworkDesiredState) -> Option<
    (ErrorCode, Seq<char>),
> {
    if let Some(fault) = command::interface_fault(interface_id) {
        Some((ErrorCode::InvalidArgument, fault))
    } else if let Some(fault) = helper_protocol::state_fault(desired) {
        Some((ErrorCode::InvalidArgument, fault))
    } else if desired@.routes.len() > 0 || desired@.search_domains.len() > 0 {
        Some(
            (
                ErrorCode::Unsupported,
                "Windows netsh adapter does not apply routes or DNS search domains"@,
            ),
        )
    } else if macos::not_one_address(desired@.ipv4) {
        Some(
            (ErrorCode::InvalidArgument, "Windows netsh requires exactly one IPv4 address"@),
        )
    } else if macos::not_one_address(desired@.ipv6) {
        Some(
            (ErrorCode::InvalidArgument, "Windows netsh requires exactly one IPv6 address"@),
        )
    } else if !desired@.automatic_dns && desired@.servers.len() == 0 {
        Some(
            (ErrorCode::InvalidArgument, "Windows static DNS requires at least one server"@),
        )
    } else if let Some(fault) = command::commands_fault(
        windows_commands(interface_id, desired@),
    ) {
        Some((ErrorCode::InvalidArgument, fault))
    } else {
        None
    }
}

fn netsh(pieces: &[&str]) -> (r: PlatformCommand)
    ensures
        r@ == (NETSH_EXE@, text::names(pieces@)),
{
    PlatformCommand { program: NETSH_EXE.to_owned(), arguments: owned(pieces) }
}

/// A state that passes has fixed version 4 addresses of that version, with a prefix of at
/// most 32.
proof fn lemma_single_ipv4(desired: NetworkDesiredState)
    requires
        helper_protocol::state_fault(desired) is None,
    ensures
        desired.ipv4 matches Ipv4Configuration::Static { addresses } ==> addresses@.len() > 0
            && addresses@[0].address is V4 && addresses@[0].prefix_length <= 32,
{
    if let Ipv4Configuration::Static { addresses } = desired.ipv4 {
        helper_protocol::law_valid_addresses_belong_to_their_family(desired, addresses@, true);
    }
}

fn ipv4_command(interface_id: &str, desired: &NetworkDesiredState) -> (r: Result<
    PlatformCommand,
    NetToolError,
>)
    requires
        helper_protocol::state_fault(*desired) is None,
    ensures
        match r {
            Ok(c) => !macos::not_one_address(desired@.ipv4) && c@ == (
                NETSH_EXE@,
                ipv4_arguments(interface_id@, desired@.ipv4),
            ),
            Err(e) => macos::not_one_address(desired@.ipv4) && e.is(
                ErrorCode::InvalidArgument,
                "Windows netsh requires exactly one IPv4 address"@,
                false,
            ),
        },
{
    proof {
        lemma_single_ipv4(*desired);
    }
    let name = concat("name=", interface_id);
    match &desired.ipv4 {
        Ipv4Configuration::Dhcp => {
            let pieces = ["interface", "ipv4", "set", "address", name.as_str(), "source=dhcp"];
            proof {
                assert(text::names(pieces@) =~= ipv4_arguments(interface_id@, desired@.ipv4));
            }
            Ok(netsh(&pieces))
        },
        Ipv4Configuration::Disabled => {
            let pieces = [
                "interface",
                "ipv4",
                "set",
                "address",
                name.as_str(),
                "source=static",
                "addr=0.0.0.0",
                "mask=0.0.0.0",
                "gateway=none",
            ];
            proof {
                assert(text::names(pieces@) =~= ipv4_arguments(interface_id@, desired@.ipv4));
            }
            Ok(netsh(&pieces))
        },
        Ipv4Configuration::Static { addresses } => {
            if addresses.len() != 1 {
                return Err(invalid("Windows netsh requires exactly one IPv4 address"));
            }
            let address = concat("addr=", format_address(&addresses[0].address).as_str());
            let mask = concat("mask=", format_v4(mask_of(addresses[0].prefix_length)).as_str());
            let pieces = [
                "interface",
                "ipv4",
                "set",
                "address",
                name.as_str(),
                "source=static",
                address.as_str(),
                mask.as_str(),
                "gateway=none",
            ];
            proof {
                assert(text::names(pieces@) =~= ipv4_arguments(interface_id@, desired@.ipv4));
            }
            Ok(netsh(&pieces))
        },
    }
}

fn ipv6_command(interface_id: &str, desired: &NetworkDesiredState) -> (r: Result<
    PlatformCommand,
    NetToolError,
>)
    ensures
        match r {
            Ok(c) => !macos::not_one_address(desired@.ipv6) && c@ == (
                NETSH_EXE@,
                ipv6_arguments(interface_id@, desired@.ipv6),
            ),
            Err(e) => macos::not_one_address(desired@.ipv6) && e.is(
                ErrorCode::InvalidArgument,
                "Windows netsh requires exactly one IPv6 address"@,
                false,
            ),
        },
{
    let name = concat("interface=", interface_id);
    match &desired.ipv6 {
        Ipv6Configuration::Automatic => {
            let pieces = ["interface", "ipv6", "set", "address", name.as_str(), "source=dhcp"];
            proof {
                assert(text::names(pieces@) =~= ipv6_arguments(interface_id@, desired@.ipv6));
            }
            Ok(netsh(&pieces))
        },
        Ipv6Configuration::Disabled => {
            let pieces = ["interface", "ipv6", "set", "address", name.as_str(), "source=none"];
            proof {
                assert(text::names(pieces@) =~= ipv6_arguments(interface_id@, desired@.ipv6));
            }
            Ok(netsh(&pieces))
        },
        Ipv6Configuration::Static { addresses } => {
            if addresses.len() != 1 {
                return Err(invalid("Windows netsh requires exactly one IPv6 address"));
            }
            let address = concat("address=", format_address(&addresses[0].address).as_str());
            let prefix = concat(
                "prefixlength=",
                decimal_text(addresses[0].prefix_length as u64).as_str(),
            );
            let pieces = [
                "interface",
                "ipv6",
                "set",
                "address",
                name.as_str(),
                address.as_str(),
                prefix.as_str(),
                "store=active",
            ];
            proof {
                assert(text::names(pieces@) =~= ipv6_arguments(interface_id@, desired@.ipv6));
            }
            Ok(netsh(&pieces))
        },
    }
}

fn dns_command(interface_id: &str, dns: &DnsConfiguration) -> (r: Result<
    PlatformCommand,
    NetToolError,
>)
    ensures
        match r {
            Ok(c) => (dns.automatic || dns.servers@.len() > 0) && c@ == (
                NETSH_EXE@,
                dns_arguments(interface_id@, dns.automatic, dns.servers@),
            ),
            Err(e) => !dns.automatic && dns.servers@.len() == 0 && e.is(
                ErrorCode::InvalidArgument,
                "Windows static DNS requires at least one server"@,
                false,
            ),
        },
{
    let name = concat("name=", interface_id);
    if dns.automatic {
        let pieces = ["interface", "ipv4", "set", "dnsservers", name.as_str(), "source=dhcp"];
        proof {
            assert(text::names(pieces@) =~= dns_arguments(
                interface_id@,
                dns.automatic,
                dns.servers@,
            ));
        }
        return Ok(netsh(&pieces));
    }
    if dns.servers.len() == 0 {
        return Err(invalid("Windows static DNS requires at least one server"));
    }
    let address = concat("address=", format_address(&dns.servers[0]).as_str());
    let pieces = [
        "interface",
        "ipv4",
        "set",
        "dnsservers",
        name.as_str(),
        "source=static",
        address.as_str(),
        "validate=no",
    ];
    proof {
        assert(text::names(pieces@) =~= dns_arguments(
            interface_id@,
            dns.automatic,
            dns.servers@,
        ));
    }
    Ok(netsh(&pieces))
}

/// Builds the commands that apply a configuration; it runs none of them.
///
/// # Errors
///
/// Fails when the interface or the configuration is not valid, when the configuration holds
/// routes, search domains, several addresses of a family or no server for a fixed name
/// resolution, and when the name of the interface holds what a shell would act on.
pub fn build_windows_netsh_commands(
    interface_id: &str,
    desired: &NetworkDesiredState,
) -> (r: Result<Vec<PlatformCommand>, NetToolError>)
    ensures
        match r {
            Ok(commands) => {
                &&& windows_fault(interface_id@, *desired) is None
                &&& command::views(commands@) == windows_commands(interface_id@, desired@)
            },
            Err(e) => {
                &&& windows_fault(interface_id@, *desired) is Some
                &&& e.is(
                    (windows_fault(interface_id@, *desired)->0).0,
                    (windows_fault(interface_id@, *desired)->0).1,
                    false,
                )
            },
        },
{
    match validate_interface(interface_id) {
        Ok(_) => {},
        Err(e) => {
            return Err(e);
        },
    }
    match desired.validate() {
        Ok(_) => {},
        Err(message) => {
            return Err(invalid(message));
        },
    }
    if desired.routes.len() > 0 || desired.dns.search_domains.len() > 0 {
        return Err(
            NetToolError::new(
                ErrorCode::Unsupported,
                "Windows netsh adapter does not apply routes or DNS search domains",
                false,
            ),
        );
    }
    let ipv4 = match ipv4_command(interface_id, desired) {
        Ok(c) => c,
        Err(e) => {
            return Err(e);
        },
    };
    let ipv6 = match ipv6_command(interface_id, desired) {
        Ok(c) => c,
        Err(e) => {
            return Err(e);
        },
    };
    let dns = match dns_command(interface_id, &desired.dns) {
        Ok(c) => c,
        Err(e) => {
            return Err(e);
        },
    };
    let mut commands: Vec<PlatformCommand> = Vec::new();
    commands.push(ipv4);
    commands.push(ipv6);
    commands.push(dns);
    if let Some(mtu) = desired.mtu {
        let name = concat("interface=", interface_id);
        let number = concat("mtu=", decimal_text(mtu as u64).as_str());
        let pieces = [
            "interface",
            "ipv4",
            "set",
            "subinterface",
            name.as_str(),
            number.as_str(),
            "store=active",
        ];
        proof {
            assert(text::names(pieces@) =~= mtu_arguments(interface_id@, mtu));
        }
        commands.push(netsh(&pieces));
    }
    proof {
        assert(command::views(commands@) =~= windows_commands(interface_id@, desired@));
    }
    match validate_commands(commands.as_slice()) {
        Ok(_) => Ok(commands),
        Err(e) => Err(e),
    }
}

} // verus!
