//! The macOS adapter: commands for `networksetup`, and what its output says.

use crate::domain::{DnsConfiguration, IpPrefix, Ipv4Configuration, Ipv6Configuration};
use crate::error::{ErrorCode, NetToolError};
use crate::helper::command;
use crate::helper::command::{
    invalid, run_validated_platform_command, validate_commands, validate_interface, CommandRunner,
    CommandView, PlatformCommand, NETWORKSETUP,
};
use crate::helper::platform::PlatformStateReader;
use crate::helper::programs::{Programs, RunStep};
use crate::helper_protocol;
use crate::helper_protocol::{FamilyView, NetworkDesiredState, NetworkStateView};
use crate::net;
use crate::net::{
    format_address, format_v4, mask_of, parse_address, prefix_of_mask, IpAddr,
};
use crate::text;
use crate::text::{
    concat, contains, decimal_text, is_blank, lines_of, owned, parse_unsigned, piece_behind,
    same_ignoring_case, strip_prefix, trim, trim_end_char, words_of,
};
use vstd::prelude::*;

verus! {

// -------------------------------------------------------------------------------- commands

/// The arguments that set the version 4 addresses.
pub open spec fn ipv4_arguments(interface_id: Seq<char>, ipv4: FamilyView) -> Seq<Seq<char>> {
    match ipv4 {
        FamilyView::Automatic => seq!["-setdhcp"@, interface_id],
        FamilyView::Disabled => seq![
            "-setmanual"@,
            interface_id,
            "0.0.0.0"@,
            "0.0.0.0"@,
            "0.0.0.0"@,
        ],
        FamilyView::Static(addresses) => seq![
            "-setmanual"@,
            interface_id,
            addresses[0].address.text(),
            net::v4_text(net::netmask(addresses[0].prefix_length as nat)),
            "0.0.0.0"@,
        ],
    }
}

/// The arguments that set the version 6 addresses.
pub open spec fn ipv6_arguments(interface_id: Seq<char>, ipv6: FamilyView) -> Seq<Seq<char>> {
    match ipv6 {
        FamilyView::Automatic => seq!["-setv6automatic"@, interface_id],
        FamilyView::Disabled => seq!["-setv6off"@, interface_id],
        FamilyView::Static(addresses) => seq![
            "-setv6manual"@,
            interface_id,
            addresses[0].address.text(),
            text::decimal(addresses[0].prefix_length as nat),
            "::"@,
        ],
    }
}

/// The texts of addresses.
pub open spec fn address_texts(addresses: Seq<IpAddr>) -> Seq<Seq<char>> {
    Seq::new(addresses.len(), |i: int| addresses[i].text())
}

/// The arguments that set the name servers.
pub open spec fn dns_arguments(
    interface_id: Seq<char>,
    automatic: bool,
    servers: Seq<IpAddr>,
) -> Seq<Seq<char>> {
    seq!["-setdnsservers"@, interface_id] + (if automatic || servers.len() == 0 {
        seq!["Empty"@]
    } else {
        address_texts(servers)
    })
}

/// The commands that apply a configuration.
pub open spec fn macos_commands(interface_id: Seq<char>, state: NetworkStateView) -> Seq<
    CommandView,
> {
    let base = seq![
        (NETWORKSETUP@, ipv4_arguments(interface_id, state.ipv4)),
        (NETWORKSETUP@, ipv6_arguments(interface_id, state.ipv6)),
        (NETWORKSETUP@, dns_arguments(interface_id, state.automatic_dns, state.servers)),
    ];
    match state.mtu {
        Some(mtu) => base.push(
            (NETWORKSETUP@, seq!["-setMTU"@, interface_id, text::decimal(mtu as nat)]),
        ),
        None => base,
    }
}

/// Whether a family has more or fewer than one fixed address.
pub open spec fn not_one_address(family: FamilyView) -> bool {
    family matches FamilyView::Static(addresses) && addresses.len() != 1
}

/// Why a configuration cannot be applied, if it cannot.
pub open spec fn macos_fault(interface_id: Seq<char>, desired: NetworkDesiredState) -> Option<
    (ErrorCode, Seq<char>),
> {
    if let Some(fault) = command::interface_fault(interface_id) {
        Some((ErrorCode::InvalidArgument, fault))
    } else if let Some(fault) = helper_protocol::state_fault(desired) {
        Some((ErrorCode::InvalidArgument, fault))
    } else if desired@.routes.len() > 0 || desired@.search_domains.len() > 0 {
        Some(
            (
                ErrorCode::Unsupported,
                "macOS networksetup adapter does not apply routes or DNS search domains"@,
            ),
        )
    } else if not_one_address(desired@.ipv4) {
        Some(
            (
                ErrorCode::InvalidArgument,
                "macOS networksetup requires exactly one IPv4 address"@,
            ),
        )
    } else if not_one_address(desired@.ipv6) {
        Some(
            (
                ErrorCode::InvalidArgument,
                "macOS networksetup requires exactly one IPv6 address"@,
            ),
        )
    } else if let Some(fault) = command::commands_fault(macos_commands(interface_id, desired@)) {
        Some((ErrorCode::InvalidArgument, fault))
    } else {
        None
    }
}

fn networksetup(pieces: &[&str]) -> (r: PlatformCommand)
    ensures
        r@ == (NETWORKSETUP@, text::names(pieces@)),
{
    PlatformCommand { program: NETWORKSETUP.to_owned(), arguments: owned(pieces) }
}

/// A state that passes has fixed version 4 addresses of that version, with a prefix of at
/// most 32.
proof fn lemma_single_ipv4(desired: NetworkDesiredState)
    requires
        helper_protocol::state_fault(desired) is None,
    ensures
        desired.ipv4 matches Ipv4Configuration::Static { addresses } ==> addresses@.len() > 0
            && addresses@[0].address is V4 && addresses@[0].prefix_length <= 32,
{
    if let Ipv4Configuration::Static { addresses } = desired.ipv4 {
        helper_protocol::law_valid_addresses_belong_to_their_family(desired, addresses@, true);
    }
}

fn ipv4_command(interface_id: &str, desired: &NetworkDesiredState) -> (r: Result<
    PlatformCommand,
    NetToolError,
>)
    requires
        helper_protocol::state_fault(*desired) is None,
    ensures
        match r {
            Ok(c) => !not_one_address(desired@.ipv4) && c@ == (
                NETWORKSETUP@,
                ipv4_arguments(interface_id@, desired@.ipv4),
            ),
            Err(e) => not_one_address(desired@.ipv4) && e.is(
                ErrorCode::InvalidArgument,
                "macOS networksetup requires exactly one IPv4 address"@,
                false,
            ),
        },
{
    proof {
        lemma_single_ipv4(*desired);
    }
    match &desired.ipv4 {
        Ipv4Configuration::Dhcp => {
            let pieces = ["-setdhcp", interface_id];
            proof {
                assert(text::names(pieces@) =~= ipv4_arguments(interface_id@, desired@.ipv4));
            }
            Ok(networksetup(&pieces))
        },
        Ipv4Configuration::Disabled => {
            let pieces = ["-setmanual", interface_id, "0.0.0.0", "0.0.0.0", "0.0.0.0"];
            proof {
                assert(text::names(pieces@) =~= ipv4_arguments(interface_id@, desired@.ipv4));
            }
            Ok(networksetup(&pieces))
        },
        Ipv4Configuration::Static { addresses } => {
            if addresses.len() != 1 {
                return Err(invalid("macOS networksetup requires exactly one IPv4 address"));
            }
            let address = format_address(&addresses[0].address);
            let mask = format_v4(mask_of(addresses[0].prefix_length));
            let pieces = [
                "-setmanual",
                interface_id,
                address.as_str(),
                mask.as_str(),
                "0.0.0.0",
            ];
            proof {
                assert(text::names(pieces@) =~= ipv4_arguments(interface_id@, desired@.ipv4));
            }
            Ok(networksetup(&pieces))
        },
    }
}

fn ipv6_command(interface_id: &str, desired: &NetworkDesiredState) -> (r: Result<
    PlatformCommand,
    NetToolError,
>)
    ensures
        match r {
            Ok(c) => !not_one_address(desired@.ipv6) && c@ == (
                NETWORKSETUP@,
                ipv6_arguments(interface_id@, desired@.ipv6),
            ),
            Err(e) => not_one_address(desired@.ipv6) && e.is(
                ErrorCode::InvalidArgument,
                "macOS networksetup requires exactly one IPv6 address"@,
                false,
            ),
        },
{
    match &desired.ipv6 {
        Ipv6Configuration::Automatic => {
            let pieces = ["-setv6automatic", interface_id];
            proof {
                assert(text::names(pieces@) =~= ipv6_arguments(interface_id@, desired@.ipv6));
            }
            Ok(networksetup(&pieces))
        },
        Ipv6Configuration::Disabled => {
            let pieces = ["-setv6off", interface_id];
            proof {
                assert(text::names(pieces@) =~= ipv6_arguments(interface_id@, desired@.ipv6));
            }
            Ok(networksetup(&pieces))
        },
        Ipv6Configuration::Static { addresses } => {
            if addresses.len() != 1 {
                return Err(invalid("macOS networksetup requires exactly one IPv6 address"));
            }
            let address = format_address(&addresses[0].address);
            let prefix = decimal_text(addresses[0].prefix_length as u64);
            let pieces = [
                "-setv6manual",
                interface_id,
                address.as_str(),
                prefix.as_str(),
                "::",
            ];
            proof {
                assert(text::names(pieces@) =~= ipv6_arguments(interface_id@, desired@.ipv6));
            }
            Ok(networksetup(&pieces))
        },
    }
}

fn dns_command(interface_id: &str, dns: &DnsConfiguration) -> (r: PlatformCommand)
    ensures
        r@ == (NETWORKSETUP@, dns_arguments(interface_id@, dns.automatic, dns.servers@)),
{
    let mut arguments: Vec<String> = Vec::new();
    arguments.push("-setdnsservers".to_owned());
    arguments.push(interface_id.to_owned());
    if dns.automatic || dns.servers.len() == 0 {
        arguments.push("Empty".to_owned());
    } else {
        let mut i: usize = 0;
        while i < dns.servers.len()
            invariant
                i <= dns.servers@.len(),
                arguments@.len() == 2 + i,
                arguments@[0]@ == "-setdnsservers"@,
                arguments@[1]@ == interface_id@,
                forall|j: int|
                    2 <= j < 2 + i ==> (#[trigger] arguments@[j])@ == dns.servers@[j - 2].text(),
            decreases dns.servers@.len() - i,
        {
            arguments.push(format_address(&dns.servers[i]));
            i += 1;
        }
    }
    proof {
        assert(text::texts(arguments@) =~= dns_arguments(
            interface_id@,
            dns.automatic,
            dns.servers@,
        ));
    }
    PlatformCommand { program: NETWORKSETUP.to_owned(), arguments }
}

/// Builds the commands that apply a configuration; it runs none of them.
///
/// # Errors
///
/// Fails when the interface or the configuration is not valid, when the configuration holds
/// routes, search domains or several addresses of a family, and when the name of the
/// interface holds what a shell would act on.
pub fn build_macos_networksetup_commands(
    interface_id: &str,
    desired: &NetworkDesiredState,
) -> (r: Result<Vec<PlatformCommand>, NetToolError>)
    ensures
        match r {
            Ok(commands) => {
                &&& macos_fault(interface_id@, *desired) is None
                &&& command::views(commands@) == macos_commands(interface_id@, desired@)
            },
            Err(e) => {
                &&& macos_fault(interface_id@, *desired) is Some
                &&& e.is(
                    (macos_fault(interface_id@, *desired)->0).0,
                    (macos_fault(interface_id@, *desired)->0).1,
                    false,
                )
            },
        },
{
    match validate_interface(interface_id) {
        Ok(_) => {},
        Err(e) => {
            return Err(e);
        },
    }
    match desired.validate() {
        Ok(_) => {},
        Err(message) => {
            return Err(invalid(message));
        },
    }
    if desired.routes.len() > 0 || desired.dns.search_domains.len() > 0 {
        return Err(
            NetToolError::new(
                ErrorCode::Unsupported,
                "macOS networksetup adapter does not apply routes or DNS search domains",
                false,
            ),
        );
    }
    let ipv4 = match ipv4_command(interface_id, desired) {
        Ok(c) => c,
        Err(e) => {
            return Err(e);
        },
    };
    let ipv6 = match ipv6_command(interface_id, desired) {
        Ok(c) => c,
        Err(e) => {
            return Err(e);
        },
    };
    let mut commands: Vec<PlatformCommand> = Vec::new();
    commands.push(ipv4);
    commands.push(ipv6);
    commands.push(dns_command(interface_id, &desired.dns));
    if let Some(mtu) = desired.mtu {
        let number = decimal_text(mtu as u64);
        let pieces = ["-setMTU", interface_id, number.as_str()];
        proof {
            assert(text::names(pieces@) =~= seq![
                "-setMTU"@,
                interface_id@,
                text::decimal(mtu as nat),
            ]);
        }
        commands.push(networksetup(&pieces));
    }
    proof {
        assert(command::views(commands@) =~= macos_commands(interface_id@, desired@));
    }
    match validate_commands(commands.as_slice()) {
        Ok(_) => Ok(commands),
        Err(e) => Err(e),
    }
}

// ----------------------------------------------------------------------------------- output

/// What stands behind a label, on the first line that begins with it, trimmed.
pub open spec fn labelled(ls: Seq<Seq<char>>, label: Seq<char>) -> Option<Seq<char>>
    decreases ls.len(),
{
    if ls.len() == 0 {
        None
    } else if text::has_prefix(ls[0], label) {
        Some(text::trimmed(ls[0].skip(label.len() as int)))
    } else {
        labelled(ls.drop_first(), label)
    }
}

/// The address behind a label; none where the label or the value is missing.
pub open spec fn optional_address(output: Seq<char>, label: Seq<char>) -> Result<
    Option<IpAddr>,
    Seq<char>,
> {
    match labelled(text::lines(output), label) {
        None => Ok(None),
        Some(value) => if value.len() == 0 || text::lowercase(value) == text::lowercase("none"@) {
            Ok(None)
        } else {
            match net::address_value(value) {
                Some(address) => Ok(Some(address)),
                None => Err("macOS state has invalid "@ + label),
            }
        },
    }
}

/// The address behind a label.
pub open spec fn required_address(output: Seq<char>, label: Seq<char>) -> Result<
    IpAddr,
    Seq<char>,
> {
    match optional_address(output, label) {
        Ok(Some(address)) => Ok(address),
        Ok(None) => Err("macOS state is missing "@ + label),
        Err(message) => Err(message),
    }
}

/// The length of a prefix behind a label.
pub open spec fn required_prefix(output: Seq<char>, label: Seq<char>) -> Result<nat, Seq<char>> {
    match labelled(text::lines(output), label) {
        None => Err("macOS state is missing "@ + label),
        Some(value) => match text::unsigned_value(value, u8::MAX as nat) {
            Some(n) => Ok(n),
            None => Err("macOS state has invalid "@ + label),
        },
    }
}

/// Whether there is a router other than the unspecified address, or why that is unknown.
pub open spec fn routed(output: Seq<char>, label: Seq<char>) -> Result<bool, Seq<char>> {
    match optional_address(output, label) {
        Ok(Some(router)) => Ok(!router.unspecified()),
        Ok(None) => Ok(false),
        Err(message) => Err(message),
    }
}

/// The prefix whose mask an address is.
pub open spec fn prefix_of(mask: u32) -> Option<nat> {
    if exists|p: nat| net::is_mask_of(mask as nat, p) {
        Some(choose|p: nat| net::is_mask_of(mask as nat, p))
    } else {
        None
    }
}

/// What the output says of the version 4 addresses.
pub open spec fn ipv4_of(info: Seq<char>) -> Result<FamilyView, Seq<char>> {
    if text::occurs(info, "DHCP Configuration"@) {
        Ok(FamilyView::Automatic)
    } else {
        match required_address(info, "IP address:"@) {
            Err(message) => Err(message),
            Ok(address) => match required_address(info, "Subnet mask:"@) {
                Err(message) => Err(message),
                Ok(mask) => match address {
                    IpAddr::V6(_) => Err("macOS IPv4 address has wrong family"@),
                    IpAddr::V4(_) => match mask {
                        IpAddr::V6(_) => Err("macOS IPv4 subnet mask has wrong family"@),
                        IpAddr::V4(bits) => match prefix_of(bits) {
                            None => Err("macOS subnet mask is not contiguous"@),
                            Some(prefix) => match routed(info, "Router:"@) {
                                Err(message) => Err(message),
                                Ok(true) => Err(
                                    "macOS state contains a gateway not representable by this adapter"@,
                                ),
                                Ok(false) => Ok(
                                    FamilyView::Static(
                                        seq![IpPrefix { address, prefix_length: prefix as u8 }],
                                    ),
                                ),
                            },
                        },
                    },
                },
            },
        }
    }
}

/// What the output says of the version 6 addresses.
pub open spec fn ipv6_of(info: Seq<char>) -> Result<FamilyView, Seq<char>> {
    if text::occurs(info, "Off"@) || text::occurs(info, "Disabled"@) {
        Ok(FamilyView::Disabled)
    } else if text::occurs(info, "Automatic"@) {
        Ok(FamilyView::Automatic)
    } else {
        match required_address(info, "IPv6 IP address:"@) {
            Err(message) => Err(message),
            Ok(address) => match address {
                IpAddr::V4(_) => Err("macOS IPv6 address has wrong family"@),
                IpAddr::V6(_) => match required_prefix(info, "Prefix Length:"@) {
                    Err(message) => Err(message),
                    Ok(prefix) => match routed(info, "IPv6 Router:"@) {
                        Err(message) => Err(message),
                        Ok(true) => Err(
                            "macOS IPv6 state contains a gateway not representable by this adapter"@,
                        ),
                        Ok(false) => Ok(
                            FamilyView::Static(
                                seq![IpPrefix { address, prefix_length: prefix as u8 }],
                            ),
                        ),
                    },
                },
            },
        }
    }
}

/// The addresses that texts stand for, if all of them do.
pub open spec fn addresses_of(values: Seq<Seq<char>>) -> Option<Seq<IpAddr>>
    decreases values.len(),
{
    if values.len() == 0 {
        Some(Seq::empty())
    } else {
        match (addresses_of(values.drop_last()), net::address_value(values.last())) {
            (Some(head), Some(address)) => Some(head.push(address)),
            _ => None,
        }
    }
}

/// What the output says of the name servers.
pub open spec fn servers_of(output: Seq<char>) -> Result<Seq<IpAddr>, Seq<char>> {
    if text::occurs(output, "There aren't any DNS Servers"@) || text::blank(output) {
        Ok(Seq::empty())
    } else {
        match addresses_of(text::filled(text::lines(output))) {
            Some(servers) => Ok(servers),
            None => Err("macOS DNS output is not an IP address"@),
        }
    }
}

/// What the output says of the transmission unit.
pub open spec fn mtu_of(output: Seq<char>) -> Result<nat, Seq<char>> {
    match text::second_piece(output, "Current Setting:"@) {
        None => Err("macOS MTU output is invalid"@),
        Some(piece) => if text::words(piece).len() == 0 {
            Err("macOS MTU output is invalid"@)
        } else {
            match text::unsigned_value(
                text::without_trailing(text::words(piece)[0], ')'),
                u32::MAX as nat,
            ) {
                Some(n) => Ok(n),
                None => Err("macOS MTU is invalid"@),
            }
        },
    }
}

/// What the outputs say of an interface.
pub open spec fn macos_state(
    info: Seq<char>,
    v6_info: Seq<char>,
    dns_info: Seq<char>,
    mtu_info: Seq<char>,
) -> Result<NetworkStateView, Seq<char>> {
    match ipv4_of(info) {
        Err(message) => Err(message),
        Ok(ipv4) => match ipv6_of(v6_info) {
            Err(message) => Err(message),
            Ok(ipv6) => match servers_of(dns_info) {
                Err(message) => Err(message),
                Ok(servers) => match mtu_of(mtu_info) {
                    Err(message) => Err(message),
                    Ok(mtu) => Ok(
                        NetworkStateView {
                            ipv4,
                            ipv6,
                            automatic_dns: servers.len() == 0,
                            servers,
                            search_domains: Seq::empty(),
                            routes: Seq::empty(),
                            mtu: Some(mtu as u32),
                        },
                    ),
                },
            },
        },
    }
}

fn find_labelled(output: &str, label: &str) -> (r: Option<String>)
    ensures
        text::optional(r) == labelled(text::lines(output@), label@),
{
    let lines = lines_of(output);
    let ghost ls = text::lines(output@);
    let mut i: usize = 0;
    proof {
        assert(ls.skip(0) == ls);
    }
    while i < lines.len()
        invariant
            text::texts(lines@) == ls,
            ls == text::lines(output@),
            i <= lines@.len(),
            labelled(ls, label@) == labelled(ls.skip(i as int), label@),
        decreases lines@.len() - i,
    {
        proof {
            assert(ls[i as int] == lines@[i as int]@);
            assert(ls.skip(i as int)[0] == ls[i as int]);
            assert(ls.skip(i as int).drop_first() == ls.skip(i + 1));
        }
        if let Some(value) = strip_prefix(lines[i].as_str(), label) {
            return Some(trim(value.as_str()));
        }
        i += 1;
    }
    None
}

/// A failure to read what a program printed.
pub fn reader_error(message: &str) -> (r: NetToolError)
    ensures
        r.is(ErrorCode::HelperExecutionFailed, message@, true),
{
    NetToolError::new(ErrorCode::HelperExecutionFailed, message, true)
}

fn find_optional_address(output: &str, label: &str) -> (r: Result<Option<IpAddr>, NetToolError>)
    ensures
        match r {
            Ok(a) => optional_address(output@, label@) == Ok::<Option<IpAddr>, Seq<char>>(a),
            Err(e) => optional_address(output@, label@) matches Err(message) && e.is(
                ErrorCode::HelperExecutionFailed,
                message,
                true,
            ),
        },
{
    match find_labelled(output, label) {
        None => Ok(None),
        Some(value) => {
            if value.as_str().is_empty() || same_ignoring_case(value.as_str(), "none") {
                return Ok(None);
            }
            match parse_address(value.as_str()) {
                Some(address) => Ok(Some(address)),
                None => Err(reader_error(concat("macOS state has invalid ", label).as_str())),
            }
        },
    }
}

fn find_address(output: &str, label: &str) -> (r: Result<IpAddr, NetToolError>)
    ensures
        match r {
            Ok(a) => required_address(output@, label@) == Ok::<IpAddr, Seq<char>>(a),
            Err(e) => required_address(output@, label@) matches Err(message) && e.is(
                ErrorCode::HelperExecutionFailed,
                message,
                true,
            ),
        },
{
    match find_optional_address(output, label) {
        Ok(Some(address)) => Ok(address),
        Ok(None) => Err(reader_error(concat("macOS state is missing ", label).as_str())),
        Err(e) => Err(e),
    }
}

fn find_prefix(output: &str, label: &str) -> (r: Result<u8, NetToolError>)
    ensures
        match r {
            Ok(n) => required_prefix(output@, label@) == Ok::<nat, Seq<char>>(n as nat),
            Err(e) => required_prefix(output@, label@) matches Err(message) && e.is(
                ErrorCode::HelperExecutionFailed,
                message,
                true,
            ),
        },
{
    match find_labelled(output, label) {
        None => Err(reader_error(concat("macOS state is missing ", label).as_str())),
        Some(value) => match parse_unsigned(value.as_str(), 0xff) {
            Some(n) => Ok(n as u8),
            None => Err(reader_error(concat("macOS state has invalid ", label).as_str())),
        },
    }
}

fn find_routed(output: &str, label: &str) -> (r: Result<bool, NetToolError>)
    ensures
        match r {
            Ok(b) => routed(output@, label@) == Ok::<bool, Seq<char>>(b),
            Err(e) => routed(output@, label@) matches Err(message) && e.is(
                ErrorCode::HelperExecutionFailed,
                message,
                true,
            ),
        },
{
    match find_optional_address(output, label) {
        Ok(Some(router)) => Ok(!router.is_unspecified()),
        Ok(None) => Ok(false),
        Err(e) => Err(e),
    }
}

fn prefix_from_netmask(mask: u32) -> (r: Result<u8, NetToolError>)
    ensures
        match r {
            Ok(p) => prefix_of(mask) == Some(p as nat),
            Err(e) => prefix_of(mask) is None && e.is(
                ErrorCode::HelperExecutionFailed,
                "macOS subnet mask is not contiguous"@,
                true,
            ),
        },
{
    match prefix_of_mask(mask) {
        Some(p) => {
            proof {
                assert(net::is_mask_of(mask as nat, p as nat));
                let q = choose|q: nat| net::is_mask_of(mask as nat, q);
                net::law_mask_determines_prefix(p as nat, q);
            }
            Ok(p)
        },
        None => Err(reader_error("macOS subnet mask is not contiguous")),
    }
}

fn read_ipv4(info: &str) -> (r: Result<Ipv4Configuration, NetToolError>)
    ensures
        match r {
            Ok(c) => ipv4_of(info@) == Ok::<FamilyView, Seq<char>>(helper_protocol::ipv4_view(c)),
            Err(e) => ipv4_of(info@) matches Err(message) && e.is(
                ErrorCode::HelperExecutionFailed,
                message,
                true,
            ),
        },
{
    if contains(info, "DHCP Configuration") {
        return Ok(Ipv4Configuration::Dhcp);
    }
    let address = match find_address(info, "IP address:") {
        Ok(a) => a,
        Err(e) => {
            return Err(e);
        },
    };
    let mask = match find_address(info, "Subnet mask:") {
        Ok(a) => a,
        Err(e) => {
            return Err(e);
        },
    };
    if !address.is_ipv4() {
        return Err(reader_error("macOS IPv4 address has wrong family"));
    }
    let bits: u32 = match mask {
        IpAddr::V4(n) => n,
        IpAddr::V6(_) => {
            return Err(reader_error("macOS IPv4 subnet mask has wrong family"));
        },
    };
    let prefix_length: u8 = match prefix_from_netmask(bits) {
        Ok(p) => p,
        Err(e) => {
            return Err(e);
        },
    };
    match find_routed(info, "Router:") {
        Err(e) => {
            return Err(e);
        },
        Ok(has_router) => {
            if has_router {
                return Err(
                    reader_error(
                        "macOS state contains a gateway not representable by this adapter",
                    ),
                );
            }
        },
    }
    let mut addresses: Vec<IpPrefix> = Vec::new();
    addresses.push(IpPrefix { address, prefix_length });
    proof {
        assert(addresses@ =~= seq![IpPrefix { address, prefix_length }]);
    }
    Ok(Ipv4Configuration::Static { addresses })
}

fn read_ipv6(info: &str) -> (r: Result<Ipv6Configuration, NetToolError>)
    ensures
        match r {
            Ok(c) => ipv6_of(info@) == Ok::<FamilyView, Seq<char>>(helper_protocol::ipv6_view(c)),
            Err(e) => ipv6_of(info@) matches Err(message) && e.is(
                ErrorCode::HelperExecutionFailed,
                message,
                true,
            ),
        },
{
    if contains(info, "Off") || contains(info, "Disabled") {
        return Ok(Ipv6Configuration::Disabled);
    }
    if contains(info, "Automatic") {
        return Ok(Ipv6Configuration::Automatic);
    }
    let address = match find_address(info, "IPv6 IP address:") {
        Ok(a) => a,
        Err(e) => {
            return Err(e);
        },
    };
    if address.is_ipv4() {
        return Err(reader_error("macOS IPv6 address has wrong family"));
    }
    let prefix_length: u8 = match find_prefix(info, "Prefix Length:") {
        Ok(p) => p,
        Err(e) => {
            return Err(e);
        },
    };
    match find_routed(info, "IPv6 Router:") {
        Err(e) => {
            return Err(e);
        },
        Ok(has_router) => {
            if has_router {
                return Err(
                    reader_error(
                        "macOS IPv6 state contains a gateway not representable by this adapter",
                    ),
                );
            }
        },
    }
    let mut addresses: Vec<IpPrefix> = Vec::new();
    addresses.push(IpPrefix { address, prefix_length });
    proof {
        assert(addresses@ =~= seq![IpPrefix { address, prefix_length }]);
    }
    Ok(Ipv6Configuration::Static { addresses })
}

proof fn lemma_addresses_fail(values: Seq<Seq<char>>, n: int)
    requires
        0 <= n <= values.len(),
        addresses_of(values.take(n)) is None,
    ensures
        addresses_of(values) is None,
    decreases values.len() - n,
{
    if n == values.len() {
        assert(values.take(n) == values);
    } else {
        assert(values.take(n + 1).drop_last() == values.take(n));
        lemma_addresses_fail(values, n + 1);
    }
}

/// Reads addresses, all or none.
pub fn parse_addresses(values: &Vec<String>) -> (r: Option<Vec<IpAddr>>)
    ensures
        match r {
            Some(a) => addresses_of(text::texts(values@)) == Some(a@),
            None => addresses_of(text::texts(values@)) is None,
        },
{
    let ghost all = text::texts(values@);
    let mut out: Vec<IpAddr> = Vec::new();
    let mut i: usize = 0;
    while i < values.len()
        invariant
            all == text::texts(values@),
            i <= values@.len(),
            addresses_of(all.take(i as int)) == Some(out@),
        decreases values@.len() - i,
    {
        proof {
            assert(all.take(i + 1).drop_last() == all.take(i as int));
            assert(all.take(i + 1).last() == values@[i as int]@);
        }
        match parse_address(values[i].as_str()) {
            Some(address) => {
                out.push(address);
            },
            None => {
                proof {
                    lemma_addresses_fail(all, i + 1);
                }
                return None;
            },
        }
        i += 1;
    }
    proof {
        assert(all.take(all.len() as int) == all);
    }
    Some(out)
}

fn filled_lines(output: &str) -> (r: Vec<String>)
    ensures
        text::texts(r@) == text::filled(text::lines(output@)),
{
    let lines = lines_of(output);
    let ghost ls = text::lines(output@);
    let mut out: Vec<String> = Vec::new();
    let mut i: usize = 0;
    proof {
        assert(text::texts(out@) =~= text::filled(ls.take(0)));
    }
    while i < lines.len()
        invariant
            i <= lines@.len(),
            text::texts(lines@) == ls,
            ls == text::lines(output@),
            text::texts(out@) == text::filled(ls.take(i as int)),
        decreases lines@.len() - i,
    {
        let line = trim(lines[i].as_str());
        let ghost before = text::texts(out@);
        proof {
            assert(ls.take(i + 1).drop_last() == ls.take(i as int));
            assert(ls.take(i + 1).last() == lines@[i as int]@);
        }
        if !line.as_str().is_empty() {
            out.push(line);
            proof {
                assert(text::texts(out@) =~= before.push(text::trimmed(lines@[i as int]@)));
            }
        }
        i += 1;
    }
    proof {
        assert(ls.take(ls.len() as int) == ls);
    }
    out
}

fn read_servers(output: &str) -> (r: Result<Vec<IpAddr>, NetToolError>)
    ensures
        match r {
            Ok(servers) => servers_of(output@) == Ok::<Seq<IpAddr>, Seq<char>>(servers@),
            Err(e) => servers_of(output@) matches Err(message) && e.is(
                ErrorCode::HelperExecutionFailed,
                message,
                true,
            ),
        },
{
    if contains(output, "There aren't any DNS Servers") || is_blank(output) {
        return Ok(Vec::new());
    }
    let values = filled_lines(output);
    match parse_addresses(&values) {
        Some(servers) => Ok(servers),
        None => Err(reader_error("macOS DNS output is not an IP address")),
    }
}

fn read_mtu(output: &str) -> (r: Result<u32, NetToolError>)
    ensures
        match r {
            Ok(n) => mtu_of(output@) == Ok::<nat, Seq<char>>(n as nat),
            Err(e) => mtu_of(output@) matches Err(message) && e.is(
                ErrorCode::HelperExecutionFailed,
                message,
                true,
            ),
        },
{
    let piece = match piece_behind(output, "Current Setting:") {
        Some(p) => p,
        None => {
            return Err(reader_error("macOS MTU output is invalid"));
        },
    };
    let words = words_of(piece.as_str());
    proof {
        assert(text::texts(words@).len() == words@.len());
    }
    if words.len() == 0 {
        return Err(reader_error("macOS MTU output is invalid"));
    }
    proof {
        assert(text::texts(words@)[0] == words@[0]@);
    }
    match parse_unsigned(trim_end_char(words[0].as_str(), ')').as_str(), 0xffff_ffff) {
        Some(n) => Ok(n as u32),
        None => Err(reader_error("macOS MTU is invalid")),
    }
}

/// Whether a configuration was refused for what is wrong with it.
pub open spec fn refused(state: NetworkStateView, e: NetToolError) -> bool {
    exists|s: NetworkDesiredState|
        s@ == state && #[trigger] helper_protocol::state_fault(s) is Some && e.is(
            ErrorCode::ProtocolInvalid,
            helper_protocol::state_fault(s)->0,
            false,
        )
}

/// Whether what outputs say, or why they are not understood, was handed on. A state that is
/// not valid is refused.
pub open spec fn understood(
    read: Result<NetworkStateView, Seq<char>>,
    r: Result<NetworkDesiredState, NetToolError>,
) -> bool {
    match r {
        Ok(state) => {
            &&& read == Ok::<NetworkStateView, Seq<char>>(state@)
            &&& helper_protocol::state_fault(state) is None
        },
        Err(e) => match read {
            Err(message) => e.is(ErrorCode::HelperExecutionFailed, message, true),
            Ok(state) => refused(state, e),
        },
    }
}

/// The operations that query an interface, in their order.
pub open spec fn query_operations() -> Seq<Seq<char>> {
    seq!["-getinfo"@, "-getv6info"@, "-getdnsservers"@, "-getMTU"@]
}

/// How the queries are run one behind the other, each once, up to the first that fails. The
/// path gives what was run before each of them and behind the last.
pub open spec fn queried_by(
    path: Seq<Seq<RunStep>>,
    interface_id: Seq<char>,
    answers: Seq<Result<String, NetToolError>>,
) -> bool {
    &&& 1 <= answers.len() <= 4
    &&& path.len() == answers.len() + 1
    &&& forall|i: int|
        #![trigger answers[i]]
        0 <= i < answers.len() ==> command::output_answered(
            path[i],
            path[i + 1],
            (NETWORKSETUP@, seq![query_operations()[i], interface_id]),
            "networksetup state query failed"@,
            answers[i],
        ) && (i < answers.len() - 1 ==> answers[i] is Ok)
    &&& answers.last() is Ok ==> answers.len() == 4
}

/// How the state of an interface is read.
pub open spec fn read_by(
    from: Seq<RunStep>,
    to: Seq<RunStep>,
    interface_id: Seq<char>,
    r: Result<NetworkDesiredState, NetToolError>,
) -> bool {
    exists|path: Seq<Seq<RunStep>>, answers: Seq<Result<String, NetToolError>>| #[trigger]
        queried_by(path, interface_id, answers) && path[0] == from && path.last() == to
            && concluded(answers, r)
}

/// What the answers to the queries come to.
pub open spec fn concluded(
    answers: Seq<Result<String, NetToolError>>,
    r: Result<NetworkDesiredState, NetToolError>,
) -> bool {
    match answers.last() {
        Err(e) => r == Err::<NetworkDesiredState, NetToolError>(e),
        Ok(mtu_info) => understood(
            macos_state(
                (answers[0]->Ok_0)@,
                (answers[1]->Ok_0)@,
                (answers[2]->Ok_0)@,
                mtu_info@,
            ),
            r,
        ),
    }
}

/// Reads the state of an interface from the outputs of `networksetup`. What cannot be
/// expressed whole is refused.
///
/// # Errors
///
/// Fails when an output is not understood, when there is a gateway, and when the
/// configuration is not valid.
pub fn parse_macos_state(info: &str, v6_info: &str, dns_info: &str, mtu_info: &str) -> (r: Result<
    NetworkDesiredState,
    NetToolError,
>)
    ensures
        understood(macos_state(info@, v6_info@, dns_info@, mtu_info@), r),
{
    let ipv4 = match read_ipv4(info) {
        Ok(c) => c,
        Err(e) => {
            return Err(e);
        },
    };
    let ipv6 = match read_ipv6(v6_info) {
        Ok(c) => c,
        Err(e) => {
            return Err(e);
        },
    };
    let servers = match read_servers(dns_info) {
        Ok(s) => s,
        Err(e) => {
            return Err(e);
        },
    };
    let mtu: u32 = match read_mtu(mtu_info) {
        Ok(n) => n,
        Err(e) => {
            return Err(e);
        },
    };
    let state = NetworkDesiredState {
        ipv4,
        ipv6,
        dns: DnsConfiguration {
            automatic: servers.len() == 0,
            servers,
            search_domains: Vec::new(),
        },
        routes: Vec::new(),
        mtu: Some(mtu),
    };
    proof {
        assert(state@.search_domains =~= Seq::<Seq<char>>::empty());
        assert(state@.routes =~= Seq::empty());
    }
    match state.validate() {
        Ok(_) => Ok(state),
        Err(message) => {
            let e = NetToolError::new(ErrorCode::ProtocolInvalid, message, false);
            proof {
                assert(helper_protocol::state_fault(state) is Some);
                assert(refused(state@, e));
            }
            Err(e)
        },
    }
}

/// Reads the state of interfaces with `networksetup`.
pub struct MacosNetworkStateReader<R> {
    programs: Programs<R>,
}

impl<R: CommandRunner> MacosNetworkStateReader<R> {
    /// The programs that were run.
    pub closed spec fn log(self) -> Seq<RunStep> {
        self.programs.log()
    }

    /// Creates a reader that runs its programs with a runner.
    #[must_use]
    pub fn new(runner: R) -> (r: Self)
        ensures
            r.log() == Seq::<RunStep>::empty(),
    {
        MacosNetworkStateReader { programs: Programs::new(runner) }
    }

    fn query(&mut self, interface_id: &str, operation: &str) -> (r: Result<String, NetToolError>)
        ensures
            command::output_answered(
                old(self).log(),
                final(self).log(),
                (NETWORKSETUP@, seq![operation@, interface_id@]),
                "networksetup state query failed"@,
                r,
            ),
    {
        let pieces = [operation, interface_id];
        let command = networksetup(&pieces);
        let ghost from = self.log();
        let answer = run_validated_platform_command(&mut self.programs, &command);
        proof {
            assert(text::names(pieces@) =~= seq![operation@, interface_id@]);
            assert(command::validated_answered(from, self.log(), command@, answer));
        }
        match answer {
            Err(e) => Err(e),
            Ok(output) => if output.success {
                Ok(output.stdout)
            } else {
                Err(
                    NetToolError::new(
                        ErrorCode::HelperExecutionFailed,
                        "networksetup state query failed",
                        true,
                    ),
                )
            },
        }
    }
}

impl<R: CommandRunner> PlatformStateReader for MacosNetworkStateReader<R> {
    /// Runs the four queries and reads what they print. A name that is not valid reaches no
    /// program; a state that is returned is valid.
    fn read_state(&mut self, interface_id: &str) -> (r: Result<NetworkDesiredState, NetToolError>)
        ensures
            match command::interface_fault(interface_id@) {
                Some(fault) => {
                    &&& r matches Err(e) && e.is(ErrorCode::InvalidArgument, fault, false)
                    &&& *final(self) == *old(self)
                },
                None => read_by(old(self).log(), final(self).log(), interface_id@, r),
            },
    {
        match validate_interface(interface_id) {
            Ok(_) => {},
            Err(e) => {
                return Err(e);
            },
        }
        let ghost mut path: Seq<Seq<RunStep>> = seq![self.log()];
        let ghost mut answers: Seq<Result<String, NetToolError>> = Seq::empty();
        let first = self.query(interface_id, "-getinfo");
        proof {
            answers = answers.push(first);
            path = path.push(self.log());
        }
        let info = match first {
            Ok(s) => s,
            Err(e) => {
                proof {
                    assert(queried_by(path, interface_id@, answers));
                }
                return Err(e);
            },
        };
        let second = self.query(interface_id, "-getv6info");
        proof {
            answers = answers.push(second);
            path = path.push(self.log());
        }
        let v6_info = match second {
            Ok(s) => s,
            Err(e) => {
                proof {
                    assert(queried_by(path, interface_id@, answers));
                }
                return Err(e);
            },
        };
        let third = self.query(interface_id, "-getdnsservers");
        proof {
            answers = answers.push(third);
            path = path.push(self.log());
        }
        let dns_info = match third {
            Ok(s) => s,
            Err(e) => {
                proof {
                    assert(queried_by(path, interface_id@, answers));
                }
                return Err(e);
            },
        };
        let fourth = self.query(interface_id, "-getMTU");
        proof {
            answers = answers.push(fourth);
            path = path.push(self.log());
            assert(queried_by(path, interface_id@, answers));
        }
        let mtu_info = match fourth {
            Ok(s) => s,
            Err(e) => {
                return Err(e);
            },
        };
        parse_macos_state(info.as_str(), v6_info.as_str(), dns_info.as_str(), mtu_info.as_str())
    }
}

} // verus!
