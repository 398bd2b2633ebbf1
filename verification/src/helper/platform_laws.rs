//! Which configurations the platform adapters take.

use crate::helper::command;
use crate::helper::command::{CommandView, NETSH_EXE, NETWORKSETUP, POWERSHELL_EXE};
use crate::helper::macos;
use crate::helper::platform;
use crate::helper::platform::PlatformBackend;
use crate::helper::windows;
use crate::helper_protocol;
use crate::helper_protocol::{FamilyView, NetworkDesiredState};
use crate::net;
use crate::net::IpAddr;
use crate::text;
use vstd::prelude::*;

verus! {

/// Whether a character may stand in an argument.
spec fn harmless_char(c: char) -> bool {
    c != '\0' && c != '\n' && c != '\r' && c != ';' && c != '|' && c != '&' && c != '`' && c != '$'
}

/// Whether a text is not empty and holds only characters that may stand in an argument.
spec fn harmless(s: Seq<char>) -> bool {
    s.len() > 0 && forall|i: int| 0 <= i < s.len() ==> harmless_char(#[trigger] s[i])
}

proof fn lemma_harmless(s: Seq<char>)
    requires
        harmless(s),
    ensures
        command::argument_allowed(s),
{
    assert forall|c: char| !harmless_char(c) implies !(#[trigger] s.contains(c)) by {
        if s.contains(c) {
            let i = choose|i: int| 0 <= i < s.len() && s[i] == c;
            assert(harmless_char(s[i]));
        }
    }
    assert(!s.contains('\0'));
    assert(!s.contains('\n'));
    assert(!s.contains('\r'));
    assert(!s.contains(';'));
    assert(!s.contains('|'));
    assert(!s.contains('&'));
    assert(!s.contains('`'));
    assert(!s.contains('$'));
}

proof fn lemma_interface(interface_id: Seq<char>)
    requires
        command::interface_fault(interface_id) is None,
        !command::has_shell_syntax(interface_id),
    ensures
        harmless(interface_id),
{
    assert forall|i: int| 0 <= i < interface_id.len() implies harmless_char(
        #[trigger] interface_id[i],
    ) by {
        assert(interface_id.contains(interface_id[i]));
    }
}

proof fn lemma_address(address: IpAddr)
    ensures
        harmless(address.text()),
{
    net::law_address_text_is_plain(address);
    let t = address.text();
    assert forall|i: int| 0 <= i < t.len() implies harmless_char(#[trigger] t[i]) by {
        assert(net::is_address_char(t[i]));
    }
}

proof fn lemma_decimal(n: nat)
    ensures
        harmless(text::decimal(n)),
    decreases n,
{
    if n >= 10 {
        lemma_decimal(n / 10);
    }
}

proof fn lemma_mask(prefix: u8)
    requires
        prefix <= 32,
    ensures
        harmless(net::v4_text(net::netmask(prefix as nat))),
{
    let n = net::netmask(prefix as nat);
    assert(n <= u32::MAX) by {
        if prefix > 0 {
            net::law_netmask_increases(0, prefix as nat);
        } else {
            vstd::arithmetic::power2::lemma2_to64();
        }
    }
    lemma_address(IpAddr::V4(n as u32));
}

proof fn lemma_concat(a: Seq<char>, b: Seq<char>)
    requires
        harmless(a),
        harmless(b),
    ensures
        harmless(a + b),
{
}

/// Whether all arguments of a command are harmless and not too many.
spec fn harmless_command(c: CommandView) -> bool {
    &&& c.0 == NETWORKSETUP@ || c.0 == NETSH_EXE@
    &&& 0 < c.1.len() <= 32
    &&& forall|i: int| 0 <= i < c.1.len() ==> harmless(#[trigger] c.1[i])
}

proof fn lemma_programs_differ()
    ensures
        NETWORKSETUP@ != POWERSHELL_EXE@,
        NETSH_EXE@ != POWERSHELL_EXE@,
{
    reveal_strlit("/usr/sbin/networksetup");
    reveal_strlit("C:\\Windows\\System32\\netsh.exe");
    reveal_strlit("C:\\Windows\\System32\\WindowsPowerShell\\v1.0\\powershell.exe");
    assert(NETWORKSETUP@.len() != POWERSHELL_EXE@.len());
    assert(NETSH_EXE@.len() != POWERSHELL_EXE@.len());
}

proof fn lemma_harmless_commands(commands: Seq<CommandView>)
    requires
        commands.len() > 0,
        forall|i: int| 0 <= i < commands.len() ==> harmless_command(#[trigger] commands[i]),
    ensures
        command::commands_fault(commands) is None,
{
    lemma_programs_differ();
    assert forall|i: int| 0 <= i < commands.len() implies command::command_fault(
        #[trigger] commands[i],
    ) is None by {
        let c = commands[i];
        assert(harmless_command(c));
        assert forall|j: int| 0 <= j < c.1.len() implies command::argument_allowed(
            #[trigger] c.1[j],
        ) by {
            lemma_harmless(c.1[j]);
        }
    }
    command::lemma_commands_pass(commands, commands.len());
}

proof fn lemma_macos_words()
    ensures
        harmless("-setdhcp"@),
        harmless("-setmanual"@),
        harmless("0.0.0.0"@),
        harmless("-setv6automatic"@),
        harmless("-setv6off"@),
        harmless("-setv6manual"@),
        harmless("::"@),
        harmless("-setdnsservers"@),
        harmless("Empty"@),
        harmless("-setMTU"@),
{
    reveal_strlit("-setdhcp");
    reveal_strlit("-setmanual");
    reveal_strlit("0.0.0.0");
    reveal_strlit("-setv6automatic");
    reveal_strlit("-setv6off");
    reveal_strlit("-setv6manual");
    reveal_strlit("::");
    reveal_strlit("-setdnsservers");
    reveal_strlit("Empty");
    reveal_strlit("-setMTU");
}

proof fn lemma_windows_words()
    ensures
        harmless("interface"@),
        harmless("ipv4"@),
        harmless("ipv6"@),
        harmless("set"@),
        harmless("address"@),
        harmless("name="@),
        harmless("source=dhcp"@),
        harmless("source=static"@),
        harmless("addr=0.0.0.0"@),
        harmless("mask=0.0.0.0"@),
        harmless("gateway=none"@),
        harmless("addr="@),
        harmless("mask="@),
        harmless("interface="@),
        harmless("source=none"@),
        harmless("address="@),
        harmless("prefixlength="@),
        harmless("store=active"@),
        harmless("dnsservers"@),
        harmless("validate=no"@),
        harmless("subinterface"@),
        harmless("mtu="@),
{
    reveal_strlit("interface");
    reveal_strlit("ipv4");
    reveal_strlit("ipv6");
    reveal_strlit("set");
    reveal_strlit("address");
    reveal_strlit("name=");
    reveal_strlit("source=dhcp");
    reveal_strlit("source=static");
    reveal_strlit("addr=0.0.0.0");
    reveal_strlit("mask=0.0.0.0");
    reveal_strlit("gateway=none");
    reveal_strlit("addr=");
    reveal_strlit("mask=");
    reveal_strlit("interface=");
    reveal_strlit("source=none");
    reveal_strlit("address=");
    reveal_strlit("prefixlength=");
    reveal_strlit("store=active");
    reveal_strlit("dnsservers");
    reveal_strlit("validate=no");
    reveal_strlit("subinterface");
    reveal_strlit("mtu=");
}

/// What both adapters can take: a valid interface without what a shell would act on, and a
/// valid configuration without routes and search domains, with at most one fixed address of
/// each family.
pub open spec fn expressible(interface_id: Seq<char>, state: NetworkDesiredState) -> bool {
    &&& command::interface_fault(interface_id) is None
    &&& !command::has_shell_syntax(interface_id)
    &&& helper_protocol::state_fault(state) is None
    &&& state@.routes.len() == 0
    &&& state@.search_domains.len() == 0
    &&& !macos::not_one_address(state@.ipv4)
    &&& !macos::not_one_address(state@.ipv6)
}

proof fn lemma_state_limits(state: NetworkDesiredState)
    requires
        helper_protocol::state_fault(state) is None,
    ensures
        state@.servers.len() <= 16,
        state@.ipv4 matches FamilyView::Static(a) ==> a.len() > 0 && a[0].prefix_length <= 32,
{
    if let crate::domain::Ipv4Configuration::Static { addresses } = state.ipv4 {
        helper_protocol::law_valid_addresses_belong_to_their_family(state, addresses@, true);
    }
}

/// The macOS adapter takes every configuration that it can express.
pub proof fn law_macos_takes_what_it_can_express(
    interface_id: Seq<char>,
    state: NetworkDesiredState,
)
    requires
        expressible(interface_id, state),
    ensures
        platform::platform_fault(PlatformBackend::Macos, interface_id, state) is None,
{
    let commands = macos::macos_commands(interface_id, state@);
    lemma_interface(interface_id);
    lemma_macos_words();
    lemma_state_limits(state);
    let c4 = commands[0];
    assert(harmless_command(c4)) by {
        if let FamilyView::Static(a) = state@.ipv4 {
            lemma_address(a[0].address);
            lemma_mask(a[0].prefix_length);
        }
    }
    let c6 = commands[1];
    assert(harmless_command(c6)) by {
        if let FamilyView::Static(a) = state@.ipv6 {
            lemma_address(a[0].address);
            lemma_decimal(a[0].prefix_length as nat);
        }
    }
    let dns = commands[2];
    assert(harmless_command(dns)) by {
        assert forall|i: int| 0 <= i < dns.1.len() implies harmless(#[trigger] dns.1[i]) by {
            if i >= 2 && !state@.automatic_dns && state@.servers.len() > 0 {
                lemma_address(state@.servers[i - 2]);
            }
        }
    }
    if let Some(mtu) = state@.mtu {
        lemma_decimal(mtu as nat);
        assert(harmless_command(commands[3]));
    }
    lemma_harmless_commands(commands);
}

/// The Windows adapter takes every configuration that it can express, unless the name
/// resolution is fixed without a server.
pub proof fn law_windows_takes_what_it_can_express(
    interface_id: Seq<char>,
    state: NetworkDesiredState,
)
    requires
        expressible(interface_id, state),
        state@.automatic_dns || state@.servers.len() > 0,
    ensures
        platform::platform_fault(PlatformBackend::Windows, interface_id, state) is None,
{
    let commands = windows::windows_commands(interface_id, state@);
    lemma_interface(interface_id);
    lemma_windows_words();
    lemma_state_limits(state);
    lemma_concat("name="@, interface_id);
    lemma_concat("interface="@, interface_id);
    let c4 = commands[0];
    assert(harmless_command(c4)) by {
        if let FamilyView::Static(a) = state@.ipv4 {
            lemma_address(a[0].address);
            lemma_mask(a[0].prefix_length);
            lemma_concat("addr="@, a[0].address.text());
            lemma_concat("mask="@, net::v4_text(net::netmask(a[0].prefix_length as nat)));
        }
    }
    let c6 = commands[1];
    assert(harmless_command(c6)) by {
        if let FamilyView::Static(a) = state@.ipv6 {
            lemma_address(a[0].address);
            lemma_decimal(a[0].prefix_length as nat);
            lemma_concat("address="@, a[0].address.text());
            lemma_concat("prefixlength="@, text::decimal(a[0].prefix_length as nat));
        }
    }
    let dns = commands[2];
    assert(harmless_command(dns)) by {
        if !state@.automatic_dns {
            lemma_address(state@.servers[0]);
            lemma_concat("address="@, state@.servers[0].text());
        }
    }
    if let Some(mtu) = state@.mtu {
        lemma_decimal(mtu as nat);
        lemma_concat("mtu="@, text::decimal(mtu as nat));
        assert(harmless_command(commands[3]));
    }
    lemma_harmless_commands(commands);
}

} // verus!
