//! What the commands of the platform adapters say: which configuration they set, and which
//! commands may be run at all.

use crate::domain::{Ipv4Configuration, Ipv6Configuration};
use crate::helper::command;
use crate::helper::command::CommandView;
use crate::helper::macos;
use crate::helper::windows;
use crate::helper_protocol::NetworkDesiredState;
use crate::net;
use crate::text;
use vstd::prelude::*;
use vstd::utf8::encode_utf8;

verus! {

/// Whether every command of a sequence runs one program.
pub open spec fn all_run(commands: Seq<CommandView>, program: Seq<char>) -> bool {
    forall|i: int| 0 <= i < commands.len() ==> (#[trigger] commands[i]).0 == program
}

/// On macOS one command sets the version 4 addresses, one the version 6 addresses, one the
/// name servers, and one the transmission unit where one is asked for. All of them run
/// `networksetup` on the interface.
pub proof fn law_macos_sets_every_part(interface_id: Seq<char>, state: NetworkDesiredState)
    ensures
        ({
            let commands = macos::macos_commands(interface_id, state@);
            &&& commands.len() == (if state.mtu is Some {
                4int
            } else {
                3int
            })
            &&& all_run(commands, "/usr/sbin/networksetup"@)
            &&& forall|i: int| 0 <= i < commands.len() ==> (#[trigger] commands[i]).1.len() >= 2
                && commands[i].1[1] == interface_id
            &&& state.mtu matches Some(mtu) ==> commands[3].1 == seq![
                "-setMTU"@,
                interface_id,
                text::decimal(mtu as nat),
            ]
        }),
{
}

/// What the first command on macOS sets: DHCP where it is asked for; the one address with the
/// mask of its prefix and no router where it is fixed; nothing but zeros where version 4 is
/// switched off.
pub proof fn law_macos_version_4(interface_id: Seq<char>, state: NetworkDesiredState)
    ensures
        ({
            let arguments = macos::macos_commands(interface_id, state@)[0].1;
            match state.ipv4 {
                Ipv4Configuration::Dhcp => arguments == seq!["-setdhcp"@, interface_id],
                Ipv4Configuration::Disabled => arguments == seq![
                    "-setmanual"@,
                    interface_id,
                    "0.0.0.0"@,
                    "0.0.0.0"@,
                    "0.0.0.0"@,
                ],
                Ipv4Configuration::Static { addresses } => {
                    &&& arguments.len() == 5
                    &&& arguments[0] == "-setmanual"@
                    &&& arguments[1] == interface_id
                    &&& arguments[2] == addresses@[0].address.text()
                    &&& arguments[3] == net::v4_text(
                        net::netmask(addresses@[0].prefix_length as nat),
                    )
                    &&& arguments[4] == "0.0.0.0"@
                },
            }
        }),
{
}

/// What the second command on macOS sets: the automatic configuration where it is asked for;
/// the one address with its prefix and no router where it is fixed; version 6 switched off
/// where that is asked for.
pub proof fn law_macos_version_6(interface_id: Seq<char>, state: NetworkDesiredState)
    ensures
        ({
            let arguments = macos::macos_commands(interface_id, state@)[1].1;
            match state.ipv6 {
                Ipv6Configuration::Automatic => arguments == seq![
                    "-setv6automatic"@,
                    interface_id,
                ],
                Ipv6Configuration::Disabled => arguments == seq!["-setv6off"@, interface_id],
                Ipv6Configuration::Static { addresses } => {
                    &&& arguments.len() == 5
                    &&& arguments[0] == "-setv6manual"@
                    &&& arguments[1] == interface_id
                    &&& arguments[2] == addresses@[0].address.text()
                    &&& arguments[3] == text::decimal(addresses@[0].prefix_length as nat)
                    &&& arguments[4] == "::"@
                },
            }
        }),
{
}

/// What the third command on macOS sets: every server, in its order, where servers are fixed;
/// otherwise none.
pub proof fn law_macos_name_servers(interface_id: Seq<char>, state: NetworkDesiredState)
    ensures
        ({
            let arguments = macos::macos_commands(interface_id, state@)[2].1;
            let servers = state.dns.servers@;
            &&& arguments[0] == "-setdnsservers"@
            &&& arguments[1] == interface_id
            &&& !state.dns.automatic && servers.len() > 0 ==> {
                &&& arguments.len() == 2 + servers.len()
                &&& forall|i: int|
                    0 <= i < servers.len() ==> arguments[2 + i] == (#[trigger] servers[i]).text()
            }
            &&& state.dns.automatic || servers.len() == 0 ==> {
                &&& arguments.len() == 3
                &&& arguments[2] == "Empty"@
            }
        }),
{
}

/// On Windows one command sets the version 4 addresses, one the version 6 addresses, one the
/// name servers, and one the transmission unit where one is asked for. All of them run
/// `netsh` on the interface.
pub proof fn law_windows_sets_every_part(interface_id: Seq<char>, state: NetworkDesiredState)
    ensures
        ({
            let commands = windows::windows_commands(interface_id, state@);
            &&& commands.len() == (if state.mtu is Some {
                4int
            } else {
                3int
            })
            &&& all_run(commands, "C:\\Windows\\System32\\netsh.exe"@)
            &&& commands[0].1.take(5) == seq![
                "interface"@,
                "ipv4"@,
                "set"@,
                "address"@,
                "name="@ + interface_id,
            ]
            &&& commands[1].1.take(5) == seq![
                "interface"@,
                "ipv6"@,
                "set"@,
                "address"@,
                "interface="@ + interface_id,
            ]
            &&& commands[2].1.take(5) == seq![
                "interface"@,
                "ipv4"@,
                "set"@,
                "dnsservers"@,
                "name="@ + interface_id,
            ]
            &&& state.mtu matches Some(mtu) ==> commands[3].1 == seq![
                "interface"@,
                "ipv4"@,
                "set"@,
                "subinterface"@,
                "interface="@ + interface_id,
                "mtu="@ + text::decimal(mtu as nat),
                "store=active"@,
            ]
        }),
{
    let commands = windows::windows_commands(interface_id, state@);
    assert(commands[0].1.take(5) =~= seq![
        "interface"@,
        "ipv4"@,
        "set"@,
        "address"@,
        "name="@ + interface_id,
    ]);
    assert(commands[1].1.take(5) =~= seq![
        "interface"@,
        "ipv6"@,
        "set"@,
        "address"@,
        "interface="@ + interface_id,
    ]);
    assert(commands[2].1.take(5) =~= seq![
        "interface"@,
        "ipv4"@,
        "set"@,
        "dnsservers"@,
        "name="@ + interface_id,
    ]);
}

/// What the first command on Windows sets: DHCP where it is asked for; the one address with
/// the mask of its prefix and no router where it is fixed; nothing but zeros where version 4
/// is switched off.
pub proof fn law_windows_version_4(interface_id: Seq<char>, state: NetworkDesiredState)
    ensures
        ({
            let values = windows::windows_commands(interface_id, state@)[0].1.skip(5);
            match state.ipv4 {
                Ipv4Configuration::Dhcp => values == seq!["source=dhcp"@],
                Ipv4Configuration::Disabled => values == seq![
                    "source=static"@,
                    "addr=0.0.0.0"@,
                    "mask=0.0.0.0"@,
                    "gateway=none"@,
                ],
                Ipv4Configuration::Static { addresses } => values == seq![
                    "source=static"@,
                    "addr="@ + addresses@[0].address.text(),
                    "mask="@ + net::v4_text(net::netmask(addresses@[0].prefix_length as nat)),
                    "gateway=none"@,
                ],
            }
        }),
{
}

/// What the second command on Windows sets: DHCP where the automatic configuration is asked
/// for; the one address with its prefix where it is fixed; no source where version 6 is
/// switched off.
pub proof fn law_windows_version_6(interface_id: Seq<char>, state: NetworkDesiredState)
    ensures
        ({
            let values = windows::windows_commands(interface_id, state@)[1].1.skip(5);
            match state.ipv6 {
                Ipv6Configuration::Automatic => values == seq!["source=dhcp"@],
                Ipv6Configuration::Disabled => values == seq!["source=none"@],
                Ipv6Configuration::Static { addresses } => values == seq![
                    "address="@ + addresses@[0].address.text(),
                    "prefixlength="@ + text::decimal(addresses@[0].prefix_length as nat),
                    "store=active"@,
                ],
            }
        }),
{
}

/// What the third command on Windows sets: the servers that DHCP offers where they are asked
/// for, and otherwise the first of the fixed servers.
pub proof fn law_windows_name_servers(interface_id: Seq<char>, state: NetworkDesiredState)
    ensures
        ({
            let values = windows::windows_commands(interface_id, state@)[2].1.skip(5);
            &&& state.dns.automatic ==> values == seq!["source=dhcp"@]
            &&& !state.dns.automatic ==> values == seq![
                "source=static"@,
                "address="@ + state.dns.servers@[0].text(),
                "validate=no"@,
            ]
        }),
{
}

/// A configuration that a platform adapter takes has no routes, no search domains, and one
/// address where the addresses of a family are fixed. Windows also needs a server where the
/// servers are fixed.
pub proof fn law_accepted_configurations(interface_id: Seq<char>, state: NetworkDesiredState)
    requires
        macos::macos_fault(interface_id, state) is None || windows::windows_fault(
            interface_id,
            state,
        ) is None,
    ensures
        state.routes@.len() == 0,
        state.dns.search_domains@.len() == 0,
        state.ipv4 matches Ipv4Configuration::Static { addresses } ==> addresses@.len() == 1,
        state.ipv6 matches Ipv6Configuration::Static { addresses } ==> addresses@.len() == 1,
        windows::windows_fault(interface_id, state) is None && !state.dns.automatic
            ==> state.dns.servers@.len() > 0,
        0 < interface_id.len(),
        encode_utf8(interface_id).len() <= 256,
        !interface_id.contains('\0') && !interface_id.contains('\n') && !interface_id.contains(
            '\r',
        ),
{
}

/// The name of an interface is refused exactly where it is empty, longer than 256 bytes or
/// holds a zero or a line break.
pub proof fn law_interface_names(interface_id: Seq<char>)
    ensures
        command::interface_fault(interface_id) is None <==> {
            &&& 0 < interface_id.len()
            &&& encode_utf8(interface_id).len() <= 256
            &&& forall|i: int|
                0 <= i < interface_id.len() ==> {
                    let c = (#[trigger] interface_id[i]) as u32;
                    c != 0 && c != 10 && c != 13
                }
        },
{
    let s = interface_id;
    if command::interface_fault(s) is None {
        assert forall|i: int| 0 <= i < s.len() implies {
            let c = (#[trigger] s[i]) as u32;
            c != 0 && c != 10 && c != 13
        } by {
            assert(s.contains(s[i]));
            lemma_numbers(s[i]);
        }
    }
    if s.contains('\0') {
        let i = choose|i: int| 0 <= i < s.len() && s[i] == '\0';
        assert(s[i] as u32 == 0);
    }
    if s.contains('\n') {
        let i = choose|i: int| 0 <= i < s.len() && s[i] == '\n';
        assert(s[i] as u32 == 10);
    }
    if s.contains('\r') {
        let i = choose|i: int| 0 <= i < s.len() && s[i] == '\r';
        assert(s[i] as u32 == 13);
    }
}

proof fn lemma_numbers(c: char)
    ensures
        c as u32 == 0 ==> c == '\0',
        c as u32 == 10 ==> c == '\n',
        c as u32 == 13 ==> c == '\r',
        c as u32 == 0x24 ==> c == '$',
        c as u32 == 0x26 ==> c == '&',
        c as u32 == 0x3b ==> c == ';',
        c as u32 == 0x60 ==> c == '`',
        c as u32 == 0x7c ==> c == '|',
{
}

/// The numbers of the characters that no argument holds: the zero, the line breaks, and what a
/// shell acts on.
pub open spec fn forbidden(c: u32) -> bool {
    c == 0 || c == 10 || c == 13 || c == 0x24 || c == 0x26 || c == 0x3b || c == 0x60 || c == 0x7c
}

/// An argument is allowed exactly where it is not empty and holds no zero, no line break and
/// none of the characters that a shell acts on: `$`, `&`, `;`, the back quote and the bar.
pub proof fn law_arguments(s: Seq<char>)
    ensures
        command::argument_allowed(s) <==> {
            &&& s.len() > 0
            &&& forall|i: int| 0 <= i < s.len() ==> !forbidden((#[trigger] s[i]) as u32)
        },
{
    if command::argument_allowed(s) {
        assert forall|i: int| 0 <= i < s.len() implies !forbidden((#[trigger] s[i]) as u32) by {
            assert(s.contains(s[i]));
            lemma_numbers(s[i]);
        }
    }
    if forall|i: int| 0 <= i < s.len() ==> !forbidden((#[trigger] s[i]) as u32) {
        assert forall|c: char| forbidden(c as u32) implies !(#[trigger] s.contains(c)) by {
            if s.contains(c) {
                let i = choose|i: int| 0 <= i < s.len() && s[i] == c;
                assert(!forbidden(s[i] as u32));
            }
        }
        assert(!s.contains('\0'));
        assert(!s.contains('\n'));
        assert(!s.contains('\r'));
        assert(!s.contains(';'));
        assert(!s.contains('|'));
        assert(!s.contains('&'));
        assert(!s.contains('`'));
        assert(!s.contains('$'));
    }
}

/// A command that is run is one of three programs. The two that configure have between one and
/// 32 arguments, each of them allowed.
pub proof fn law_commands_that_are_run(program: Seq<char>, arguments: Seq<Seq<char>>)
    requires
        program != "C:\\Windows\\System32\\WindowsPowerShell\\v1.0\\powershell.exe"@,
    ensures
        command::command_fault((program, arguments)) is None <==> {
            &&& program == "/usr/sbin/networksetup"@ || program
                == "C:\\Windows\\System32\\netsh.exe"@
            &&& 1 <= arguments.len() <= 32
            &&& forall|i: int|
                0 <= i < arguments.len() ==> {
                    &&& (#[trigger] arguments[i]).len() > 0
                    &&& forall|j: int|
                        0 <= j < arguments[i].len() ==> !forbidden(
                            (#[trigger] arguments[i][j]) as u32,
                        )
                }
        },
{
    assert forall|i: int| 0 <= i < arguments.len() implies (command::argument_allowed(
        #[trigger] arguments[i],
    ) <==> {
        &&& arguments[i].len() > 0
        &&& forall|j: int|
            0 <= j < arguments[i].len() ==> !forbidden((#[trigger] arguments[i][j]) as u32)
    }) by {
        law_arguments(arguments[i]);
    }
}

/// A sequence of commands passes exactly where it is not empty and each of its commands passes.
pub proof fn law_sequences_of_commands(commands: Seq<CommandView>)
    ensures
        command::commands_fault(commands) is None <==> {
            &&& commands.len() > 0
            &&& forall|i: int|
                0 <= i < commands.len() ==> command::command_fault(#[trigger] commands[i]) is None
        },
{
    lemma_first_fault(commands, commands.len());
}

proof fn lemma_first_fault(commands: Seq<CommandView>, n: nat)
    requires
        n <= commands.len(),
    ensures
        command::first_command_fault(commands, n) is None <==> forall|i: int|
            0 <= i < n ==> command::command_fault(#[trigger] commands[i]) is None,
    decreases n,
{
    if n > 0 {
        lemma_first_fault(commands, (n - 1) as nat);
    }
}

} // verus!
