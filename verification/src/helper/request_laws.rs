//! Which configurations and requests the helper takes.

use crate::domain::{IpPrefix, Ipv4Configuration, Ipv6Configuration, RouteConfiguration};
use crate::helper_protocol;
use crate::helper_protocol::{
    ManagedHostsEntry, NetworkDesiredState, PrivilegedOperation, PrivilegedWireRequest,
};
use crate::helper_server;
use crate::net;
use crate::net::IpAddr;
use crate::text;
use crate::text_laws;
use vstd::prelude::*;
use vstd::utf8::encode_utf8;

verus! {

// ------------------------------------------------------------------------------ configurations

/// Whether an address with its prefix can be used in a family: its version and the bits of it
/// agree with the family, and not all its bits are zero.
pub open spec fn usable_prefix(p: IpPrefix, ipv4: bool) -> bool {
    match p.address {
        IpAddr::V4(n) => ipv4 && n > 0 && p.prefix_length <= 32,
        IpAddr::V6(n) => !ipv4 && n > 0 && p.prefix_length <= 128,
    }
}

/// Whether fixed addresses can be used in a family: one to sixteen of them, each usable, none
/// twice.
pub open spec fn usable_addresses(s: Seq<IpPrefix>, ipv4: bool) -> bool {
    &&& 1 <= s.len() <= 16
    &&& forall|i: int| 0 <= i < s.len() ==> usable_prefix(#[trigger] s[i], ipv4)
    &&& forall|i: int, j: int| 0 <= i < j < s.len() ==> #[trigger] s[i] != #[trigger] s[j]
}

/// Fixed addresses are taken exactly where they can be used in their family.
pub proof fn law_fixed_addresses(s: Seq<IpPrefix>, ipv4: bool)
    ensures
        helper_protocol::prefixes_fault(s, ipv4) is None <==> usable_addresses(s, ipv4),
{
    lemma_prefixes(s, ipv4, s.len());
    if helper_protocol::prefixes_fault(s, ipv4) is None {
        assert forall|i: int, j: int| 0 <= i < j < s.len() implies #[trigger] s[i]
            != #[trigger] s[j] by {
            assert(helper_protocol::prefix_fault(s, ipv4, j) is None);
        }
        assert forall|i: int| 0 <= i < s.len() implies usable_prefix(#[trigger] s[i], ipv4) by {
            assert(helper_protocol::prefix_fault(s, ipv4, i) is None);
        }
    }
    if usable_addresses(s, ipv4) {
        assert forall|i: int| 0 <= i < s.len() implies #[trigger] helper_protocol::prefix_fault(
            s,
            ipv4,
            i,
        ) is None by {
            assert(usable_prefix(s[i], ipv4));
        }
    }
}

proof fn lemma_prefixes(s: Seq<IpPrefix>, ipv4: bool, n: nat)
    requires
        n <= s.len(),
    ensures
        helper_protocol::first_prefix_fault(s, ipv4, n) is None <==> forall|i: int|
            0 <= i < n ==> #[trigger] helper_protocol::prefix_fault(s, ipv4, i) is None,
    decreases n,
{
    if n > 0 {
        lemma_prefixes(s, ipv4, (n - 1) as nat);
    }
}

/// Whether a route can be used: its destination in its own family, and the next hop, where
/// there is one, in the same.
pub open spec fn usable_route(route: RouteConfiguration) -> bool {
    &&& usable_prefix(route.destination, route.destination.address is V4)
    &&& match route.gateway {
        None => true,
        Some(IpAddr::V4(n)) => n > 0 && route.destination.address is V4,
        Some(IpAddr::V6(n)) => n > 0 && route.destination.address is V6,
    }
}

/// Routes are taken exactly where there are at most 256, each can be used and none occurs
/// twice.
pub proof fn law_routes(routes: Seq<RouteConfiguration>)
    ensures
        helper_protocol::routes_fault(routes) is None <==> {
            &&& routes.len() <= 256
            &&& forall|i: int| 0 <= i < routes.len() ==> usable_route(#[trigger] routes[i])
            &&& forall|i: int, j: int|
                0 <= i < j < routes.len() ==> #[trigger] routes[i] != #[trigger] routes[j]
        },
{
    lemma_routes(routes, routes.len());
    if helper_protocol::routes_fault(routes) is None {
        assert forall|i: int, j: int| 0 <= i < j < routes.len() implies #[trigger] routes[i]
            != #[trigger] routes[j] by {
            assert(helper_protocol::route_fault(routes, j) is None);
        }
        assert forall|i: int| 0 <= i < routes.len() implies usable_route(#[trigger] routes[i]) by {
            assert(helper_protocol::route_fault(routes, i) is None);
        }
    }
    if routes.len() <= 256 && (forall|i: int|
        0 <= i < routes.len() ==> usable_route(#[trigger] routes[i])) && (forall|i: int, j: int|
        0 <= i < j < routes.len() ==> #[trigger] routes[i] != #[trigger] routes[j]) {
        assert forall|i: int|
            0 <= i < routes.len() implies #[trigger] helper_protocol::route_fault(
            routes,
            i,
        ) is None by {
            assert(usable_route(routes[i]));
        }
    }
}

proof fn lemma_routes(routes: Seq<RouteConfiguration>, n: nat)
    requires
        n <= routes.len(),
    ensures
        helper_protocol::first_route_fault(routes, n) is None <==> forall|i: int|
            0 <= i < n ==> #[trigger] helper_protocol::route_fault(routes, i) is None,
    decreases n,
{
    if n > 0 {
        lemma_routes(routes, (n - 1) as nat);
    }
}

/// Whether a character, by its number, is an ASCII letter or digit.
pub open spec fn alphanumeric(c: u32) -> bool {
    0x30 <= c <= 0x39 || 0x41 <= c <= 0x5a || 0x61 <= c <= 0x7a
}

proof fn lemma_numbers(c: char)
    ensures
        c as u32 == 0x2d <==> c == '-',
        c as u32 == 0x2e <==> c == '.',
        c as u32 == 0x5f <==> c == '_',
{
}

/// Names are made of ASCII letters, digits and the few signs that are allowed beside them.
pub proof fn lemma_plain(s: Seq<char>)
    ensures
        text::only_alphanumeric_or(s, "-"@) <==> forall|i: int|
            0 <= i < s.len() ==> {
                let c = (#[trigger] s[i]) as u32;
                alphanumeric(c) || c == 0x2d
            },
        text::only_alphanumeric_or(s, "-_"@) <==> forall|i: int|
            0 <= i < s.len() ==> {
                let c = (#[trigger] s[i]) as u32;
                alphanumeric(c) || c == 0x2d || c == 0x5f
            },
        text::only_alphanumeric_or(s, "-._"@) <==> forall|i: int|
            0 <= i < s.len() ==> {
                let c = (#[trigger] s[i]) as u32;
                alphanumeric(c) || c == 0x2d || c == 0x2e || c == 0x5f
            },
{
    reveal_strlit("-");
    reveal_strlit("-_");
    reveal_strlit("-._");
    assert("-"@[0] == '-');
    assert("-_"@[0] == '-' && "-_"@[1] == '_');
    assert("-._"@[0] == '-' && "-._"@[1] == '.' && "-._"@[2] == '_');
    assert forall|c: char| #[trigger] "-"@.contains(c) <==> c as u32 == 0x2d by {
        lemma_numbers(c);
    }
    assert forall|c: char| #[trigger] "-_"@.contains(c) <==> (c as u32 == 0x2d || c as u32
        == 0x5f) by {
        lemma_numbers(c);
    }
    assert forall|c: char| #[trigger] "-._"@.contains(c) <==> (c as u32 == 0x2d || c as u32 == 0x2e
        || c as u32 == 0x5f) by {
        lemma_numbers(c);
    }
    assert forall|i: int| 0 <= i < s.len() implies (text::is_alphanumeric(#[trigger] s[i])
        <==> alphanumeric(s[i] as u32)) by {}
}

/// A domain name is valid exactly where it is made of parts with dots between them, 253 bytes
/// in all, and each part has one to 63 bytes of letters, digits and hyphens, none of which
/// stands at its ends.
pub proof fn law_domain_names(labels: Seq<Seq<char>>)
    requires
        labels.len() > 0,
        forall|i: int| 0 <= i < labels.len() ==> !(#[trigger] labels[i]).contains('.'),
    ensures
        helper_protocol::domain_valid(text::joined(labels, seq!['.'])) <==> {
            &&& encode_utf8(text::joined(labels, seq!['.'])).len() <= 253
            &&& forall|k: int|
                0 <= k < labels.len() ==> {
                    let label = #[trigger] labels[k];
                    &&& 0 < label.len()
                    &&& encode_utf8(label).len() <= 63
                    &&& label[0] as u32 != 0x2d
                    &&& label[label.len() - 1] as u32 != 0x2d
                    &&& forall|i: int|
                        0 <= i < label.len() ==> {
                            let c = (#[trigger] label[i]) as u32;
                            alphanumeric(c) || c == 0x2d
                        }
                }
        },
{
    text_laws::law_joined_texts_are_cut_apart_again(labels, '.');
    assert forall|k: int| 0 <= k < labels.len() implies (helper_protocol::label_valid(
        #[trigger] labels[k],
    ) <==> {
        let label = labels[k];
        &&& 0 < label.len()
        &&& encode_utf8(label).len() <= 63
        &&& label[0] as u32 != 0x2d
        &&& label[label.len() - 1] as u32 != 0x2d
        &&& forall|i: int|
            0 <= i < label.len() ==> {
                let c = (#[trigger] label[i]) as u32;
                alphanumeric(c) || c == 0x2d
            }
    }) by {
        let label = labels[k];
        lemma_plain(label);
        lemma_numbers(label[0]);
        lemma_numbers(label[label.len() - 1]);
    }
}

/// A configuration is taken exactly where the addresses of both families, the routes, the
/// servers and domains and the transmission unit are.
pub proof fn law_configurations(state: NetworkDesiredState)
    ensures
        helper_protocol::state_fault(state) is None <==> {
            &&& state.ipv4 matches Ipv4Configuration::Static { addresses } ==> usable_addresses(
                addresses@,
                true,
            )
            &&& state.ipv6 matches Ipv6Configuration::Static { addresses } ==> usable_addresses(
                addresses@,
                false,
            )
            &&& state.routes@.len() <= 256
            &&& forall|i: int|
                0 <= i < state.routes@.len() ==> usable_route(#[trigger] state.routes@[i])
            &&& forall|i: int, j: int|
                0 <= i < j < state.routes@.len() ==> #[trigger] state.routes@[i]
                    != #[trigger] state.routes@[j]
            &&& state.dns.servers@.len() <= 16
            &&& forall|i: int|
                0 <= i < state.dns.servers@.len() ==> match #[trigger] state.dns.servers@[i] {
                    IpAddr::V4(n) => n > 0,
                    IpAddr::V6(n) => n > 0,
                }
            &&& state.dns.search_domains@.len() <= 32
            &&& forall|i: int|
                0 <= i < state.dns.search_domains@.len() ==> helper_protocol::domain_valid(
                    (#[trigger] state.dns.search_domains@[i])@,
                )
            &&& state.mtu matches Some(mtu) ==> 576 <= mtu <= 65535
        },
{
    if let Ipv4Configuration::Static { addresses } = state.ipv4 {
        law_fixed_addresses(addresses@, true);
    }
    if let Ipv6Configuration::Static { addresses } = state.ipv6 {
        law_fixed_addresses(addresses@, false);
    }
    law_routes(state.routes@);
    let servers = state.dns.servers@;
    if exists|i: int| 0 <= i < servers.len() && (#[trigger] servers[i]).unspecified() {
        let i = choose|i: int| 0 <= i < servers.len() && (#[trigger] servers[i]).unspecified();
        assert(!match servers[i] {
            IpAddr::V4(n) => n > 0,
            IpAddr::V6(n) => n > 0,
        });
    } else {
        assert forall|i: int| 0 <= i < servers.len() implies match #[trigger] servers[i] {
            IpAddr::V4(n) => n > 0,
            IpAddr::V6(n) => n > 0,
        } by {
            assert(!servers[i].unspecified());
        }
    }
}

// ------------------------------------------------------------------------------------ requests

/// Whether a text identifies something: not blank, at most 256 bytes, no control characters.
pub open spec fn identifies(s: Seq<char>) -> bool {
    &&& !text_laws::all_white(s)
    &&& encode_utf8(s).len() <= 256
    &&& forall|i: int|
        0 <= i < s.len() ==> {
            let c = (#[trigger] s[i]) as u32;
            0x20 <= c && !(0x7f <= c <= 0x9f)
        }
}

proof fn lemma_identifies(s: Seq<char>)
    ensures
        helper_protocol::identifier_fault(s) is None <==> identifies(s),
{
    text_laws::law_trimming_takes_white_space_away(s);
    if identifies(s) && text::has_control(s) {
        let i = choose|i: int| 0 <= i < s.len() && text::is_control(#[trigger] s[i]);
        assert(!(0x20 <= s[i] as u32 && !(0x7f <= s[i] as u32 <= 0x9f)));
    }
    if !text::has_control(s) {
        assert forall|i: int| 0 <= i < s.len() implies {
            let c = (#[trigger] s[i]) as u32;
            0x20 <= c && !(0x7f <= c <= 0x9f)
        } by {
            assert(!text::is_control(s[i]));
        }
    }
}

/// Whether an entry of the hosts file can be written: an address, a name of at most 253 bytes
/// of letters, digits, hyphens, dots and underscores, and a comment on one line.
pub open spec fn usable_entry(entry: ManagedHostsEntry) -> bool {
    &&& net::address_value(entry.address@) is Some
    &&& 0 < entry.hostname@.len()
    &&& encode_utf8(entry.hostname@).len() <= 253
    &&& forall|i: int|
        0 <= i < entry.hostname@.len() ==> {
            let c = (#[trigger] entry.hostname@[i]) as u32;
            alphanumeric(c) || c == 0x2d || c == 0x2e || c == 0x5f
        }
    &&& entry.comment matches Some(comment) ==> !comment@.contains('\r') && !comment@.contains(
        '\n',
    )
}

/// Entries of the hosts file are taken exactly where the profile is named by letters, digits,
/// hyphens and underscores, there are at most 10,000 and each can be written.
pub proof fn law_hosts_entries(profile_id: Seq<char>, entries: Seq<ManagedHostsEntry>)
    ensures
        helper_protocol::hosts_fault(profile_id, entries) is None <==> {
            &&& 0 < profile_id.len()
            &&& forall|i: int|
                0 <= i < profile_id.len() ==> {
                    let c = (#[trigger] profile_id[i]) as u32;
                    alphanumeric(c) || c == 0x2d || c == 0x5f
                }
            &&& entries.len() <= 10_000
            &&& forall|i: int| 0 <= i < entries.len() ==> usable_entry(#[trigger] entries[i])
        },
{
    lemma_plain(profile_id);
    lemma_entries(entries, entries.len());
}

proof fn lemma_entries(entries: Seq<ManagedHostsEntry>, n: nat)
    requires
        n <= entries.len(),
    ensures
        helper_protocol::first_hosts_fault(entries, n) is None <==> forall|i: int|
            0 <= i < n ==> usable_entry(#[trigger] entries[i]),
    decreases n,
{
    if n > 0 {
        lemma_entries(entries, (n - 1) as nat);
        lemma_plain(entries[n - 1].hostname@);
        assert(helper_protocol::hosts_entry_fault(entries[n - 1]) is None <==> usable_entry(
            entries[n - 1],
        ));
    }
}

/// What an operation needs to be taken: identifiers where it has them, a PCI address, between
/// ten seconds and ten minutes to confirm a configuration that can be applied, entries that can
/// be written, and at most a tebibyte of huge pages.
pub proof fn law_operations(operation: PrivilegedOperation)
    ensures
        operation.fault() is None <==> match operation {
            PrivilegedOperation::NetworkReadState { interface_id } => identifies(interface_id@),
            PrivilegedOperation::NetworkRestore { snapshot_id } => identifies(snapshot_id@),
            PrivilegedOperation::NetworkApply {
                interface_id,
                desired_state,
                confirm_timeout_seconds,
            } => identifies(interface_id@) && 10 <= confirm_timeout_seconds <= 600
                && helper_protocol::state_fault(desired_state) is None,
            PrivilegedOperation::HostsAtomicReplace {
                profile_id,
                entries,
            } => helper_protocol::hosts_fault(profile_id@, entries@) is None,
            PrivilegedOperation::NicPrepareDpdk { pci_address } => is_pci_address(pci_address@),
            PrivilegedOperation::NicRestoreDriver {
                pci_address,
                prepare_operation_id,
            } => is_pci_address(pci_address@) && identifies(prepare_operation_id@),
            PrivilegedOperation::HugepagePrepare { node, pages, page_size_kib } => 0 < pages && 0
                < page_size_kib && pages * page_size_kib <= 1024 * 1024 * 1024,
            PrivilegedOperation::HugepageRelease { operation_id } => identifies(operation_id@),
            PrivilegedOperation::SafeApplyConfirm { operation_id } => identifies(operation_id@),
            PrivilegedOperation::SafeApplyRollback { operation_id } => identifies(operation_id@),
            PrivilegedOperation::HostsRead => true,
            PrivilegedOperation::HostsBackup => true,
            PrivilegedOperation::HostsRestore => true,
            PrivilegedOperation::SafeApplyListPending => true,
        },
{
    match operation {
        PrivilegedOperation::NetworkReadState { interface_id } => {
            lemma_identifies(interface_id@);
        },
        PrivilegedOperation::NetworkRestore { snapshot_id } => {
            lemma_identifies(snapshot_id@);
        },
        PrivilegedOperation::NetworkApply { interface_id, .. } => {
            lemma_identifies(interface_id@);
        },
        PrivilegedOperation::NicPrepareDpdk { pci_address } => {
            lemma_pci_address(pci_address@);
        },
        PrivilegedOperation::NicRestoreDriver { pci_address, prepare_operation_id } => {
            lemma_pci_address(pci_address@);
            lemma_identifies(prepare_operation_id@);
        },
        PrivilegedOperation::HugepageRelease { operation_id } => {
            lemma_identifies(operation_id@);
        },
        PrivilegedOperation::SafeApplyConfirm { operation_id } => {
            lemma_identifies(operation_id@);
        },
        PrivilegedOperation::SafeApplyRollback { operation_id } => {
            lemma_identifies(operation_id@);
        },
        _ => {},
    }
}

/// Whether a character, by its number, is a hexadecimal digit.
pub open spec fn hexadecimal(c: u32) -> bool {
    0x30 <= c <= 0x39 || 0x41 <= c <= 0x46 || 0x61 <= c <= 0x66
}

/// Whether a text is written `dddd:bb:ss.f` in hexadecimal digits.
pub open spec fn is_pci_address(s: Seq<char>) -> bool {
    &&& s.len() == 12
    &&& forall|i: int|
        0 <= i < 12 ==> {
            let c = (#[trigger] s[i]) as u32;
            if i == 4 || i == 7 {
                c == 0x3a
            } else if i == 10 {
                c == 0x2e
            } else {
                hexadecimal(c)
            }
        }
}

proof fn lemma_signs(c: char)
    ensures
        c as u32 == 0x3a <==> c == ':',
        c as u32 == 0x2e <==> c == '.',
{
}

proof fn lemma_pci_address(s: Seq<char>)
    ensures
        helper_protocol::pci_fault(s) is None <==> is_pci_address(s),
{
    lemma_signs(s[4]);
    lemma_signs(s[7]);
    lemma_signs(s[10]);
}

/// A request is handled exactly where both identifiers say something and its operation is
/// taken.
pub proof fn law_requests(wire: PrivilegedWireRequest)
    ensures
        helper_server::request_fault(wire) is None <==> {
            &&& !text_laws::all_white(wire.request_id@)
            &&& !text_laws::all_white(wire.operation_id@)
            &&& wire.operation.fault() is None
        },
{
    text_laws::law_trimming_takes_white_space_away(wire.request_id@);
    text_laws::law_trimming_takes_white_space_away(wire.operation_id@);
}

/// A frame of the helper has at least one byte and at most a mebibyte.
pub proof fn law_frames_of_the_helper(length: u32)
    ensures
        helper_server::length_allowed(length) <==> 1 <= length <= 1024 * 1024,
{
}

/// Every operation has a name of its own.
pub proof fn law_names_of_operations(operation: PrivilegedOperation)
    ensures
        operation.name_text() == match operation {
            PrivilegedOperation::NetworkReadState { .. } => "network.read_state"@,
            PrivilegedOperation::NetworkApply { .. } => "network.apply"@,
            PrivilegedOperation::NetworkRestore { .. } => "network.restore"@,
            PrivilegedOperation::HostsRead => "hosts.read"@,
            PrivilegedOperation::HostsBackup => "hosts.backup"@,
            PrivilegedOperation::HostsRestore => "hosts.restore"@,
            PrivilegedOperation::HostsAtomicReplace { .. } => "hosts.atomic_replace"@,
            PrivilegedOperation::NicPrepareDpdk { .. } => "nic.prepare_dpdk"@,
            PrivilegedOperation::NicRestoreDriver { .. } => "nic.restore_driver"@,
            PrivilegedOperation::HugepagePrepare { .. } => "hugepage.prepare"@,
            PrivilegedOperation::HugepageRelease { .. } => "hugepage.release"@,
            PrivilegedOperation::SafeApplyConfirm { .. } => "safe_apply.confirm"@,
            PrivilegedOperation::SafeApplyRollback { .. } => "safe_apply.rollback"@,
            PrivilegedOperation::SafeApplyListPending => "safe_apply.list_pending"@,
        },
{
}

} // verus!
