//! What the adapters make of what the platforms print.

use crate::domain::IpPrefix;
use crate::helper::macos;
use crate::helper::windows;
use crate::helper::windows::WindowsStateDocument;
use crate::helper_protocol::{FamilyView, NetworkStateView};
use crate::net;
use crate::net::IpAddr;
use crate::net_laws;
use crate::text;
use crate::text_laws;
use vstd::prelude::*;

verus! {

// -------------------------------------------------------------------------------------- macOS

/// A label is found on the first line that begins with it, and what stands behind it there is
/// its value.
pub proof fn law_labels(ls: Seq<Seq<char>>, label: Seq<char>)
    ensures
        match macos::labelled(ls, label) {
            Some(value) => exists|i: int|
                {
                    &&& 0 <= i < ls.len()
                    &&& #[trigger] text::has_prefix(ls[i], label)
                    &&& value == text::trimmed(ls[i].skip(label.len() as int))
                    &&& forall|j: int| 0 <= j < i ==> !text::has_prefix(#[trigger] ls[j], label)
                },
            None => forall|i: int| 0 <= i < ls.len() ==> !text::has_prefix(#[trigger] ls[i], label),
        },
    decreases ls.len(),
{
    if ls.len() > 0 {
        let rest = ls.drop_first();
        if text::has_prefix(ls[0], label) {
            assert(text::has_prefix(ls[0], label));
        } else {
            law_labels(rest, label);
            match macos::labelled(rest, label) {
                Some(value) => {
                    let i = choose|i: int|
                        {
                            &&& 0 <= i < rest.len()
                            &&& #[trigger] text::has_prefix(rest[i], label)
                            &&& value == text::trimmed(rest[i].skip(label.len() as int))
                            &&& forall|j: int|
                                0 <= j < i ==> !text::has_prefix(#[trigger] rest[j], label)
                        };
                    assert(ls[i + 1] == rest[i]);
                    assert(text::has_prefix(ls[i + 1], label));
                    assert forall|j: int| 0 <= j < i + 1 implies !text::has_prefix(
                        #[trigger] ls[j],
                        label,
                    ) by {
                        if j > 0 {
                            assert(rest[j - 1] == ls[j]);
                        }
                    }
                },
                None => {
                    assert forall|j: int| 0 <= j < ls.len() implies !text::has_prefix(
                        #[trigger] ls[j],
                        label,
                    ) by {
                        if j > 0 {
                            assert(rest[j - 1] == ls[j]);
                        }
                    }
                },
            }
        }
    }
}

/// What stands behind a label in the output of a command.
pub open spec fn value_of(output: Seq<char>, label: Seq<char>) -> Option<Seq<char>> {
    macos::labelled(text::lines(output), label)
}

/// Whether a label has no router behind it: no value, a blank one, `none`, or the address of
/// which all bits are zero.
pub open spec fn no_router(output: Seq<char>, label: Seq<char>) -> bool {
    match value_of(output, label) {
        None => true,
        Some(value) => value.len() == 0 || text::lowercase(value) == text::lowercase("none"@)
            || net::address_value(value) == Some(IpAddr::V4(0)) || net::address_value(value)
            == Some(IpAddr::V6(0)),
    }
}

/// The version 4 addresses that macOS prints: automatic exactly where the output speaks of
/// DHCP; else the one address behind its label, with the prefix whose mask stands behind the
/// label of the mask, and no router.
pub proof fn law_macos_version_4_output(info: Seq<char>)
    ensures
        text::occurs(info, "DHCP Configuration"@) ==> macos::ipv4_of(info) == Ok::<
            FamilyView,
            Seq<char>,
        >(FamilyView::Automatic),
        !text::occurs(info, "DHCP Configuration"@) ==> match macos::ipv4_of(info) {
            Err(_) => true,
            Ok(family) => {
                &&& family matches FamilyView::Static(addresses)
                &&& addresses.len() == 1
                &&& value_of(info, "IP address:"@) is Some
                &&& value_of(info, "Subnet mask:"@) is Some
                &&& addresses[0].address is V4
                &&& net::address_value(value_of(info, "IP address:"@)->0) == Some(
                    addresses[0].address,
                )
                &&& addresses[0].prefix_length <= 32
                &&& net::address_value(value_of(info, "Subnet mask:"@)->0) == Some(
                    IpAddr::V4(net::netmask(addresses[0].prefix_length as nat) as u32),
                )
                &&& no_router(info, "Router:"@)
            },
        },
{
    if !text::occurs(info, "DHCP Configuration"@) {
        if let Ok(family) = macos::ipv4_of(info) {
            match macos::required_address(info, "Subnet mask:"@) {
                Ok(IpAddr::V4(bits)) => {
                    let p = choose|p: nat| net::is_mask_of(bits as nat, p);
                    assert(net::is_mask_of(bits as nat, p));
                },
                _ => {},
            }
        }
    }
}

/// An interface whose address, mask and router macOS prints is read: the address that was
/// written, with the prefix of the mask that was written.
pub proof fn law_macos_version_4_is_read_back(info: Seq<char>, n: u32, prefix: u8)
    requires
        !text::occurs(info, "DHCP Configuration"@),
        prefix <= 32,
        n > 0,
        value_of(info, "IP address:"@) == Some(net::v4_text(n as nat)),
        value_of(info, "Subnet mask:"@) == Some(net::v4_text(net::netmask(prefix as nat))),
        value_of(info, "Router:"@) is None,
    ensures
        macos::ipv4_of(info) == Ok::<FamilyView, Seq<char>>(
            FamilyView::Static(seq![IpPrefix { address: IpAddr::V4(n), prefix_length: prefix }]),
        ),
{
    net_laws::law_masks(prefix as nat);
    let mask = net::netmask(prefix as nat);
    vstd::arithmetic::power2::lemma_pow2_pos((32 - prefix) as nat);
    net_laws::law_version_4_is_read_back(n);
    net_laws::law_version_4_is_read_back(mask as u32);
    lemma_not_none(net::v4_text(n as nat), n as nat);
    lemma_not_none(net::v4_text(mask), mask);
    assert(net::is_mask_of(mask, prefix as nat));
    let p = choose|p: nat| net::is_mask_of(mask, p);
    net::law_mask_determines_prefix(prefix as nat, p);
}

proof fn lemma_not_none(s: Seq<char>, n: nat)
    requires
        s == net::v4_text(n),
        n < 0x1_0000_0000,
    ensures
        s.len() > 0,
        text::lowercase(s) != text::lowercase("none"@),
{
    net::law_address_text_is_plain(IpAddr::V4(n as u32));
    reveal_strlit("none");
    reveal_strlit(".");
    assert(s.len() >= 3);
    if text::lowercase(s) == text::lowercase("none"@) {
        assert(text::lowercase("none"@)[0] == text::lower('n'));
        assert(text::lowercase(s)[0] == text::lower(s[0]));
        assert(net::is_address_char(s[0]));
        lemma_no_n(s[0]);
    }
}

proof fn lemma_no_n(c: char)
    requires
        net::is_address_char(c),
    ensures
        text::lower(c) != text::lower('n'),
{
}

/// The transmission unit that macOS prints is the number behind its label, up to the bracket.
pub proof fn law_macos_transmission_unit_is_read_back(before: Seq<char>, n: u32)
    requires
        forall|k: int|
            0 <= k < before.len() ==> !#[trigger] text::occurs_at(
                before + "Current Setting:"@ + seq![' '] + text::decimal(n as nat).push(')'),
                "Current Setting:"@,
                k,
            ),
    ensures
        macos::mtu_of(
            before + "Current Setting:"@ + seq![' '] + text::decimal(n as nat).push(')'),
        ) == Ok::<nat, Seq<char>>(n as nat),
{
    let label = "Current Setting:"@;
    let word = text::decimal(n as nat).push(')');
    let rest = seq![' '] + word;
    let s = before + label + seq![' '] + word;
    reveal_strlit("Current Setting:");
    text_laws::law_numbers_are_read_back(n as nat, u32::MAX as nat);
    assert(s =~= before + label + rest);
    assert(s.subrange(before.len() as int, (before.len() + label.len()) as int) =~= label);
    assert(text::occurs_at(s, label, before.len() as int));
    text_laws::law_first_occurrences(s, label, 0, before.len() as int);
    let at = text::find_from(s, label, 0)->0;
    assert(text::find_from(s, label, 0) is Some);
    if at < before.len() {
        assert(text::occurs_at(s, label, at));
    }
    assert(at == before.len());
    assert(s.skip(at + label.len()) =~= rest);
    text_laws::law_first_occurrences(rest, label, 0, 0);
    assert forall|i: int| 0 <= i < rest.len() implies #[trigger] rest[i] != 'C' by {
        if 0 < i < rest.len() - 1 {
            assert(rest[i] == text::decimal(n as nat)[i - 1]);
        }
    }
    if text::find_from(rest, label, 0) is Some {
        let k = text::find_from(rest, label, 0)->0;
        assert(rest.subrange(k, k + label.len())[0] == rest[k]);
    }
    assert forall|i: int| 0 <= i < word.len() implies !text::is_whitespace(#[trigger] word[i]) by {
        if i < word.len() - 1 {
            assert(word[i] == text::decimal(n as nat)[i]);
            lemma_digit_is_not_blank(word[i]);
        } else {
            lemma_digit_is_not_blank(')');
        }
    }
    let empty = Seq::<char>::empty();
    text_laws::law_blanks_are_white_space(' ');
    text_laws::law_words_are_apart(empty, ' ', word);
    assert(empty.push(' ') + word =~= rest);
    assert(text::words(empty) =~= Seq::<Seq<char>>::empty());
    assert(text::words(rest)[0] == word);
    assert(text::decimal(n as nat).len() > 0);
    reveal_with_fuel(text::without_trailing, 2);
    assert(word.drop_last() =~= text::decimal(n as nat));
    assert(text::decimal(n as nat).last() == text::decimal(n as nat)[text::decimal(n as nat).len()
        - 1]);
}

proof fn lemma_digit_is_not_blank(c: char)
    requires
        '0' as u32 <= c as u32 <= '9' as u32 || c == ')',
    ensures
        !text::is_whitespace(c),
{
    text_laws::law_blanks_are_white_space(c);
}

/// The version 6 addresses that macOS prints: switched off exactly where the output says so,
/// automatic where it says that; else the one address behind its label, with the length of its
/// prefix, and no router.
pub proof fn law_macos_version_6_output(info: Seq<char>)
    ensures
        text::occurs(info, "Off"@) || text::occurs(info, "Disabled"@) ==> macos::ipv6_of(info)
            == Ok::<FamilyView, Seq<char>>(FamilyView::Disabled),
        !text::occurs(info, "Off"@) && !text::occurs(info, "Disabled"@) && text::occurs(
            info,
            "Automatic"@,
        ) ==> macos::ipv6_of(info) == Ok::<FamilyView, Seq<char>>(FamilyView::Automatic),
        !text::occurs(info, "Off"@) && !text::occurs(info, "Disabled"@) && !text::occurs(
            info,
            "Automatic"@,
        ) ==> match macos::ipv6_of(info) {
            Err(_) => true,
            Ok(family) => {
                &&& family matches FamilyView::Static(addresses)
                &&& addresses.len() == 1
                &&& value_of(info, "IPv6 IP address:"@) is Some
                &&& value_of(info, "Prefix Length:"@) is Some
                &&& addresses[0].address is V6
                &&& net::address_value(value_of(info, "IPv6 IP address:"@)->0) == Some(
                    addresses[0].address,
                )
                &&& text::unsigned_value(value_of(info, "Prefix Length:"@)->0, 255) == Some(
                    addresses[0].prefix_length as nat,
                )
                &&& no_router(info, "IPv6 Router:"@)
            },
        },
{
}

/// The name servers that macOS prints: none where it says so or prints nothing; else one on
/// each line that is not blank, in their order.
pub proof fn law_macos_servers_output(output: Seq<char>)
    ensures
        text::occurs(output, "There aren't any DNS Servers"@) || text::blank(output)
            ==> macos::servers_of(output) == Ok::<Seq<IpAddr>, Seq<char>>(Seq::empty()),
        !text::occurs(output, "There aren't any DNS Servers"@) && !text::blank(output)
            ==> match macos::servers_of(output) {
            Ok(servers) => {
                let values = text::filled(text::lines(output));
                &&& servers.len() == values.len()
                &&& forall|i: int|
                    0 <= i < values.len() ==> net::address_value(#[trigger] values[i]) == Some(
                        servers[i],
                    )
            },
            Err(_) => exists|i: int|
                0 <= i < text::filled(text::lines(output)).len() && net::address_value(
                    #[trigger] text::filled(text::lines(output))[i],
                ) is None,
        },
{
    law_addresses_of_texts(text::filled(text::lines(output)));
}

/// Texts stand for addresses where each of them does, one for one.
pub proof fn law_addresses_of_texts(values: Seq<Seq<char>>)
    ensures
        match macos::addresses_of(values) {
            Some(addresses) => {
                &&& addresses.len() == values.len()
                &&& forall|i: int|
                    0 <= i < values.len() ==> net::address_value(#[trigger] values[i]) == Some(
                        addresses[i],
                    )
            },
            None => exists|i: int|
                0 <= i < values.len() && net::address_value(#[trigger] values[i]) is None,
        },
    decreases values.len(),
{
    if values.len() > 0 {
        let before = values.drop_last();
        law_addresses_of_texts(before);
        match macos::addresses_of(before) {
            Some(head) => {
                assert(net::address_value(values[values.len() - 1]) == net::address_value(
                    values.last(),
                ));
                assert forall|i: int| 0 <= i < before.len() implies net::address_value(
                    #[trigger] values[i],
                ) == Some(head[i]) by {
                    assert(before[i] == values[i]);
                }
            },
            None => {
                let i = choose|i: int|
                    0 <= i < before.len() && net::address_value(#[trigger] before[i]) is None;
                assert(net::address_value(values[i]) is None);
            },
        }
    }
}

/// The state that macOS prints is made of its four outputs. The servers are those of DHCP
/// exactly where none is printed; there are no routes and no search domains.
pub proof fn law_macos_state(
    info: Seq<char>,
    v6_info: Seq<char>,
    dns_info: Seq<char>,
    mtu_info: Seq<char>,
)
    ensures
        macos::macos_state(info, v6_info, dns_info, mtu_info) is Ok <==> macos::ipv4_of(
            info,
        ) is Ok && macos::ipv6_of(v6_info) is Ok && macos::servers_of(dns_info) is Ok
            && macos::mtu_of(mtu_info) is Ok,
        macos::macos_state(info, v6_info, dns_info, mtu_info) matches Ok(state) ==> {
            &&& macos::ipv4_of(info) == Ok::<FamilyView, Seq<char>>(state.ipv4)
            &&& macos::ipv6_of(v6_info) == Ok::<FamilyView, Seq<char>>(state.ipv6)
            &&& macos::servers_of(dns_info) == Ok::<Seq<IpAddr>, Seq<char>>(state.servers)
            &&& state.automatic_dns <==> state.servers.len() == 0
            &&& state.search_domains.len() == 0
            &&& state.routes.len() == 0
            &&& state.mtu is Some
            &&& macos::mtu_of(mtu_info) matches Ok(n) && state.mtu == Some(n as u32)
        },
{
}

// ------------------------------------------------------------------------------------ Windows

/// A document of Windows is understood only where it is of the one version, describes the one
/// interface that was asked for, has no routes and gateways, at most sixteen servers and a
/// transmission unit between 576 and 65535.
pub proof fn law_windows_documents(d: WindowsStateDocument, expected: Seq<char>)
    ensures
        windows::document_accepted(d, expected) <==> {
            &&& d.schema_version == 1
            &&& d.interface_count == 1
            &&& d.interface_id@ == expected
            &&& d.route_count == 0
            &&& d.default_gateways@.len() == 0
            &&& d.dns_servers@.len() <= 16
            &&& d.mtu >= 576 && d.mtu <= 65535
        },
        windows::windows_state(d, expected) is Ok ==> windows::document_accepted(d, expected),
{
}

/// What a document of Windows says: DHCP exactly where it says so, else the one address; the
/// word for version 6 and the one address where it is `static`; every server; the transmission
/// unit. The servers are those of DHCP exactly where none is listed.
pub proof fn law_windows_state(d: WindowsStateDocument, expected: Seq<char>, s: NetworkStateView)
    requires
        windows::windows_state(d, expected) == Ok::<NetworkStateView, Seq<char>>(s),
    ensures
        s.ipv4 is Automatic <==> d.ipv4.dhcp,
        !(s.ipv4 is Disabled),
        s.ipv4 matches FamilyView::Static(a) ==> {
            &&& a.len() == 1 && d.ipv4.addresses@.len() == 1
            &&& a[0].prefix_length == d.ipv4.addresses@[0].prefix_length
            &&& a[0].address matches IpAddr::V4(n) && d.ipv4.addresses@[0].address@
                == net::v4_text(n as nat)
        },
        s.ipv6 is Disabled <==> d.ipv6.state@ == "disabled"@,
        s.ipv6 is Automatic <==> d.ipv6.state@ == "automatic"@,
        s.ipv6 is Static <==> d.ipv6.state@ == "static"@,
        s.ipv6 is Disabled ==> d.ipv6.addresses@.len() == 0,
        s.ipv6 matches FamilyView::Static(a) ==> {
            &&& a.len() == 1 && d.ipv6.addresses@.len() == 1
            &&& a[0].prefix_length == d.ipv6.addresses@[0].prefix_length
            &&& a[0].address is V6
        },
        s.servers.len() == d.dns_servers@.len(),
        forall|i: int|
            0 <= i < s.servers.len() ==> net::address_value(d.dns_servers@[i]@) == Some(
                #[trigger] s.servers[i],
            ),
        s.automatic_dns <==> s.servers.len() == 0,
        s.search_domains.len() == 0,
        s.routes.len() == 0,
        s.mtu == Some(d.mtu),
{
    reveal_strlit("disabled");
    reveal_strlit("automatic");
    reveal_strlit("static");
    assert("disabled"@.len() == 8 && "automatic"@.len() == 9 && "static"@.len() == 6);
    let texts = text::texts(d.dns_servers@);
    law_addresses_of_texts(texts);
    assert forall|i: int| 0 <= i < s.servers.len() implies net::address_value(d.dns_servers@[i]@)
        == Some(#[trigger] s.servers[i]) by {
        assert(texts[i] == d.dns_servers@[i]@);
        assert(net::address_value(texts[i]) == Some(s.servers[i]));
    }
    if d.ipv4.addresses@.len() == 1 {
        net_laws::law_version_4_has_one_form(d.ipv4.addresses@[0].address@);
    }
}

/// A document of Windows that lists the addresses of a configuration is read as that
/// configuration.
pub proof fn law_windows_addresses_are_read_back(
    d: WindowsStateDocument,
    expected: Seq<char>,
    n: u32,
    m: u128,
)
    requires
        windows::document_accepted(d, expected),
        !d.ipv4.dhcp,
        d.ipv4.addresses@.len() == 1,
        d.ipv4.addresses@[0].address@ == net::v4_text(n as nat),
        d.ipv6.state@ == "static"@,
        d.ipv6.addresses@.len() == 1,
        d.ipv6.addresses@[0].address@ == net::v6_text(m),
        d.dns_servers@.len() == 0,
    ensures
        windows::windows_state(d, expected) matches Ok(s) && {
            &&& s.ipv4 == FamilyView::Static(
                seq![
                    IpPrefix {
                        address: IpAddr::V4(n),
                        prefix_length: d.ipv4.addresses@[0].prefix_length,
                    },
                ],
            )
            &&& s.ipv6 == FamilyView::Static(
                seq![
                    IpPrefix {
                        address: IpAddr::V6(m),
                        prefix_length: d.ipv6.addresses@[0].prefix_length,
                    },
                ],
            )
        },
{
    reveal_strlit("disabled");
    reveal_strlit("automatic");
    reveal_strlit("static");
    assert("disabled"@.len() == 8 && "automatic"@.len() == 9 && "static"@.len() == 6);
    net_laws::law_version_4_is_read_back(n);
    net_laws::law_version_6_is_read_back(m);
    net::law_address_text_is_plain(IpAddr::V6(m));
    let t = net::v6_text(m);
    assert(!t.contains('%')) by {
        if t.contains('%') {
            let i = choose|i: int| 0 <= i < t.len() && t[i] == '%';
            assert(net::is_address_char(t[i]));
        }
    }
    crate::text_laws::lemma_split_one(t, '%');
    assert(text::texts(d.dns_servers@) =~= Seq::<Seq<char>>::empty());
}

/// A zone behind the per cent sign of a version 6 address is left out.
pub proof fn law_windows_zones_are_left_out(address: Seq<char>, zone: Seq<char>)
    requires
        !address.contains('%'),
        !zone.contains('%'),
    ensures
        text::split(address + seq!['%'] + zone, '%')[0] == address,
        text::split(address, '%')[0] == address,
{
    crate::text_laws::lemma_split_one(address, '%');
    crate::text_laws::lemma_split_behind(address, zone, '%');
}

} // verus!
