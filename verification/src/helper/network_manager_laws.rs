//! What the properties of a connection say: which configuration they stand for.

use crate::domain::{IpPrefix, Ipv4Configuration, Ipv6Configuration, RouteConfiguration};
use crate::helper::network_manager;
use crate::helper_protocol::{NetworkDesiredState, NetworkStateView};
use crate::net;
use crate::net::IpAddr;
use crate::text;
use crate::text_laws;
use vstd::prelude::*;

verus! {

/// Where the properties of the addresses begin: behind that of the transmission unit, which is
/// there only where one is asked for.
pub open spec fn start(state: NetworkDesiredState) -> int {
    if state.mtu is Some {
        1
    } else {
        0
    }
}

/// Which properties are set: all that speak of addresses, servers, domains and routes, and the
/// transmission unit where one is asked for. What is not asked for is set to nothing.
pub proof fn law_every_property_is_set(state: NetworkDesiredState)
    ensures
        ({
            let p = network_manager::connection_properties(state@);
            let k = start(state);
            &&& p.len() == k + 12
            &&& p[k].0 == "ipv4.addresses"@
            &&& p[k + 1].0 == "ipv4.dns"@
            &&& p[k + 2].0 == "ipv4.dns-search"@
            &&& p[k + 3].0 == "ipv4.ignore-auto-dns"@
            &&& p[k + 4].0 == "ipv4.method"@
            &&& p[k + 5].0 == "ipv4.routes"@
            &&& p[k + 6].0 == "ipv6.addresses"@
            &&& p[k + 7].0 == "ipv6.dns"@
            &&& p[k + 8].0 == "ipv6.dns-search"@
            &&& p[k + 9].0 == "ipv6.ignore-auto-dns"@
            &&& p[k + 10].0 == "ipv6.method"@
            &&& p[k + 11].0 == "ipv6.routes"@
            &&& state.mtu matches Some(mtu) ==> p[0] == (
                "802-3-ethernet.mtu"@,
                text::decimal(mtu as nat),
            )
        }),
{
}

proof fn lemma_methods_differ()
    ensures
        "auto"@ != "manual"@,
        "auto"@ != "disabled"@,
        "manual"@ != "disabled"@,
        "yes"@ != "no"@,
{
    reveal_strlit("auto");
    reveal_strlit("manual");
    reveal_strlit("disabled");
    reveal_strlit("yes");
    reveal_strlit("no");
    assert("auto"@.len() == 4);
    assert("manual"@.len() == 6);
    assert("disabled"@.len() == 8);
    assert("yes"@.len() == 3);
    assert("no"@.len() == 2);
}

/// The method of a family is automatic exactly where the family is configured by the network,
/// manual exactly where it has fixed addresses, and disabled exactly where it is off. The
/// servers that the network offers are ignored exactly where they are not to be used.
pub proof fn law_methods_follow_the_configuration(state: NetworkDesiredState)
    ensures
        ({
            let p = network_manager::connection_properties(state@);
            let k = start(state);
            &&& p[k + 4].1 == "auto"@ <==> state.ipv4 is Dhcp
            &&& p[k + 4].1 == "manual"@ <==> state.ipv4 is Static
            &&& p[k + 4].1 == "disabled"@ <==> state.ipv4 is Disabled
            &&& p[k + 10].1 == "auto"@ <==> state.ipv6 is Automatic
            &&& p[k + 10].1 == "manual"@ <==> state.ipv6 is Static
            &&& p[k + 10].1 == "disabled"@ <==> state.ipv6 is Disabled
            &&& p[k + 3].1 == "no"@ <==> state.dns.automatic
            &&& p[k + 3].1 == "yes"@ <==> !state.dns.automatic
            &&& p[k + 9].1 == p[k + 3].1
        }),
{
    lemma_methods_differ();
}

proof fn lemma_no_comma(s: Seq<char>)
    requires
        net::address_chars(s),
    ensures
        !s.contains(','),
        !s.contains(' '),
        !s.contains('/'),
{
    assert forall|i: int| 0 <= i < s.len() implies s[i] != ',' && s[i] != ' ' && s[i] != '/' by {
        assert(net::is_address_char(s[i]));
    }
}

proof fn lemma_decimal_plain(n: nat)
    ensures
        !text::decimal(n).contains(','),
        !text::decimal(n).contains(' '),
        !text::decimal(n).contains('/'),
{
    text::lemma_decimal_value(n);
    let s = text::decimal(n);
    assert forall|i: int| 0 <= i < s.len() implies s[i] != ',' && s[i] != ' ' && s[i] != '/' by {
        assert(text::is_digit(s[i]));
    }
}

proof fn lemma_contains_sum(a: Seq<char>, b: Seq<char>, c: char)
    requires
        !a.contains(c),
        !b.contains(c),
    ensures
        !(a + b).contains(c),
{
    let s = a + b;
    if s.contains(c) {
        let i = choose|i: int| 0 <= i < s.len() && s[i] == c;
        if i < a.len() {
            assert(a[i] == c);
        } else {
            assert(b[i - a.len()] == c);
        }
    }
}

proof fn lemma_prefix_plain(prefix: IpPrefix)
    ensures
        ({
            let s = prefix.address.text() + "/"@ + text::decimal(prefix.prefix_length as nat);
            &&& !s.contains(',')
            &&& !s.contains(' ')
        }),
{
    reveal_strlit("/");
    net::law_address_text_is_plain(prefix.address);
    lemma_no_comma(prefix.address.text());
    lemma_decimal_plain(prefix.prefix_length as nat);
    assert(!"/"@.contains(',') && !"/"@.contains(' '));
    lemma_contains_sum(prefix.address.text(), "/"@, ',');
    lemma_contains_sum(prefix.address.text(), "/"@, ' ');
    lemma_contains_sum(
        prefix.address.text() + "/"@,
        text::decimal(prefix.prefix_length as nat),
        ',',
    );
    lemma_contains_sum(
        prefix.address.text() + "/"@,
        text::decimal(prefix.prefix_length as nat),
        ' ',
    );
}

/// Whether a property lists addresses with their prefixes, in their order.
pub open spec fn lists_prefixes(value: Seq<char>, addresses: Seq<IpPrefix>) -> bool {
    if addresses.len() == 0 {
        value == ""@
    } else {
        &&& text::split(value, ',').len() == addresses.len()
        &&& forall|i: int|
            0 <= i < addresses.len() ==> #[trigger] text::split(value, ',')[i]
                == addresses[i].address.text() + "/"@ + text::decimal(
                addresses[i].prefix_length as nat,
            )
    }
}

proof fn lemma_lists_prefixes(addresses: Seq<IpPrefix>)
    ensures
        lists_prefixes(
            text::joined(network_manager::prefix_texts(addresses), ","@),
            addresses,
        ),
{
    reveal_strlit(",");
    reveal_strlit("");
    let pieces = network_manager::prefix_texts(addresses);
    if addresses.len() > 0 {
        assert(","@ =~= seq![',']);
        assert forall|i: int| 0 <= i < pieces.len() implies !(#[trigger] pieces[i]).contains(
            ',',
        ) by {
            lemma_prefix_plain(addresses[i]);
        }
        text_laws::law_joined_texts_are_cut_apart_again(pieces, ',');
    } else {
        assert(text::joined(pieces, ","@) =~= ""@);
    }
}

/// The addresses of a family are those that are fixed for it, each with its prefix, in their
/// order; there are none where the family is not configured by fixed addresses.
pub proof fn law_addresses_are_listed(state: NetworkDesiredState)
    ensures
        ({
            let p = network_manager::connection_properties(state@);
            let k = start(state);
            &&& match state.ipv4 {
                Ipv4Configuration::Static { addresses } => lists_prefixes(
                    p[k].1,
                    addresses@,
                ),
                _ => p[k].1 == ""@,
            }
            &&& match state.ipv6 {
                Ipv6Configuration::Static { addresses } => lists_prefixes(
                    p[k + 6].1,
                    addresses@,
                ),
                _ => p[k + 6].1 == ""@,
            }
        }),
{
    if let Ipv4Configuration::Static { addresses } = state.ipv4 {
        lemma_lists_prefixes(addresses@);
    }
    if let Ipv6Configuration::Static { addresses } = state.ipv6 {
        lemma_lists_prefixes(addresses@);
    }
}

/// Whether a property lists texts, in their order.
pub open spec fn lists(value: Seq<char>, items: Seq<Seq<char>>) -> bool {
    if items.len() == 0 {
        value == ""@
    } else {
        text::split(value, ',') == items
    }
}

proof fn lemma_lists(items: Seq<Seq<char>>)
    requires
        forall|i: int| 0 <= i < items.len() ==> !(#[trigger] items[i]).contains(','),
    ensures
        lists(text::joined(items, ","@), items),
{
    reveal_strlit(",");
    reveal_strlit("");
    if items.len() > 0 {
        assert(","@ =~= seq![',']);
        text_laws::law_joined_texts_are_cut_apart_again(items, ',');
    } else {
        assert(text::joined(items, ","@) =~= ""@);
    }
}

/// The servers of a family.
pub open spec fn servers_of(servers: Seq<IpAddr>, ipv4: bool) -> Seq<IpAddr> {
    servers.filter(|server: IpAddr| (server is V4) == ipv4)
}

proof fn lemma_family_servers(servers: Seq<IpAddr>, ipv4: bool)
    ensures
        network_manager::family_servers(servers, ipv4) == servers_of(servers, ipv4).map_values(
            |server: IpAddr| server.text(),
        ),
    decreases servers.len(),
{
    reveal(Seq::filter);
    let f = |server: IpAddr| server.text();
    if servers.len() > 0 {
        lemma_family_servers(servers.drop_last(), ipv4);
        let head = servers_of(servers.drop_last(), ipv4);
        if (servers.last() is V4) == ipv4 {
            assert(servers_of(servers, ipv4) =~= head.push(servers.last()));
            assert(head.push(servers.last()).map_values(f) =~= head.map_values(f).push(
                servers.last().text(),
            ));
        } else {
            assert(servers_of(servers, ipv4) =~= head);
        }
    } else {
        assert(servers_of(servers, ipv4).map_values(f) =~= Seq::<Seq<char>>::empty());
    }
}

/// The servers of a family are those of its addresses that were asked for, in their order. The
/// search domains stand with the first family, and with that one only.
pub proof fn law_servers_and_domains_are_listed(state: NetworkDesiredState)
    requires
        forall|i: int|
            0 <= i < state.dns.search_domains@.len() ==> !(
            #[trigger] state.dns.search_domains@[i])@.contains(','),
    ensures
        ({
            let p = network_manager::connection_properties(state@);
            let k = start(state);
            &&& lists(
                p[k + 1].1,
                servers_of(state.dns.servers@, true).map_values(|a: IpAddr| a.text()),
            )
            &&& lists(
                p[k + 7].1,
                servers_of(state.dns.servers@, false).map_values(|a: IpAddr| a.text()),
            )
            &&& lists(
                p[k + 2].1,
                state.dns.search_domains@.map_values(|domain: String| domain@),
            )
            &&& p[k + 8].1 == ""@
        }),
{
    let f = |a: IpAddr| a.text();
    assert forall|ipv4: bool| #[trigger]
        lists(
            text::joined(network_manager::family_servers(state.dns.servers@, ipv4), ","@),
            servers_of(state.dns.servers@, ipv4).map_values(f),
        ) by {
        let items = servers_of(state.dns.servers@, ipv4);
        lemma_family_servers(state.dns.servers@, ipv4);
        assert forall|i: int| 0 <= i < items.len() implies !(#[trigger] items.map_values(
            f,
        )[i]).contains(',') by {
            net::law_address_text_is_plain(items[i]);
            lemma_no_comma(items[i].text());
        }
        lemma_lists(items.map_values(f));
    }
    let domains = state.dns.search_domains@.map_values(|domain: String| domain@);
    assert(domains =~= text::texts(state.dns.search_domains@));
    assert forall|i: int| 0 <= i < domains.len() implies !(#[trigger] domains[i]).contains(',') by {
        assert(!state.dns.search_domains@[i]@.contains(','));
    }
    lemma_lists(domains);
}

/// The routes of a family.
pub open spec fn routes_of(routes: Seq<RouteConfiguration>, ipv4: bool) -> Seq<RouteConfiguration> {
    routes.filter(|route: RouteConfiguration| (route.destination.address is V4) == ipv4)
}

proof fn lemma_family_routes(routes: Seq<RouteConfiguration>, ipv4: bool)
    ensures
        network_manager::family_routes(routes, ipv4) == routes_of(routes, ipv4).map_values(
            |route: RouteConfiguration| network_manager::route_text(route, ipv4),
        ),
    decreases routes.len(),
{
    reveal(Seq::filter);
    let f = |route: RouteConfiguration| network_manager::route_text(route, ipv4);
    if routes.len() > 0 {
        lemma_family_routes(routes.drop_last(), ipv4);
        let head = routes_of(routes.drop_last(), ipv4);
        if (routes.last().destination.address is V4) == ipv4 {
            assert(routes_of(routes, ipv4) =~= head.push(routes.last()));
            assert(head.push(routes.last()).map_values(f) =~= head.map_values(f).push(
                network_manager::route_text(routes.last(), ipv4),
            ));
        } else {
            assert(routes_of(routes, ipv4) =~= head);
        }
    } else {
        assert(routes_of(routes, ipv4).map_values(f) =~= Seq::<Seq<char>>::empty());
    }
}

/// Whether an item of a property says where a route leads, over which next hop and at which
/// metric: words with a blank between them. Where only the metric is given the unspecified
/// address takes the place of the next hop.
pub open spec fn describes_route(item: Seq<char>, route: RouteConfiguration, ipv4: bool) -> bool {
    let parts = text::split(item, ' ');
    &&& parts[0] == route.destination.address.text() + "/"@ + text::decimal(
        route.destination.prefix_length as nat,
    )
    &&& match (route.gateway, route.metric) {
        (None, None) => parts.len() == 1,
        (Some(gateway), None) => parts.len() == 2 && parts[1] == gateway.text(),
        (Some(gateway), Some(metric)) => parts.len() == 3 && parts[1] == gateway.text() && parts[2]
            == text::decimal(metric as nat),
        (None, Some(metric)) => parts.len() == 3 && parts[1] == (if ipv4 {
            "0.0.0.0"@
        } else {
            "::"@
        }) && parts[2] == text::decimal(metric as nat),
    }
}

proof fn lemma_route(route: RouteConfiguration, ipv4: bool)
    ensures
        describes_route(network_manager::route_text(route, ipv4), route, ipv4),
        !network_manager::route_text(route, ipv4).contains(','),
{
    reveal_strlit(" ");
    reveal_strlit("");
    reveal_strlit("0.0.0.0");
    reveal_strlit("::");
    reveal_strlit(" 0.0.0.0");
    reveal_strlit(" ::");
    let item = network_manager::route_text(route, ipv4);
    let destination = route.destination.address.text() + "/"@ + text::decimal(
        route.destination.prefix_length as nat,
    );
    lemma_prefix_plain(route.destination);
    let hop = match route.gateway {
        Some(gateway) => gateway.text(),
        None => if ipv4 {
            "0.0.0.0"@
        } else {
            "::"@
        },
    };
    assert(!hop.contains(',') && !hop.contains(' ')) by {
        if let Some(gateway) = route.gateway {
            net::law_address_text_is_plain(gateway);
            lemma_no_comma(gateway.text());
        }
    }
    let number = match route.metric {
        Some(metric) => text::decimal(metric as nat),
        None => text::decimal(0),
    };
    assert(!number.contains(',') && !number.contains(' ')) by {
        if let Some(metric) = route.metric {
            lemma_decimal_plain(metric as nat);
        }
        lemma_decimal_plain(0);
    }
    let blank = seq![' '];
    assert(!blank.contains(','));
    text_laws::lemma_split_one(destination, ' ');
    if route.gateway is None && route.metric is None {
        assert(item =~= destination);
    } else {
        let two = destination + blank + hop;
        text_laws::lemma_split_behind(destination, hop, ' ');
        lemma_contains_sum(destination, blank, ',');
        lemma_contains_sum(destination + blank, hop, ',');
        if route.metric is None {
            assert(item =~= two);
        } else {
            text_laws::lemma_split_behind(two, number, ' ');
            lemma_contains_sum(two, blank, ',');
            lemma_contains_sum(two + blank, number, ',');
            assert(item =~= two + blank + number);
        }
    }
}

/// Whether a property lists routes, in their order.
pub open spec fn lists_routes(
    value: Seq<char>,
    routes: Seq<RouteConfiguration>,
    ipv4: bool,
) -> bool {
    if routes.len() == 0 {
        value == ""@
    } else {
        &&& text::split(value, ',').len() == routes.len()
        &&& forall|i: int|
            0 <= i < routes.len() ==> describes_route(
                #[trigger] text::split(value, ',')[i],
                routes[i],
                ipv4,
            )
    }
}

/// The routes of a family are those whose destinations belong to it, in their order.
pub proof fn law_routes_are_listed(state: NetworkDesiredState)
    ensures
        ({
            let p = network_manager::connection_properties(state@);
            let k = start(state);
            &&& lists_routes(p[k + 5].1, routes_of(state.routes@, true), true)
            &&& lists_routes(p[k + 11].1, routes_of(state.routes@, false), false)
        }),
{
    assert forall|ipv4: bool| #[trigger]
        lists_routes(
            text::joined(network_manager::family_routes(state.routes@, ipv4), ","@),
            routes_of(state.routes@, ipv4),
            ipv4,
        ) by {
        let f = |route: RouteConfiguration| network_manager::route_text(route, ipv4);
        let routes = routes_of(state.routes@, ipv4);
        let items = routes.map_values(f);
        lemma_family_routes(state.routes@, ipv4);
        assert forall|i: int| 0 <= i < items.len() implies !(#[trigger] items[i]).contains(
            ',',
        ) by {
            lemma_route(routes[i], ipv4);
        }
        lemma_lists(items);
        assert forall|i: int| 0 <= i < items.len() implies describes_route(
            #[trigger] items[i],
            routes[i],
            ipv4,
        ) by {
            lemma_route(routes[i], ipv4);
        }
    }
}

/// The command that changes a connection names it, and each property with its value behind it.
pub proof fn law_changes_name_every_property(
    uuid: Seq<char>,
    properties: Seq<(Seq<char>, Seq<char>)>,
    i: int,
)
    requires
        0 <= i < properties.len(),
    ensures
        ({
            let a = network_manager::modification_arguments(uuid, properties);
            &&& a.len() == 4 + 2 * properties.len()
            &&& a[0] == "connection"@ && a[1] == "modify"@ && a[2] == "uuid"@ && a[3] == uuid
            &&& a[4 + 2 * i] == properties[i].0
            &&& a[5 + 2 * i] == properties[i].1
        }),
{
    lemma_flat(properties);
    let head = seq!["connection"@, "modify"@, "uuid"@, uuid];
    let f = network_manager::flat(properties);
    assert((head + f)[4 + 2 * i] == f[2 * i]);
    assert((head + f)[5 + 2 * i] == f[2 * i + 1]);
}

proof fn lemma_flat(properties: Seq<(Seq<char>, Seq<char>)>)
    ensures
        network_manager::flat(properties).len() == 2 * properties.len(),
        forall|i: int|
            0 <= i < properties.len() ==> network_manager::flat(properties)[2 * i]
                == (#[trigger] properties[i]).0 && network_manager::flat(properties)[2 * i + 1]
                == properties[i].1,
    decreases properties.len(),
{
    if properties.len() > 0 {
        let before = properties.drop_last();
        lemma_flat(before);
        assert forall|i: int| 0 <= i < properties.len() implies network_manager::flat(
            properties,
        )[2 * i] == (#[trigger] properties[i]).0 && network_manager::flat(properties)[2 * i + 1]
            == properties[i].1 by {
            if i < before.len() {
                assert(before[i] == properties[i]);
            }
        }
    }
}

/// The commands that ask after a device or a property, and the one that puts a change into
/// force on an interface, name what they are about.
pub proof fn law_queries_name_what_they_ask(
    field: Seq<char>,
    interface_id: Seq<char>,
    uuid: Seq<char>,
)
    ensures
        network_manager::device_arguments(field, interface_id) == seq![
            "--get-values"@,
            field,
            "device"@,
            "show"@,
            interface_id,
        ],
        network_manager::property_arguments(uuid, field) == seq![
            "--get-values"@,
            field,
            "connection"@,
            "show"@,
            "uuid"@,
            uuid,
        ],
        network_manager::activation_arguments(uuid, interface_id) == seq![
            "--wait"@,
            "30"@,
            "connection"@,
            "up"@,
            "uuid"@,
            uuid,
            "ifname"@,
            interface_id,
        ],
{
}

} // verus!
