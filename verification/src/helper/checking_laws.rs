//! When a configuration is found to be in force, and how one is written as JSON.

use crate::domain::{IpPrefix, Ipv4Configuration, Ipv6Configuration, RouteConfiguration};
use crate::error::NetToolError;
use crate::helper::network_manager;
use crate::helper::state_json;
use crate::helper_protocol;
use crate::helper_protocol::NetworkDesiredState;
use crate::json;
use crate::json::JsonValue;
use crate::net;
use crate::text;
use crate::text_laws;
use vstd::prelude::*;

verus! {

// ------------------------------------------------------------------------------- comparing

/// What is not blank among texts is kept, trimmed and in its order.
pub proof fn law_blank_texts_are_left_out(ls: Seq<Seq<char>>, s: Seq<char>)
    ensures
        text::filled(Seq::<Seq<char>>::empty()).len() == 0,
        text_laws::all_white(s) ==> text::filled(ls.push(s)) == text::filled(ls),
        !text_laws::all_white(s) ==> text::filled(ls.push(s)) == text::filled(ls).push(
            text::trimmed(s),
        ),
{
    text_laws::law_trimming_takes_white_space_away(s);
    assert(ls.push(s).drop_last() =~= ls);
}

proof fn lemma_filled(ls: Seq<Seq<char>>, c: char)
    requires
        forall|i: int| 0 <= i < ls.len() ==> !(#[trigger] ls[i]).contains(c),
    ensures
        forall|i: int|
            0 <= i < text::filled(ls).len() ==> (#[trigger] text::filled(ls)[i]).len() > 0
                && !text::filled(ls)[i].contains(c),
    decreases ls.len(),
{
    if ls.len() > 0 {
        let before = ls.drop_last();
        assert forall|i: int| 0 <= i < before.len() implies !(#[trigger] before[i]).contains(c) by {
            assert(before[i] == ls[i]);
        }
        lemma_filled(before, c);
        let s = ls[ls.len() - 1];
        assert(!s.contains(c));
        text_laws::law_trimming_takes_white_space_away(s);
        let (a, b) = choose|a: Seq<char>, b: Seq<char>|
            s == #[trigger] (a + text::trimmed(s) + b) && text_laws::all_white(a)
                && text_laws::all_white(b);
        let t = text::trimmed(s);
        if t.contains(c) {
            let k = choose|k: int| 0 <= k < t.len() && t[k] == c;
            assert(s[a.len() + k] == c);
            assert(s.contains(s[a.len() + k]));
        }
        assert(ls.last() == s);
        let head = text::filled(before);
        let all = text::filled(ls);
        assert(all == head || all == head.push(t));
        assert forall|i: int| 0 <= i < all.len() implies (#[trigger] all[i]).len() > 0
            && !all[i].contains(c) by {
            if i < head.len() {
                assert(all[i] == head[i]);
            }
        }
    }
}

/// The items of a list: what stands between its commas and is not blank, trimmed.
pub open spec fn items(value: Seq<char>) -> Seq<Seq<char>> {
    text::filled(text::split(value, ','))
}

/// Two lists are taken for the same exactly where they have the same items in the same order:
/// blanks around items, and items that are blank, do not matter; everything else does.
pub proof fn law_lists_that_are_the_same(a: Seq<char>, b: Seq<char>)
    ensures
        network_manager::normalized(a) == network_manager::normalized(b) <==> items(a) == items(b),
{
    reveal_strlit(",");
    assert(","@ =~= seq![',']);
    text_laws::law_pieces_are_put_together_again(a, ',');
    text_laws::law_pieces_are_put_together_again(b, ',');
    lemma_filled(text::split(a, ','), ',');
    lemma_filled(text::split(b, ','), ',');
    let x = items(a);
    let y = items(b);
    if network_manager::normalized(a) == network_manager::normalized(b) {
        lemma_joined_empty(x);
        lemma_joined_empty(y);
        if x.len() > 0 && y.len() > 0 {
            text_laws::law_joined_texts_are_cut_apart_again(x, ',');
            text_laws::law_joined_texts_are_cut_apart_again(y, ',');
        } else {
            assert(x.len() == 0 && y.len() == 0);
            assert(x =~= y);
        }
    }
}

proof fn lemma_joined_empty(x: Seq<Seq<char>>)
    requires
        forall|i: int| 0 <= i < x.len() ==> (#[trigger] x[i]).len() > 0,
    ensures
        text::joined(x, ","@).len() == 0 <==> x.len() == 0,
{
    if x.len() > 0 {
        assert(x[x.len() - 1].len() > 0);
        assert(x[0].len() > 0);
    }
}

/// A configuration is found to be in force only where every property was read and has the items
/// that were asked for; it is found not to be as soon as one has not.
pub proof fn law_comparisons(
    values: Seq<Result<String, NetToolError>>,
    expected: Seq<(Seq<char>, Seq<char>)>,
    r: Result<(), NetToolError>,
    i: int,
)
    requires
        network_manager::properties_compared(values, expected, r),
    ensures
        r is Ok && 0 <= i < expected.len() ==> values.len() == expected.len() && (
        values[i] matches Ok(value) && items(value@) == items(expected[i].1)),
        r matches Err(e) ==> {
            let n = values.len() - 1;
            &&& 0 <= n < expected.len()
            &&& 0 <= i < n ==> (values[i] matches Ok(value) && items(value@) == items(
                expected[i].1,
            ))
            &&& values[n] matches Ok(value) ==> items(value@) != items(expected[n].1)
                && e.details@.len() == 1 && e.details@[0].0@ == "property"@ && e.details@[0].1@
                == expected[n].0
            &&& values[n] matches Err(f) ==> e == f
        },
{
    if 0 <= i < values.len() {
        if let Ok(value) = values[i] {
            law_lists_that_are_the_same(value@, expected[i].1);
        }
    }
    let n = values.len() - 1;
    if 0 <= n {
        if let Ok(value) = values[n] {
            law_lists_that_are_the_same(value@, expected[n].1);
        }
    }
}

/// A connection is taken exactly where its identifier is there, is no placeholder and is one
/// word.
pub proof fn law_identifiers_of_connections(uuid: Seq<char>)
    ensures
        network_manager::uuid_accepted(uuid) <==> {
            &&& 0 < uuid.len()
            &&& uuid != "--"@
            &&& forall|i: int| 0 <= i < uuid.len() ==> !text::is_whitespace(#[trigger] uuid[i])
        },
{
}

/// Only Ethernet devices are configured.
pub proof fn law_devices(output: Seq<char>, r: Result<(), NetToolError>)
    requires
        network_manager::is_ethernet(output, r),
    ensures
        r is Ok <==> text::trimmed(output) == "ethernet"@,
{
}

/// A snapshot reads thirteen properties, no two of which are the same, and keeps each under its
/// own name.
pub proof fn law_properties_that_are_kept(i: int)
    requires
        0 <= i < 13,
    ensures
        network_manager::reading_order().len() == 13,
        network_manager::reading_places().len() == 13,
        network_manager::profile_properties().len() == 13,
        0 <= network_manager::reading_places()[i] < 13,
        network_manager::reading_order()[network_manager::reading_places()[i]]
            == network_manager::profile_properties()[i],
{
}

// ------------------------------------------------------------------------------------- JSON

/// A text in JSON stands between quotation marks; quotation marks, backslashes and control
/// characters in it stand behind a backslash, and all other characters for themselves.
pub proof fn law_texts_in_json(s: Seq<char>, c: char)
    ensures
        state_json::quoted(s) == "\""@ + state_json::escaped(s) + "\""@,
        state_json::escaped(Seq::empty()) == Seq::<char>::empty(),
        state_json::escaped(s.push(c)) == state_json::escaped(s) + state_json::escape_of(c),
        c as u32 >= 0x20 && c != '"' && c != '\\' ==> state_json::escape_of(c) == seq![c],
        state_json::escape_of('"') == "\\\""@,
        state_json::escape_of('\\') == "\\\\"@,
        state_json::escape_of('\n') == "\\n"@,
        state_json::escape_of('\r') == "\\r"@,
        state_json::escape_of('\t') == "\\t"@,
        (c as u32) < 0x20 ==> state_json::escape_of(c).len() >= 2 && state_json::escape_of(c)[0]
            == '\\',
{
    assert(s.push(c).drop_last() =~= s);
    reveal_strlit("\\b");
    reveal_strlit("\\t");
    reveal_strlit("\\n");
    reveal_strlit("\\f");
    reveal_strlit("\\r");
    reveal_strlit("\\u00");
}

/// An address with its prefix, and a route, in JSON.
pub proof fn law_addresses_and_routes_in_json(p: IpPrefix, r: RouteConfiguration)
    ensures
        state_json::prefix_json(p) == "{\"address\":"@ + state_json::quoted(p.address.text())
            + ",\"prefix_length\":"@ + text::decimal(p.prefix_length as nat) + "}"@,
        r.gateway is None ==> state_json::route_json(r) == "{\"destination\":"@
            + state_json::prefix_json(r.destination) + ",\"gateway\":"@ + "null"@
            + ",\"metric\":"@ + state_json::number_json(r.metric) + "}"@,
        r.gateway matches Some(g) ==> state_json::route_json(r) == "{\"destination\":"@
            + state_json::prefix_json(r.destination) + ",\"gateway\":"@ + state_json::quoted(
            g.text(),
        ) + ",\"metric\":"@ + state_json::number_json(r.metric) + "}"@,
        r.metric is None ==> state_json::number_json(r.metric) == "null"@,
        r.metric matches Some(n) ==> state_json::number_json(r.metric) == text::decimal(n as nat),
{
}

/// How the addresses of a family are configured, in JSON.
pub proof fn law_families_in_json(state: NetworkDesiredState)
    ensures
        ({
            let v4 = state_json::family_json(state@.ipv4, "dhcp"@);
            let v6 = state_json::family_json(state@.ipv6, "automatic"@);
            &&& match state.ipv4 {
                Ipv4Configuration::Dhcp => v4 == "{\"mode\":"@ + state_json::quoted("dhcp"@)
                    + "}"@,
                Ipv4Configuration::Disabled => v4 == "{\"mode\":\"disabled\"}"@,
                Ipv4Configuration::Static { addresses } => v4
                    == "{\"mode\":\"static\",\"addresses\":"@ + state_json::list_json(
                    state_json::prefix_texts(addresses@),
                ) + "}"@,
            }
            &&& match state.ipv6 {
                Ipv6Configuration::Automatic => v6 == "{\"mode\":"@ + state_json::quoted(
                    "automatic"@,
                ) + "}"@,
                Ipv6Configuration::Disabled => v6 == "{\"mode\":\"disabled\"}"@,
                Ipv6Configuration::Static { addresses } => v6
                    == "{\"mode\":\"static\",\"addresses\":"@ + state_json::list_json(
                    state_json::prefix_texts(addresses@),
                ) + "}"@,
            }
        }),
{
}

/// A configuration in JSON: both families, the servers and domains, the routes and the
/// transmission unit, in this order.
pub proof fn law_configurations_in_json(state: NetworkDesiredState)
    ensures
        state_json::state_json(state@) == "{\"ipv4\":"@ + state_json::family_json(
            state@.ipv4,
            "dhcp"@,
        ) + ",\"ipv6\":"@ + state_json::family_json(state@.ipv6, "automatic"@)
            + ",\"dns\":{\"automatic\":"@ + (if state.dns.automatic {
            "true"@
        } else {
            "false"@
        }) + ",\"servers\":"@ + state_json::list_json(
            state_json::address_texts(state.dns.servers@),
        ) + ",\"search_domains\":"@ + state_json::list_json(
            state_json::name_texts(text::texts(state.dns.search_domains@)),
        ) + "},\"routes\":"@ + state_json::list_json(state_json::route_texts(state.routes@))
            + ",\"mtu\":"@ + state_json::number_json(state.mtu) + "}"@,
{
}

/// Lists in JSON name every item, in its order.
pub proof fn law_lists_in_json(
    prefixes: Seq<IpPrefix>,
    servers: Seq<net::IpAddr>,
    names: Seq<Seq<char>>,
    routes: Seq<RouteConfiguration>,
    i: int,
)
    ensures
        state_json::list_json(names) == "["@ + text::joined(names, ","@) + "]"@,
        state_json::prefix_texts(prefixes).len() == prefixes.len(),
        state_json::address_texts(servers).len() == servers.len(),
        state_json::name_texts(names).len() == names.len(),
        state_json::route_texts(routes).len() == routes.len(),
        0 <= i < prefixes.len() ==> state_json::prefix_texts(prefixes)[i]
            == state_json::prefix_json(prefixes[i]),
        0 <= i < servers.len() ==> state_json::address_texts(servers)[i] == state_json::quoted(
            servers[i].text(),
        ),
        0 <= i < names.len() ==> state_json::name_texts(names)[i] == state_json::quoted(names[i]),
        0 <= i < routes.len() ==> state_json::route_texts(routes)[i] == state_json::route_json(
            routes[i],
        ),
{
}

// ------------------------------------------------------------------------ the shape of JSON

/// Whether a JSON value is an object of which every member has one of the given names.
pub open spec fn only_members(value: JsonValue, names: Seq<Seq<char>>) -> bool {
    value matches JsonValue::Object(members) && forall|i: int|
        0 <= i < members@.len() ==> names.contains((#[trigger] members@[i]).0@)
}

proof fn lemma_keys(value: JsonValue, names: Seq<Seq<char>>)
    ensures
        helper_protocol::keys_fault(value, names) is None <==> only_members(value, names),
{
}

/// Whether the configuration of a family in JSON has a mode that the family has, and no members
/// but the mode and, where it is static, the addresses.
pub open spec fn family_shaped(value: Option<JsonValue>, automatic: Seq<char>) -> bool {
    &&& value matches Some(configuration)
    &&& json::member(configuration, "mode"@) matches Some(JsonValue::Text(mode))
    &&& mode@ == "static"@ || mode@ == "disabled"@ || mode@ == automatic
    &&& mode@ != "static"@ ==> only_members(configuration, seq!["mode"@])
    &&& mode@ == "static"@ ==> {
        &&& only_members(configuration, seq!["mode"@, "addresses"@])
        &&& json::member(configuration, "addresses"@) matches Some(JsonValue::List(items))
            && forall|i: int|
            0 <= i < items@.len() ==> only_members(
                #[trigger] items@[i],
                seq!["address"@, "prefix_length"@],
            )
    }
}

proof fn lemma_items(items: Seq<JsonValue>, names: Seq<Seq<char>>, n: nat)
    requires
        n <= items.len(),
    ensures
        helper_protocol::first_keys_fault(items, names, n) is None <==> forall|i: int|
            0 <= i < n ==> only_members(#[trigger] items[i], names),
    decreases n,
{
    if n > 0 {
        lemma_items(items, names, (n - 1) as nat);
        lemma_keys(items[n - 1], names);
    }
}

/// The configuration of a family in JSON is taken exactly where it is shaped so; version 4 has
/// the mode `dhcp`, version 6 the mode `automatic`.
pub proof fn law_shapes_of_families(value: Option<JsonValue>)
    ensures
        helper_protocol::family_shape_fault(value, true) is None <==> family_shaped(value, "dhcp"@),
        helper_protocol::family_shape_fault(value, false) is None <==> family_shaped(
            value,
            "automatic"@,
        ),
{
    if let Some(configuration) = value {
        lemma_keys(configuration, seq!["mode"@]);
        lemma_keys(configuration, seq!["mode"@, "addresses"@]);
        if let Some(JsonValue::List(items)) = json::member(configuration, "addresses"@) {
            lemma_items(items@, seq!["address"@, "prefix_length"@], items@.len());
        }
    }
}

/// Whether a route in JSON has a destination and no members that routes do not have.
pub open spec fn route_shaped(route: JsonValue) -> bool {
    &&& only_members(route, seq!["destination"@, "gateway"@, "metric"@])
    &&& json::member(route, "destination"@) matches Some(destination) && only_members(
        destination,
        seq!["address"@, "prefix_length"@],
    )
}

proof fn lemma_routes(routes: Seq<JsonValue>, n: nat)
    requires
        n <= routes.len(),
    ensures
        helper_protocol::first_route_shape_fault(routes, n) is None <==> forall|i: int|
            0 <= i < n ==> route_shaped(#[trigger] routes[i]),
    decreases n,
{
    if n > 0 {
        lemma_routes(routes, (n - 1) as nat);
        let route = routes[n - 1];
        lemma_keys(route, seq!["destination"@, "gateway"@, "metric"@]);
        if let Some(destination) = json::member(route, "destination"@) {
            lemma_keys(destination, seq!["address"@, "prefix_length"@]);
        }
    }
}

/// A configuration in JSON is taken exactly where it has no members but its five, both families
/// are shaped as they have to be, the name resolution is an object with no members but its
/// three, and the routes are a list of routes.
pub proof fn law_shapes_of_configurations(value: JsonValue)
    ensures
        helper_protocol::shape_fault(value) is None <==> {
            &&& only_members(value, seq!["ipv4"@, "ipv6"@, "dns"@, "routes"@, "mtu"@])
            &&& family_shaped(json::member(value, "ipv4"@), "dhcp"@)
            &&& family_shaped(json::member(value, "ipv6"@), "automatic"@)
            &&& json::member(value, "dns"@) matches Some(dns) && only_members(
                dns,
                seq!["automatic"@, "servers"@, "search_domains"@],
            )
            &&& json::member(value, "routes"@) matches Some(JsonValue::List(routes)) && forall|
                i: int,
            |
                0 <= i < routes@.len() ==> route_shaped(#[trigger] routes@[i])
        },
{
    lemma_keys(value, seq!["ipv4"@, "ipv6"@, "dns"@, "routes"@, "mtu"@]);
    law_shapes_of_families(json::member(value, "ipv4"@));
    law_shapes_of_families(json::member(value, "ipv6"@));
    if let Some(dns) = json::member(value, "dns"@) {
        lemma_keys(dns, seq!["automatic"@, "servers"@, "search_domains"@]);
    }
    if let Some(JsonValue::List(routes)) = json::member(value, "routes"@) {
        lemma_routes(routes@, routes@.len());
    }
}

} // verus!
