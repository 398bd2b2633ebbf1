//! A network configuration as JSON, in the one form that its digest is taken of: without
//! blanks, the members in a fixed order.

use crate::domain::{IpPrefix, Ipv4Configuration, Ipv6Configuration, RouteConfiguration};
use crate::helper_protocol::{FamilyView, NetworkDesiredState, NetworkStateView};
use crate::net::{format_address, IpAddr};
use crate::text;
use crate::text::{chars_of, decimal_text, join, push_hex_pair};
use vstd::prelude::*;

verus! {

/// How a character is written inside a JSON text.
pub open spec fn escape_of(c: char) -> Seq<char> {
    if c == '"' {
        "\\\""@
    } else if c == '\\' {
        "\\\\"@
    } else if c == '\u{8}' {
        "\\b"@
    } else if c == '\t' {
        "\\t"@
    } else if c == '\n' {
        "\\n"@
    } else if c == '\u{c}' {
        "\\f"@
    } else if c == '\r' {
        "\\r"@
    } else if (c as u32) < 0x20 {
        "\\u00"@ + text::hex_pair(c as u8, false)
    } else {
        seq![c]
    }
}

/// The inside of a JSON text.
pub open spec fn escaped(s: Seq<char>) -> Seq<char>
    decreases s.len(),
{
    if s.len() == 0 {
        Seq::empty()
    } else {
        escaped(s.drop_last()) + escape_of(s.last())
    }
}

/// A JSON text.
pub open spec fn quoted(s: Seq<char>) -> Seq<char> {
    "\""@ + escaped(s) + "\""@
}

/// A JSON list.
pub open spec fn list_json(items: Seq<Seq<char>>) -> Seq<char> {
    "["@ + text::joined(items, ","@) + "]"@
}

/// An optional number.
pub open spec fn number_json(n: Option<u32>) -> Seq<char> {
    match n {
        Some(n) => text::decimal(n as nat),
        None => "null"@,
    }
}

/// An address with its prefix length.
pub open spec fn prefix_json(prefix: IpPrefix) -> Seq<char> {
    "{\"address\":"@ + quoted(prefix.address.text()) + ",\"prefix_length\":"@ + text::decimal(
        prefix.prefix_length as nat,
    ) + "}"@
}

/// How the addresses of a family are configured; what is not fixed has a name of its own in
/// each family.
pub open spec fn family_json(family: FamilyView, automatic: Seq<char>) -> Seq<char> {
    match family {
        FamilyView::Automatic => "{\"mode\":"@ + quoted(automatic) + "}"@,
        FamilyView::Static(addresses) => "{\"mode\":\"static\",\"addresses\":"@ + list_json(
            prefix_texts(addresses),
        ) + "}"@,
        FamilyView::Disabled => "{\"mode\":\"disabled\"}"@,
    }
}

/// Addresses with their prefix lengths.
pub open spec fn prefix_texts(prefixes: Seq<IpPrefix>) -> Seq<Seq<char>> {
    Seq::new(prefixes.len(), |i: int| prefix_json(prefixes[i]))
}

/// Addresses.
pub open spec fn address_texts(addresses: Seq<IpAddr>) -> Seq<Seq<char>> {
    Seq::new(addresses.len(), |i: int| quoted(addresses[i].text()))
}

/// Names.
pub open spec fn name_texts(names: Seq<Seq<char>>) -> Seq<Seq<char>> {
    Seq::new(names.len(), |i: int| quoted(names[i]))
}

/// Routes.
pub open spec fn route_texts(routes: Seq<RouteConfiguration>) -> Seq<Seq<char>> {
    Seq::new(routes.len(), |i: int| route_json(routes[i]))
}

/// A route.
pub open spec fn route_json(route: RouteConfiguration) -> Seq<char> {
    "{\"destination\":"@ + prefix_json(route.destination) + ",\"gateway\":"@ + (
    match route.gateway {
        Some(address) => quoted(address.text()),
        None => "null"@,
    }) + ",\"metric\":"@ + number_json(route.metric) + "}"@
}

/// A network configuration.
pub open spec fn state_json(state: NetworkStateView) -> Seq<char> {
    "{\"ipv4\":"@ + family_json(state.ipv4, "dhcp"@) + ",\"ipv6\":"@ + family_json(
        state.ipv6,
        "automatic"@,
    ) + ",\"dns\":{\"automatic\":"@ + (if state.automatic_dns {
        "true"@
    } else {
        "false"@
    }) + ",\"servers\":"@ + list_json(address_texts(state.servers)) + ",\"search_domains\":"@
        + list_json(name_texts(state.search_domains)) + "},\"routes\":"@ + list_json(
        route_texts(state.routes),
    ) + ",\"mtu\":"@ + number_json(state.mtu) + "}"@
}

fn push_escape(out: &mut String, c: char)
    ensures
        final(out)@ == old(out)@ + escape_of(c),
{
    if c == '"' {
        out.append("\\\"");
    } else if c == '\\' {
        out.append("\\\\");
    } else if c == '\u{8}' {
        out.append("\\b");
    } else if c == '\t' {
        out.append("\\t");
    } else if c == '\n' {
        out.append("\\n");
    } else if c == '\u{c}' {
        out.append("\\f");
    } else if c == '\r' {
        out.append("\\r");
    } else if (c as u32) < 0x20 {
        let ghost before = out@;
        out.append("\\u00");
        push_hex_pair(out, c as u8, false);
        proof {
            assert(out@ =~= before + escape_of(c));
        }
    } else {
        let ghost before = out@;
        out.push(c);
        proof {
            assert(out@ =~= before + escape_of(c));
        }
    }
}

/// Writes a text as JSON.
pub fn quote(s: &str) -> (r: String)
    ensures
        r@ == quoted(s@),
{
    let chars = chars_of(s);
    let mut out = "\"".to_owned();
    let mut i: usize = 0;
    proof {
        assert(out@ =~= "\""@ + escaped(s@.take(0)));
    }
    while i < chars.len()
        invariant
            i <= chars@.len(),
            chars@ == s@,
            out@ == "\""@ + escaped(s@.take(i as int)),
        decreases chars@.len() - i,
    {
        proof {
            assert(s@.take(i + 1).drop_last() =~= s@.take(i as int));
        }
        push_escape(&mut out, chars[i]);
        proof {
            assert(out@ =~= "\""@ + escaped(s@.take(i + 1)));
        }
        i += 1;
    }
    proof {
        assert(s@.take(i as int) =~= s@);
    }
    out.append("\"");
    out
}

fn write_list(items: &[String]) -> (r: String)
    ensures
        r@ == list_json(text::texts(items@)),
{
    let mut out = "[".to_owned();
    out.append(join(items, ",").as_str());
    out.append("]");
    out
}

fn write_number(n: Option<u32>) -> (r: String)
    ensures
        r@ == number_json(n),
{
    match n {
        Some(n) => decimal_text(n as u64),
        None => "null".to_owned(),
    }
}

fn write_prefix(prefix: &IpPrefix) -> (r: String)
    ensures
        r@ == prefix_json(*prefix),
{
    let mut out = "{\"address\":".to_owned();
    out.append(quote(format_address(&prefix.address).as_str()).as_str());
    out.append(",\"prefix_length\":");
    out.append(decimal_text(prefix.prefix_length as u64).as_str());
    out.append("}");
    out
}

fn write_static(addresses: &[IpPrefix]) -> (r: String)
    ensures
        r@ == family_json(FamilyView::Static(addresses@), Seq::empty()),
{
    let mut items: Vec<String> = Vec::new();
    let mut i: usize = 0;
    while i < addresses.len()
        invariant
            i <= addresses@.len(),
            items@.len() == i,
            forall|j: int| 0 <= j < i ==> (#[trigger] items@[j])@ == prefix_json(addresses@[j]),
        decreases addresses@.len() - i,
    {
        let item = write_prefix(&addresses[i]);
        items.push(item);
        i += 1;
    }
    proof {
        assert(text::texts(items@) =~= prefix_texts(addresses@));
    }
    let mut out = "{\"mode\":\"static\",\"addresses\":".to_owned();
    out.append(write_list(items.as_slice()).as_str());
    out.append("}");
    out
}

fn write_automatic(name: &str) -> (r: String)
    ensures
        r@ == family_json(FamilyView::Automatic, name@),
{
    let mut out = "{\"mode\":".to_owned();
    out.append(quote(name).as_str());
    out.append("}");
    out
}

fn write_routes(routes: &[RouteConfiguration]) -> (r: String)
    ensures
        r@ == list_json(route_texts(routes@)),
{
    let mut items: Vec<String> = Vec::new();
    let mut i: usize = 0;
    while i < routes.len()
        invariant
            i <= routes@.len(),
            items@.len() == i,
            forall|j: int| 0 <= j < i ==> (#[trigger] items@[j])@ == route_json(routes@[j]),
        decreases routes@.len() - i,
    {
        let route = &routes[i];
        let mut item = "{\"destination\":".to_owned();
        item.append(write_prefix(&route.destination).as_str());
        item.append(",\"gateway\":");
        match &route.gateway {
            Some(address) => item.append(quote(format_address(address).as_str()).as_str()),
            None => item.append("null"),
        }
        item.append(",\"metric\":");
        item.append(write_number(route.metric).as_str());
        item.append("}");
        proof {
            assert(item@ == route_json(routes@[i as int]));
        }
        items.push(item);
        i += 1;
    }
    proof {
        assert(text::texts(items@) =~= route_texts(routes@));
    }
    write_list(items.as_slice())
}

fn write_addresses(addresses: &[IpAddr]) -> (r: String)
    ensures
        r@ == list_json(address_texts(addresses@)),
{
    let mut items: Vec<String> = Vec::new();
    let mut i: usize = 0;
    while i < addresses.len()
        invariant
            i <= addresses@.len(),
            items@.len() == i,
            forall|j: int| 0 <= j < i ==> (#[trigger] items@[j])@ == quoted(addresses@[j].text()),
        decreases addresses@.len() - i,
    {
        items.push(quote(format_address(&addresses[i]).as_str()));
        i += 1;
    }
    proof {
        assert(text::texts(items@) =~= address_texts(addresses@));
    }
    write_list(items.as_slice())
}

fn write_names(names: &[String]) -> (r: String)
    ensures
        r@ == list_json(name_texts(text::texts(names@))),
{
    let mut items: Vec<String> = Vec::new();
    let mut i: usize = 0;
    while i < names.len()
        invariant
            i <= names@.len(),
            items@.len() == i,
            forall|j: int| 0 <= j < i ==> (#[trigger] items@[j])@ == quoted(names@[j]@),
        decreases names@.len() - i,
    {
        items.push(quote(names[i].as_str()));
        i += 1;
    }
    proof {
        assert(text::texts(items@) =~= name_texts(text::texts(names@)));
    }
    write_list(items.as_slice())
}

/// Writes a network configuration as JSON.
pub fn write_state(state: &NetworkDesiredState) -> (r: String)
    ensures
        r@ == state_json(state@),
{
    let mut out = "{\"ipv4\":".to_owned();
    let ipv4 = match &state.ipv4 {
        Ipv4Configuration::Dhcp => write_automatic("dhcp"),
        Ipv4Configuration::Static { addresses } => write_static(addresses.as_slice()),
        Ipv4Configuration::Disabled => "{\"mode\":\"disabled\"}".to_owned(),
    };
    out.append(ipv4.as_str());
    out.append(",\"ipv6\":");
    let ipv6 = match &state.ipv6 {
        Ipv6Configuration::Automatic => write_automatic("automatic"),
        Ipv6Configuration::Static { addresses } => write_static(addresses.as_slice()),
        Ipv6Configuration::Disabled => "{\"mode\":\"disabled\"}".to_owned(),
    };
    out.append(ipv6.as_str());
    out.append(",\"dns\":{\"automatic\":");
    out.append(
        if state.dns.automatic {
            "true"
        } else {
            "false"
        },
    );
    out.append(",\"servers\":");
    out.append(write_addresses(state.dns.servers.as_slice()).as_str());
    out.append(",\"search_domains\":");
    out.append(write_names(state.dns.search_domains.as_slice()).as_str());
    out.append("},\"routes\":");
    out.append(write_routes(state.routes.as_slice()).as_str());
    out.append(",\"mtu\":");
    out.append(write_number(state.mtu).as_str());
    out.append("}");
    out
}

} // verus!
