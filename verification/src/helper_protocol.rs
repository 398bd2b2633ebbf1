//! What the privileged helper can be asked for: a closed list of operations and the checks
//! that need no look at the system.

use crate::domain::{
    DnsConfiguration, IpPrefix, Ipv4Configuration, Ipv6Configuration, RouteConfiguration,
};
use crate::dpdk::environment;
use crate::dpdk::environment::valid_pci_address;
use crate::json;
use crate::json::{find_member, JsonValue};
use crate::net;
use crate::net::{parse_address, IpAddr};
use crate::text;
use crate::text::{
    byte_len, chars_of, contains_char, contains_control, has_only_alphanumeric_or, is_blank, same,
    split_on,
};
use vstd::prelude::*;
use vstd::utf8::encode_utf8;

verus! {

/// Whether a check found exactly this fault, or none.
pub open spec fn agrees(r: Result<(), &'static str>, fault: Option<Seq<char>>) -> bool {
    match r {
        Ok(_) => fault is None,
        Err(message) => fault == Some(message@),
    }
}

/// The network configuration that the helper can apply.
#[derive(Clone, Debug, PartialEq, Eq)]
pub struct NetworkDesiredState {
    /// The version 4 configuration.
    pub ipv4: Ipv4Configuration,
    /// The version 6 configuration.
    pub ipv6: Ipv6Configuration,
    /// The name resolution.
    pub dns: DnsConfiguration,
    /// The static routes.
    pub routes: Vec<RouteConfiguration>,
    /// The maximum transmission unit; none leaves it unchanged.
    pub mtu: Option<u32>,
}

/// How the addresses of a family are configured.
#[verifier::ext_equal]
pub enum FamilyView {
    /// By the network or the platform.
    Automatic,
    /// By fixed addresses.
    Static(Seq<IpPrefix>),
    /// Not at all.
    Disabled,
}

/// What a network configuration says.
#[verifier::ext_equal]
pub struct NetworkStateView {
    /// The version 4 addresses.
    pub ipv4: FamilyView,
    /// The version 6 addresses.
    pub ipv6: FamilyView,
    /// Whether the servers that DHCP offers are used.
    pub automatic_dns: bool,
    /// The name servers.
    pub servers: Seq<IpAddr>,
    /// The search domains.
    pub search_domains: Seq<Seq<char>>,
    /// The static routes.
    pub routes: Seq<RouteConfiguration>,
    /// The maximum transmission unit.
    pub mtu: Option<u32>,
}

/// What a version 4 configuration says.
pub open spec fn ipv4_view(configuration: Ipv4Configuration) -> FamilyView {
    match configuration {
        Ipv4Configuration::Dhcp => FamilyView::Automatic,
        Ipv4Configuration::Static { addresses } => FamilyView::Static(addresses@),
        Ipv4Configuration::Disabled => FamilyView::Disabled,
    }
}

/// What a version 6 configuration says.
pub open spec fn ipv6_view(configuration: Ipv6Configuration) -> FamilyView {
    match configuration {
        Ipv6Configuration::Automatic => FamilyView::Automatic,
        Ipv6Configuration::Static { addresses } => FamilyView::Static(addresses@),
        Ipv6Configuration::Disabled => FamilyView::Disabled,
    }
}

impl View for NetworkDesiredState {
    type V = NetworkStateView;

    open spec fn view(&self) -> NetworkStateView {
        NetworkStateView {
            ipv4: ipv4_view(self.ipv4),
            ipv6: ipv6_view(self.ipv6),
            automatic_dns: self.dns.automatic,
            servers: self.dns.servers@,
            search_domains: text::texts(self.dns.search_domains@),
            routes: self.routes@,
            mtu: self.mtu,
        }
    }
}

// ---------------------------------------------------------------- the configuration itself

/// Whether an address with its prefix belongs to a family and is one.
pub open spec fn prefix_valid(prefix: IpPrefix, ipv4: bool) -> bool {
    &&& (prefix.address is V4) == ipv4
    &&& prefix.prefix_length <= (if ipv4 {
        32int
    } else {
        128int
    })
    &&& !prefix.address.unspecified()
}

/// What is wrong with the address at a place, if something is.
pub open spec fn prefix_fault(prefixes: Seq<IpPrefix>, ipv4: bool, i: int) -> Option<Seq<char>> {
    if !prefix_valid(prefixes[i], ipv4) {
        Some("IP prefix address family or length is invalid"@)
    } else if exists|j: int| 0 <= j < i && #[trigger] prefixes[j] == prefixes[i] {
        Some("duplicate static address is not allowed"@)
    } else {
        None
    }
}

/// What is wrong with the first addresses, if something is.
pub open spec fn first_prefix_fault(prefixes: Seq<IpPrefix>, ipv4: bool, n: nat) -> Option<
    Seq<char>,
>
    decreases n,
{
    if n == 0 {
        None
    } else {
        match first_prefix_fault(prefixes, ipv4, (n - 1) as nat) {
            Some(fault) => Some(fault),
            None => prefix_fault(prefixes, ipv4, n - 1),
        }
    }
}

/// What is wrong with fixed addresses, if something is.
pub open spec fn prefixes_fault(prefixes: Seq<IpPrefix>, ipv4: bool) -> Option<Seq<char>> {
    if prefixes.len() == 0 || prefixes.len() > 16 {
        Some("static address count must be between one and sixteen"@)
    } else {
        first_prefix_fault(prefixes, ipv4, prefixes.len())
    }
}

/// Whether a route has no next hop or one of its own family.
pub open spec fn gateway_valid(route: RouteConfiguration) -> bool {
    match route.gateway {
        Some(gateway) => (gateway is V4) == (route.destination.address is V4)
            && !gateway.unspecified(),
        None => true,
    }
}

/// What is wrong with the route at a place, if something is.
pub open spec fn route_fault(routes: Seq<RouteConfiguration>, i: int) -> Option<Seq<char>> {
    if !prefix_valid(routes[i].destination, routes[i].destination.address is V4) {
        Some("IP prefix address family or length is invalid"@)
    } else if !gateway_valid(routes[i]) {
        Some("route gateway address family is invalid"@)
    } else if exists|j: int| 0 <= j < i && #[trigger] routes[j] == routes[i] {
        Some("duplicate route is not allowed"@)
    } else {
        None
    }
}

/// What is wrong with the first routes, if something is.
pub open spec fn first_route_fault(routes: Seq<RouteConfiguration>, n: nat) -> Option<Seq<char>>
    decreases n,
{
    if n == 0 {
        None
    } else {
        match first_route_fault(routes, (n - 1) as nat) {
            Some(fault) => Some(fault),
            None => route_fault(routes, n - 1),
        }
    }
}

/// Whether a part of a domain name is well formed.
pub open spec fn label_valid(label: Seq<char>) -> bool {
    &&& label.len() > 0
    &&& encode_utf8(label).len() <= 63
    &&& label[0] != '-'
    &&& label.last() != '-'
    &&& text::only_alphanumeric_or(label, "-"@)
}

/// Whether a domain name is well formed: parts between dots, none of them empty.
pub open spec fn domain_valid(domain: Seq<char>) -> bool {
    &&& encode_utf8(domain).len() <= 253
    &&& forall|i: int|
        0 <= i < text::split(domain, '.').len() ==> label_valid(
            #[trigger] text::split(domain, '.')[i],
        )
}

/// What is wrong with the name resolution, if something is.
pub open spec fn dns_fault(dns: DnsConfiguration) -> Option<Seq<char>> {
    if dns.servers@.len() > 16 || dns.search_domains@.len() > 32 {
        Some("DNS configuration exceeds limit"@)
    } else if exists|i: int|
        0 <= i < dns.servers@.len() && (#[trigger] dns.servers@[i]).unspecified() {
        Some("DNS server must not be unspecified"@)
    } else if exists|i: int|
        0 <= i < dns.search_domains@.len() && !domain_valid((#[trigger] dns.search_domains@[i])@) {
        Some("DNS search domain is invalid"@)
    } else {
        None
    }
}

/// What is wrong with the version 4 addresses, if something is.
pub open spec fn ipv4_fault(configuration: Ipv4Configuration) -> Option<Seq<char>> {
    match configuration {
        Ipv4Configuration::Static { addresses } => prefixes_fault(addresses@, true),
        _ => None,
    }
}

/// What is wrong with the version 6 addresses, if something is.
pub open spec fn ipv6_fault(configuration: Ipv6Configuration) -> Option<Seq<char>> {
    match configuration {
        Ipv6Configuration::Static { addresses } => prefixes_fault(addresses@, false),
        _ => None,
    }
}

/// What is wrong with a list of routes, if something is.
pub open spec fn routes_fault(routes: Seq<RouteConfiguration>) -> Option<Seq<char>> {
    if routes.len() > 256 {
        Some("route count exceeds limit"@)
    } else {
        first_route_fault(routes, routes.len())
    }
}

/// What is wrong with a transmission unit, if something is.
pub open spec fn mtu_fault(mtu: Option<u32>) -> Option<Seq<char>> {
    match mtu {
        Some(n) => if n < 576 || n > 65535 {
            Some("MTU must be between 576 and 65535"@)
        } else {
            None
        },
        None => None,
    }
}

/// The first of several faults.
pub open spec fn or_else(first: Option<Seq<char>>, second: Option<Seq<char>>) -> Option<
    Seq<char>,
> {
    match first {
        Some(fault) => Some(fault),
        None => second,
    }
}

/// What is wrong with a configuration, if something is.
pub open spec fn state_fault(state: NetworkDesiredState) -> Option<Seq<char>> {
    or_else(
        ipv4_fault(state.ipv4),
        or_else(
            ipv6_fault(state.ipv6),
            or_else(
                routes_fault(state.routes@),
                or_else(dns_fault(state.dns), mtu_fault(state.mtu)),
            ),
        ),
    )
}

impl NetworkDesiredState {
    /// Checks that a platform can apply the configuration whole.
    ///
    /// # Errors
    ///
    /// Fails with what is wrong with addresses, routes, name resolution or transmission unit.
    pub fn validate(&self) -> (r: Result<(), &'static str>)
        ensures
            agrees(r, state_fault(*self)),
    {
        if let Ipv4Configuration::Static { addresses } = &self.ipv4 {
            match validate_prefixes(addresses.as_slice(), true) {
                Ok(_) => {},
                Err(message) => {
                    return Err(message);
                },
            }
        }
        if let Ipv6Configuration::Static { addresses } = &self.ipv6 {
            match validate_prefixes(addresses.as_slice(), false) {
                Ok(_) => {},
                Err(message) => {
                    return Err(message);
                },
            }
        }
        match validate_routes(self.routes.as_slice()) {
            Ok(_) => {},
            Err(message) => {
                return Err(message);
            },
        }
        match validate_dns(&self.dns) {
            Ok(_) => {},
            Err(message) => {
                return Err(message);
            },
        }
        if let Some(mtu) = self.mtu {
            if mtu < 576 || mtu > 65535 {
                return Err("MTU must be between 576 and 65535");
            }
        }
        Ok(())
    }
}

fn validate_prefix(prefix: &IpPrefix, ipv4: bool) -> (r: bool)
    ensures
        r == prefix_valid(*prefix, ipv4),
{
    let maximum: u8 = if ipv4 {
        32
    } else {
        128
    };
    prefix.address.is_ipv4() == ipv4 && prefix.prefix_length <= maximum
        && !prefix.address.is_unspecified()
}

proof fn lemma_prefix_fault_stays(prefixes: Seq<IpPrefix>, ipv4: bool, n: nat, m: nat)
    requires
        n <= m,
        first_prefix_fault(prefixes, ipv4, n) is Some,
    ensures
        first_prefix_fault(prefixes, ipv4, m) == first_prefix_fault(prefixes, ipv4, n),
    decreases m,
{
    if n < m {
        lemma_prefix_fault_stays(prefixes, ipv4, n, (m - 1) as nat);
    }
}

fn validate_prefixes(prefixes: &[IpPrefix], ipv4: bool) -> (r: Result<(), &'static str>)
    ensures
        agrees(r, prefixes_fault(prefixes@, ipv4)),
{
    if prefixes.len() == 0 || prefixes.len() > 16 {
        return Err("static address count must be between one and sixteen");
    }
    let mut i: usize = 0;
    while i < prefixes.len()
        invariant
            0 < prefixes@.len() <= 16,
            i <= prefixes@.len(),
            first_prefix_fault(prefixes@, ipv4, i as nat) is None,
        decreases prefixes@.len() - i,
    {
        if !validate_prefix(&prefixes[i], ipv4) {
            proof {
                lemma_prefix_fault_stays(prefixes@, ipv4, (i + 1) as nat, prefixes@.len());
            }
            return Err("IP prefix address family or length is invalid");
        }
        let mut j: usize = 0;
        while j < i
            invariant
                0 < prefixes@.len() <= 16,
                j <= i < prefixes@.len(),
                first_prefix_fault(prefixes@, ipv4, i as nat) is None,
                prefix_valid(prefixes@[i as int], ipv4),
                forall|k: int| 0 <= k < j ==> #[trigger] prefixes@[k] != prefixes@[i as int],
            decreases i - j,
        {
            if prefixes[j] == prefixes[i] {
                proof {
                    assert(prefixes@[j as int] == prefixes@[i as int]);
                    lemma_prefix_fault_stays(prefixes@, ipv4, (i + 1) as nat, prefixes@.len());
                }
                return Err("duplicate static address is not allowed");
            }
            j += 1;
        }
        i += 1;
    }
    Ok(())
}

fn same_gateway(a: &Option<IpAddr>, b: &Option<IpAddr>) -> (r: bool)
    ensures
        r == (*a == *b),
{
    match (a, b) {
        (Some(x), Some(y)) => *x == *y,
        (None, None) => true,
        _ => false,
    }
}

fn same_metric(a: &Option<u32>, b: &Option<u32>) -> (r: bool)
    ensures
        r == (*a == *b),
{
    match (a, b) {
        (Some(x), Some(y)) => *x == *y,
        (None, None) => true,
        _ => false,
    }
}

fn same_route(a: &RouteConfiguration, b: &RouteConfiguration) -> (r: bool)
    ensures
        r == (*a == *b),
{
    a.destination == b.destination && same_gateway(&a.gateway, &b.gateway) && same_metric(
        &a.metric,
        &b.metric,
    )
}

fn validate_gateway(route: &RouteConfiguration) -> (r: bool)
    ensures
        r == gateway_valid(*route),
{
    match &route.gateway {
        Some(gateway) => gateway.is_ipv4() == route.destination.address.is_ipv4()
            && !gateway.is_unspecified(),
        None => true,
    }
}

proof fn lemma_route_fault_stays(routes: Seq<RouteConfiguration>, n: nat, m: nat)
    requires
        n <= m,
        first_route_fault(routes, n) is Some,
    ensures
        first_route_fault(routes, m) == first_route_fault(routes, n),
    decreases m,
{
    if n < m {
        lemma_route_fault_stays(routes, n, (m - 1) as nat);
    }
}

fn validate_routes(routes: &[RouteConfiguration]) -> (r: Result<(), &'static str>)
    ensures
        agrees(r, routes_fault(routes@)),
{
    if routes.len() > 256 {
        return Err("route count exceeds limit");
    }
    let mut i: usize = 0;
    while i < routes.len()
        invariant
            routes@.len() <= 256,
            i <= routes@.len(),
            first_route_fault(routes@, i as nat) is None,
        decreases routes@.len() - i,
    {
        let ipv4: bool = routes[i].destination.address.is_ipv4();
        if !validate_prefix(&routes[i].destination, ipv4) {
            proof {
                lemma_route_fault_stays(routes@, (i + 1) as nat, routes@.len());
            }
            return Err("IP prefix address family or length is invalid");
        }
        if !validate_gateway(&routes[i]) {
            proof {
                lemma_route_fault_stays(routes@, (i + 1) as nat, routes@.len());
            }
            return Err("route gateway address family is invalid");
        }
        let mut j: usize = 0;
        while j < i
            invariant
                routes@.len() <= 256,
                j <= i < routes@.len(),
                first_route_fault(routes@, i as nat) is None,
                prefix_valid(
                    routes@[i as int].destination,
                    routes@[i as int].destination.address is V4,
                ),
                gateway_valid(routes@[i as int]),
                forall|k: int| 0 <= k < j ==> #[trigger] routes@[k] != routes@[i as int],
            decreases i - j,
        {
            if same_route(&routes[j], &routes[i]) {
                proof {
                    assert(routes@[j as int] == routes@[i as int]);
                    lemma_route_fault_stays(routes@, (i + 1) as nat, routes@.len());
                }
                return Err("duplicate route is not allowed");
            }
            j += 1;
        }
        i += 1;
    }
    Ok(())
}

fn valid_label(label: &str) -> (r: bool)
    ensures
        r == label_valid(label@),
{
    let v = chars_of(label);
    if v.len() == 0 {
        return false;
    }
    byte_len(label) <= 63 && v[0] != '-' && v[v.len() - 1] != '-' && has_only_alphanumeric_or(
        label,
        "-",
    )
}

/// Decides whether a domain name is well formed.
pub fn valid_domain(domain: &str) -> (r: bool)
    ensures
        r == domain_valid(domain@),
{
    if byte_len(domain) > 253 {
        return false;
    }
    let labels = split_on(domain, '.');
    let ghost ls = text::split(domain@, '.');
    let mut i: usize = 0;
    while i < labels.len()
        invariant
            text::texts(labels@) == ls,
            ls == text::split(domain@, '.'),
            i <= labels@.len(),
            forall|j: int| 0 <= j < i ==> label_valid(#[trigger] ls[j]),
        decreases labels@.len() - i,
    {
        proof {
            assert(ls[i as int] == labels@[i as int]@);
        }
        if !valid_label(labels[i].as_str()) {
            return false;
        }
        i += 1;
    }
    true
}

fn validate_dns(dns: &DnsConfiguration) -> (r: Result<(), &'static str>)
    ensures
        agrees(r, dns_fault(*dns)),
{
    if dns.servers.len() > 16 || dns.search_domains.len() > 32 {
        return Err("DNS configuration exceeds limit");
    }
    let mut i: usize = 0;
    while i < dns.servers.len()
        invariant
            dns.servers@.len() <= 16,
            dns.search_domains@.len() <= 32,
            i <= dns.servers@.len(),
            forall|j: int| 0 <= j < i ==> !(#[trigger] dns.servers@[j]).unspecified(),
        decreases dns.servers@.len() - i,
    {
        if dns.servers[i].is_unspecified() {
            return Err("DNS server must not be unspecified");
        }
        i += 1;
    }
    let mut k: usize = 0;
    while k < dns.search_domains.len()
        invariant
            dns.servers@.len() <= 16,
            dns.search_domains@.len() <= 32,
            forall|j: int|
                0 <= j < dns.servers@.len() ==> !(#[trigger] dns.servers@[j]).unspecified(),
            k <= dns.search_domains@.len(),
            forall|j: int| 0 <= j < k ==> domain_valid((#[trigger] dns.search_domains@[j])@),
        decreases dns.search_domains@.len() - k,
    {
        if !valid_domain(dns.search_domains[k].as_str()) {
            return Err("DNS search domain is invalid");
        }
        k += 1;
    }
    Ok(())
}

/// A configuration that passes holds, for each family, at most sixteen different addresses of
/// that family, none of them unspecified.
pub proof fn law_valid_addresses_belong_to_their_family(
    state: NetworkDesiredState,
    prefixes: Seq<IpPrefix>,
    ipv4: bool,
)
    requires
        state_fault(state) is None,
        if ipv4 {
            state.ipv4 matches Ipv4Configuration::Static { addresses } && addresses@ == prefixes
        } else {
            state.ipv6 matches Ipv6Configuration::Static { addresses } && addresses@ == prefixes
        },
    ensures
        1 <= prefixes.len() <= 16,
        forall|i: int| 0 <= i < prefixes.len() ==> prefix_valid(#[trigger] prefixes[i], ipv4),
        forall|i: int, j: int|
            0 <= i < j < prefixes.len() ==> #[trigger] prefixes[i] != #[trigger] prefixes[j],
{
    lemma_prefixes_pass(prefixes, ipv4, prefixes.len());
}

proof fn lemma_prefixes_pass(prefixes: Seq<IpPrefix>, ipv4: bool, n: nat)
    requires
        n <= prefixes.len(),
        first_prefix_fault(prefixes, ipv4, n) is None,
    ensures
        forall|i: int| 0 <= i < n ==> prefix_valid(#[trigger] prefixes[i], ipv4),
        forall|i: int, j: int|
            0 <= i < j < n ==> #[trigger] prefixes[i] != #[trigger] prefixes[j],
    decreases n,
{
    if n > 0 {
        lemma_prefixes_pass(prefixes, ipv4, (n - 1) as nat);
    }
}

/// The routes of a configuration that passes are all different, and each next hop belongs to
/// the family of its destination.
pub proof fn law_valid_routes_are_distinct(state: NetworkDesiredState)
    requires
        state_fault(state) is None,
    ensures
        state.routes@.len() <= 256,
        forall|i: int| 0 <= i < state.routes@.len() ==> gateway_valid(#[trigger] state.routes@[i]),
        forall|i: int, j: int|
            0 <= i < j < state.routes@.len() ==> #[trigger] state.routes@[i]
                != #[trigger] state.routes@[j],
{
    lemma_routes_pass(state.routes@, state.routes@.len());
}

proof fn lemma_routes_pass(routes: Seq<RouteConfiguration>, n: nat)
    requires
        n <= routes.len(),
        first_route_fault(routes, n) is None,
    ensures
        forall|i: int| 0 <= i < n ==> gateway_valid(#[trigger] routes[i]),
        forall|i: int, j: int|
            0 <= i < j < n ==> #[trigger] routes[i] != #[trigger] routes[j],
    decreases n,
{
    if n > 0 {
        lemma_routes_pass(routes, (n - 1) as nat);
    }
}

fn same_prefixes(a: &Vec<IpPrefix>, b: &Vec<IpPrefix>) -> (r: bool)
    ensures
        r == (a@ == b@),
{
    if a.len() != b.len() {
        return false;
    }
    let mut i: usize = 0;
    while i < a.len()
        invariant
            i <= a@.len() == b@.len(),
            forall|j: int| 0 <= j < i ==> a@[j] == b@[j],
        decreases a@.len() - i,
    {
        if a[i] != b[i] {
            return false;
        }
        i += 1;
    }
    proof {
        assert(a@ =~= b@);
    }
    true
}

fn same_addresses(a: &Vec<IpAddr>, b: &Vec<IpAddr>) -> (r: bool)
    ensures
        r == (a@ == b@),
{
    if a.len() != b.len() {
        return false;
    }
    let mut i: usize = 0;
    while i < a.len()
        invariant
            i <= a@.len() == b@.len(),
            forall|j: int| 0 <= j < i ==> a@[j] == b@[j],
        decreases a@.len() - i,
    {
        if a[i] != b[i] {
            return false;
        }
        i += 1;
    }
    proof {
        assert(a@ =~= b@);
    }
    true
}

fn same_route_lists(a: &Vec<RouteConfiguration>, b: &Vec<RouteConfiguration>) -> (r: bool)
    ensures
        r == (a@ == b@),
{
    if a.len() != b.len() {
        return false;
    }
    let mut i: usize = 0;
    while i < a.len()
        invariant
            i <= a@.len() == b@.len(),
            forall|j: int| 0 <= j < i ==> a@[j] == b@[j],
        decreases a@.len() - i,
    {
        if !same_route(&a[i], &b[i]) {
            return false;
        }
        i += 1;
    }
    proof {
        assert(a@ =~= b@);
    }
    true
}

fn same_domains(a: &Vec<String>, b: &Vec<String>) -> (r: bool)
    ensures
        r == (text::texts(a@) == text::texts(b@)),
{
    if a.len() != b.len() {
        proof {
            assert(text::texts(a@).len() != text::texts(b@).len());
        }
        return false;
    }
    let mut i: usize = 0;
    while i < a.len()
        invariant
            i <= a@.len() == b@.len(),
            forall|j: int| 0 <= j < i ==> (#[trigger] a@[j])@ == b@[j]@,
        decreases a@.len() - i,
    {
        if !same(a[i].as_str(), b[i].as_str()) {
            proof {
                assert(text::texts(a@)[i as int] != text::texts(b@)[i as int]);
            }
            return false;
        }
        i += 1;
    }
    proof {
        assert(text::texts(a@) =~= text::texts(b@));
    }
    true
}

fn same_ipv4(a: &Ipv4Configuration, b: &Ipv4Configuration) -> (r: bool)
    ensures
        r == (ipv4_view(*a) == ipv4_view(*b)),
{
    match (a, b) {
        (Ipv4Configuration::Dhcp, Ipv4Configuration::Dhcp) => true,
        (Ipv4Configuration::Disabled, Ipv4Configuration::Disabled) => true,
        (
            Ipv4Configuration::Static { addresses: x },
            Ipv4Configuration::Static { addresses: y },
        ) => same_prefixes(x, y),
        _ => false,
    }
}

fn same_ipv6(a: &Ipv6Configuration, b: &Ipv6Configuration) -> (r: bool)
    ensures
        r == (ipv6_view(*a) == ipv6_view(*b)),
{
    match (a, b) {
        (Ipv6Configuration::Automatic, Ipv6Configuration::Automatic) => true,
        (Ipv6Configuration::Disabled, Ipv6Configuration::Disabled) => true,
        (
            Ipv6Configuration::Static { addresses: x },
            Ipv6Configuration::Static { addresses: y },
        ) => same_prefixes(x, y),
        _ => false,
    }
}

/// Decides whether two configurations say the same.
pub fn same_state(a: &NetworkDesiredState, b: &NetworkDesiredState) -> (r: bool)
    ensures
        r == (a@ == b@),
{
    same_ipv4(&a.ipv4, &b.ipv4) && same_ipv6(&a.ipv6, &b.ipv6) && a.dns.automatic
        == b.dns.automatic && same_addresses(&a.dns.servers, &b.dns.servers) && same_domains(
        &a.dns.search_domains,
        &b.dns.search_domains,
    ) && same_route_lists(&a.routes, &b.routes) && same_metric(&a.mtu, &b.mtu)
}

// ------------------------------------------------------------------- the shape of the JSON

/// What is wrong with the members of a JSON value, if something is: it has to be an object
/// with none but the given names.
pub open spec fn keys_fault(value: JsonValue, allowed: Seq<Seq<char>>) -> Option<Seq<char>> {
    match value {
        JsonValue::Object(members) => if exists|i: int|
            0 <= i < members@.len() && !allowed.contains((#[trigger] members@[i]).0@) {
            Some("configuration contains an unknown field"@)
        } else {
            None
        },
        _ => Some("configuration item must be an object"@),
    }
}

fn listed(name: &str, allowed: &[&str]) -> (r: bool)
    ensures
        r == text::names(allowed@).contains(name@),
{
    let mut i: usize = 0;
    while i < allowed.len()
        invariant
            i <= allowed@.len(),
            forall|j: int| 0 <= j < i ==> (#[trigger] allowed@[j])@ != name@,
        decreases allowed@.len() - i,
    {
        if same(allowed[i], name) {
            proof {
                assert(text::names(allowed@)[i as int] == name@);
            }
            return true;
        }
        i += 1;
    }
    proof {
        if text::names(allowed@).contains(name@) {
            let k = choose|k: int|
                0 <= k < text::names(allowed@).len() && text::names(allowed@)[k] == name@;
            assert(allowed@[k]@ == name@);
        }
    }
    false
}

fn validate_keys(value: &JsonValue, allowed: &[&str]) -> (r: Result<(), &'static str>)
    ensures
        agrees(r, keys_fault(*value, text::names(allowed@))),
{
    match value {
        JsonValue::Object(members) => {
            let mut i: usize = 0;
            while i < members.len()
                invariant
                    *value == JsonValue::Object(*members),
                    i <= members@.len(),
                    forall|j: int|
                        0 <= j < i ==> text::names(allowed@).contains((#[trigger] members@[j]).0@),
                decreases members@.len() - i,
            {
                if !listed(members[i].0.as_str(), allowed) {
                    proof {
                        let names = text::names(allowed@);
                        let ms = value->Object_0@;
                        assert(!names.contains(ms[i as int].0@));
                        assert(exists|k: int|
                            0 <= k < ms.len() && !names.contains((#[trigger] ms[k]).0@));
                    }
                    return Err("configuration contains an unknown field");
                }
                i += 1;
            }
            Ok(())
        },
        _ => Err("configuration item must be an object"),
    }
}

/// The members of an address.
pub open spec fn address_keys() -> Seq<Seq<char>> {
    seq!["address"@, "prefix_length"@]
}

/// What is wrong with the shape of the first items, if something is.
pub open spec fn first_keys_fault(
    items: Seq<JsonValue>,
    allowed: Seq<Seq<char>>,
    n: nat,
) -> Option<Seq<char>>
    decreases n,
{
    if n == 0 {
        None
    } else {
        or_else(
            first_keys_fault(items, allowed, (n - 1) as nat),
            keys_fault(items[n - 1], allowed),
        )
    }
}

/// The ways in which a family can be configured.
pub open spec fn mode_allowed(mode: Seq<char>, ipv4: bool) -> bool {
    ||| mode == "static"@
    ||| mode == "disabled"@
    ||| mode == (if ipv4 {
        "dhcp"@
    } else {
        "automatic"@
    })
}

/// What is wrong with the fixed addresses of a family, if something is.
pub open spec fn addresses_shape_fault(value: JsonValue) -> Option<Seq<char>> {
    match json::member(value, "addresses"@) {
        Some(JsonValue::List(items)) => first_keys_fault(items@, address_keys(), items@.len()),
        _ => Some("static addresses must be an array"@),
    }
}

/// What is wrong with the shape of a family's configuration, if something is.
pub open spec fn family_shape_fault(value: Option<JsonValue>, ipv4: bool) -> Option<Seq<char>> {
    match value {
        None => Some("IP configuration is required"@),
        Some(configuration) => if !(configuration is Object) {
            Some("IP configuration must be an object"@)
        } else {
            match json::member(configuration, "mode"@) {
                Some(JsonValue::Text(mode)) => if !mode_allowed(mode@, ipv4) {
                    Some("IP configuration mode is invalid"@)
                } else if mode@ == "static"@ {
                    or_else(
                        keys_fault(configuration, seq!["mode"@, "addresses"@]),
                        addresses_shape_fault(configuration),
                    )
                } else {
                    keys_fault(configuration, seq!["mode"@])
                },
                _ => Some("IP configuration mode is required"@),
            }
        },
    }
}

/// What is wrong with the shape of a route, if something is.
pub open spec fn route_shape_fault(route: JsonValue) -> Option<Seq<char>> {
    or_else(
        keys_fault(route, seq!["destination"@, "gateway"@, "metric"@]),
        match json::member(route, "destination"@) {
            None => Some("route destination is required"@),
            Some(destination) => keys_fault(destination, address_keys()),
        },
    )
}

/// What is wrong with the shape of the first routes, if something is.
pub open spec fn first_route_shape_fault(routes: Seq<JsonValue>, n: nat) -> Option<Seq<char>>
    decreases n,
{
    if n == 0 {
        None
    } else {
        or_else(
            first_route_shape_fault(routes, (n - 1) as nat),
            route_shape_fault(routes[n - 1]),
        )
    }
}

/// What is wrong with the shape of the routes, if something is.
pub open spec fn routes_shape_fault(value: JsonValue) -> Option<Seq<char>> {
    match json::member(value, "routes"@) {
        Some(JsonValue::List(routes)) => first_route_shape_fault(routes@, routes@.len()),
        _ => Some("routes must be an array"@),
    }
}

/// What is wrong with the shape of the name resolution, if something is.
pub open spec fn dns_shape_fault(value: JsonValue) -> Option<Seq<char>> {
    match json::member(value, "dns"@) {
        None => Some("DNS configuration is required"@),
        Some(dns) => keys_fault(dns, seq!["automatic"@, "servers"@, "search_domains"@]),
    }
}

/// What is wrong with the shape of a configuration in JSON, if something is.
pub open spec fn shape_fault(value: JsonValue) -> Option<Seq<char>> {
    or_else(
        keys_fault(value, seq!["ipv4"@, "ipv6"@, "dns"@, "routes"@, "mtu"@]),
        or_else(
            family_shape_fault(json::member(value, "ipv4"@), true),
            or_else(
                family_shape_fault(json::member(value, "ipv6"@), false),
                or_else(dns_shape_fault(value), routes_shape_fault(value)),
            ),
        ),
    )
}

proof fn lemma_keys_fault_stays(
    items: Seq<JsonValue>,
    allowed: Seq<Seq<char>>,
    n: nat,
    m: nat,
)
    requires
        n <= m,
        first_keys_fault(items, allowed, n) is Some,
    ensures
        first_keys_fault(items, allowed, m) == first_keys_fault(items, allowed, n),
    decreases m,
{
    if n < m {
        lemma_keys_fault_stays(items, allowed, n, (m - 1) as nat);
    }
}

fn validate_address_keys(value: &JsonValue) -> (r: Result<(), &'static str>)
    ensures
        agrees(r, keys_fault(*value, address_keys())),
{
    let allowed = ["address", "prefix_length"];
    proof {
        assert(text::names(allowed@) =~= address_keys());
    }
    validate_keys(value, &allowed)
}

fn validate_addresses(value: &JsonValue) -> (r: Result<(), &'static str>)
    ensures
        agrees(r, addresses_shape_fault(*value)),
{
    match find_member(value, "addresses") {
        Some(JsonValue::List(items)) => {
            let mut i: usize = 0;
            while i < items.len()
                invariant
                    i <= items@.len(),
                    first_keys_fault(items@, address_keys(), i as nat) is None,
                    json::member(*value, "addresses"@) == Some(JsonValue::List(*items)),
                decreases items@.len() - i,
            {
                match validate_address_keys(&items[i]) {
                    Ok(_) => {},
                    Err(message) => {
                        proof {
                            lemma_keys_fault_stays(
                                items@,
                                address_keys(),
                                (i + 1) as nat,
                                items@.len(),
                            );
                        }
                        return Err(message);
                    },
                }
                i += 1;
            }
            Ok(())
        },
        _ => Err("static addresses must be an array"),
    }
}

fn validate_ip_configuration(value: Option<&JsonValue>, ipv4: bool) -> (r: Result<
    (),
    &'static str,
>)
    ensures
        agrees(
            r,
            family_shape_fault(
                match value {
                    Some(v) => Some(*v),
                    None => None,
                },
                ipv4,
            ),
        ),
{
    let configuration: &JsonValue = match value {
        None => {
            return Err("IP configuration is required");
        },
        Some(v) => v,
    };
    if !configuration.is_object() {
        return Err("IP configuration must be an object");
    }
    match find_member(configuration, "mode") {
        Some(JsonValue::Text(mode)) => {
            let automatic = if ipv4 {
                "dhcp"
            } else {
                "automatic"
            };
            let fixed: bool = same(mode.as_str(), "static");
            if !fixed && !same(mode.as_str(), "disabled") && !same(mode.as_str(), automatic) {
                return Err("IP configuration mode is invalid");
            }
            if fixed {
                let allowed = ["mode", "addresses"];
                proof {
                    assert(text::names(allowed@) =~= seq!["mode"@, "addresses"@]);
                }
                match validate_keys(configuration, &allowed) {
                    Ok(_) => validate_addresses(configuration),
                    Err(message) => Err(message),
                }
            } else {
                let allowed = ["mode"];
                proof {
                    assert(text::names(allowed@) =~= seq!["mode"@]);
                }
                validate_keys(configuration, &allowed)
            }
        },
        _ => Err("IP configuration mode is required"),
    }
}

fn validate_route_shape(route: &JsonValue) -> (r: Result<(), &'static str>)
    ensures
        agrees(r, route_shape_fault(*route)),
{
    let allowed = ["destination", "gateway", "metric"];
    proof {
        assert(text::names(allowed@) =~= seq!["destination"@, "gateway"@, "metric"@]);
    }
    match validate_keys(route, &allowed) {
        Ok(_) => {},
        Err(message) => {
            return Err(message);
        },
    }
    match find_member(route, "destination") {
        None => Err("route destination is required"),
        Some(destination) => validate_address_keys(destination),
    }
}

proof fn lemma_route_shape_fault_stays(routes: Seq<JsonValue>, n: nat, m: nat)
    requires
        n <= m,
        first_route_shape_fault(routes, n) is Some,
    ensures
        first_route_shape_fault(routes, m) == first_route_shape_fault(routes, n),
    decreases m,
{
    if n < m {
        lemma_route_shape_fault_stays(routes, n, (m - 1) as nat);
    }
}

fn validate_routes_shape(value: &JsonValue) -> (r: Result<(), &'static str>)
    ensures
        agrees(r, routes_shape_fault(*value)),
{
    match find_member(value, "routes") {
        Some(JsonValue::List(routes)) => {
            let mut i: usize = 0;
            while i < routes.len()
                invariant
                    i <= routes@.len(),
                    first_route_shape_fault(routes@, i as nat) is None,
                    json::member(*value, "routes"@) == Some(JsonValue::List(*routes)),
                decreases routes@.len() - i,
            {
                match validate_route_shape(&routes[i]) {
                    Ok(_) => {},
                    Err(message) => {
                        proof {
                            lemma_route_shape_fault_stays(
                                routes@,
                                (i + 1) as nat,
                                routes@.len(),
                            );
                        }
                        return Err(message);
                    },
                }
                i += 1;
            }
            Ok(())
        },
        _ => Err("routes must be an array"),
    }
}

fn validate_dns_shape(value: &JsonValue) -> (r: Result<(), &'static str>)
    ensures
        agrees(r, dns_shape_fault(*value)),
{
    match find_member(value, "dns") {
        None => Err("DNS configuration is required"),
        Some(dns) => {
            let allowed = ["automatic", "servers", "search_domains"];
            proof {
                assert(text::names(allowed@) =~= seq![
                    "automatic"@,
                    "servers"@,
                    "search_domains"@,
                ]);
            }
            validate_keys(dns, &allowed)
        },
    }
}

/// Checks the shape of a configuration in JSON: nothing may be unknown, at any depth.
///
/// # Errors
///
/// Fails with what is unknown or missing.
pub fn validate_wire_shape(value: &JsonValue) -> (r: Result<(), &'static str>)
    ensures
        agrees(r, shape_fault(*value)),
{
    let allowed = ["ipv4", "ipv6", "dns", "routes", "mtu"];
    proof {
        assert(text::names(allowed@) =~= seq!["ipv4"@, "ipv6"@, "dns"@, "routes"@, "mtu"@]);
    }
    match validate_keys(value, &allowed) {
        Ok(_) => {},
        Err(message) => {
            return Err(message);
        },
    }
    match validate_ip_configuration(find_member(value, "ipv4"), true) {
        Ok(_) => {},
        Err(message) => {
            return Err(message);
        },
    }
    match validate_ip_configuration(find_member(value, "ipv6"), false) {
        Ok(_) => {},
        Err(message) => {
            return Err(message);
        },
    }
    match validate_dns_shape(value) {
        Ok(_) => {},
        Err(message) => {
            return Err(message);
        },
    }
    validate_routes_shape(value)
}

// -------------------------------------------------------------------------- the operations

/// Who calls, as the transport has made sure.
#[derive(Clone, Debug, PartialEq, Eq)]
pub struct CallerIdentity {
    /// The identifier of the user.
    pub principal: String,
    /// The process, for the records only.
    pub process_id: Option<u32>,
}

/// An entry of the managed section of the hosts file.
#[derive(Clone, Debug, PartialEq, Eq)]
pub struct ManagedHostsEntry {
    /// The address.
    pub address: String,
    /// The host name.
    pub hostname: String,
    /// A comment.
    pub comment: Option<String>,
    /// Whether the entry is in force; otherwise it is kept for later.
    pub enabled: bool,
}

/// What the helper can be asked for.
#[derive(Clone, Debug, PartialEq, Eq)]
pub enum PrivilegedOperation {
    /// Read the configuration of an interface.
    NetworkReadState {
        /// The interface.
        interface_id: String,
    },
    /// Apply a configuration, to be confirmed.
    NetworkApply {
        /// The interface.
        interface_id: String,
        /// The configuration.
        desired_state: NetworkDesiredState,
        /// After how many seconds without confirmation it is rolled back.
        confirm_timeout_seconds: u64,
    },
    /// Restore a configuration.
    NetworkRestore {
        /// The snapshot.
        snapshot_id: String,
    },
    /// Read the hosts file.
    HostsRead,
    /// Keep a copy of the hosts file.
    HostsBackup,
    /// Restore the last copy of the hosts file.
    HostsRestore,
    /// Replace the managed section of the hosts file.
    HostsAtomicReplace {
        /// The profile that names the section.
        profile_id: String,
        /// The entries.
        entries: Vec<ManagedHostsEntry>,
    },
    /// Hand an interface to DPDK.
    NicPrepareDpdk {
        /// Its PCI address.
        pci_address: String,
    },
    /// Give an interface back to its driver.
    NicRestoreDriver {
        /// Its PCI address.
        pci_address: String,
        /// The operation that handed it over.
        prepare_operation_id: String,
    },
    /// Set up huge pages.
    HugepagePrepare {
        /// The NUMA node; none leaves it to the policy.
        node: Option<u32>,
        /// The number of pages.
        pages: u64,
        /// The size of a page in kibibytes.
        page_size_kib: u64,
    },
    /// Release huge pages.
    HugepageRelease {
        /// The operation that set them up.
        operation_id: String,
    },
    /// Confirm an applied configuration.
    SafeApplyConfirm {
        /// The operation that applied it.
        operation_id: String,
    },
    /// Roll an applied configuration back.
    SafeApplyRollback {
        /// The operation that applied it.
        operation_id: String,
    },
    /// List what waits for confirmation.
    SafeApplyListPending,
}

/// Whether a text can identify something: not blank, at most 256 bytes, no control characters.
pub open spec fn identifier_valid(value: Seq<char>) -> bool {
    &&& !text::blank(value)
    &&& encode_utf8(value).len() <= 256
    &&& !text::has_control(value)
}

/// What is wrong with an identifier, if something is.
pub open spec fn identifier_fault(value: Seq<char>) -> Option<Seq<char>> {
    if identifier_valid(value) {
        None
    } else {
        Some("required identifier is empty"@)
    }
}

/// What is wrong with a PCI address, if something is.
pub open spec fn pci_fault(value: Seq<char>) -> Option<Seq<char>> {
    if environment::pci_form(value) {
        None
    } else {
        Some("PCI address must use dddd:bb:ss.f format"@)
    }
}

/// What is wrong with an entry of the hosts file, if something is.
pub open spec fn hosts_entry_fault(entry: ManagedHostsEntry) -> Option<Seq<char>> {
    if net::address_value(entry.address@) is None {
        Some("hosts entry address is invalid"@)
    } else if entry.hostname@.len() == 0 || encode_utf8(entry.hostname@).len() > 253
        || !text::only_alphanumeric_or(entry.hostname@, "-._"@) {
        Some("hosts entry hostname is invalid"@)
    } else if entry.comment matches Some(c) && (c@.contains('\r') || c@.contains('\n')) {
        Some("hosts entry comment contains a newline"@)
    } else {
        None
    }
}

/// What is wrong with the first entries, if something is.
pub open spec fn first_hosts_fault(entries: Seq<ManagedHostsEntry>, n: nat) -> Option<Seq<char>>
    decreases n,
{
    if n == 0 {
        None
    } else {
        or_else(
            first_hosts_fault(entries, (n - 1) as nat),
            hosts_entry_fault(entries[n - 1]),
        )
    }
}

/// What is wrong with a new managed section, if something is.
pub open spec fn hosts_fault(profile_id: Seq<char>, entries: Seq<ManagedHostsEntry>) -> Option<
    Seq<char>,
> {
    if profile_id.len() == 0 || !text::only_alphanumeric_or(profile_id, "-_"@) {
        Some("hosts profile ID contains unsupported characters"@)
    } else if entries.len() > 10000 {
        Some("managed hosts entry count exceeds limit"@)
    } else {
        first_hosts_fault(entries, entries.len())
    }
}

/// What is wrong with a number of huge pages, if something is.
pub open spec fn hugepage_fault(pages: u64, page_size_kib: u64) -> Option<Seq<char>> {
    if pages == 0 || page_size_kib == 0 {
        Some("huge page count and size must be non-zero"@)
    } else if pages * page_size_kib > 1073741824 {
        Some("requested huge page capacity exceeds one TiB safety limit"@)
    } else {
        None
    }
}

impl PrivilegedOperation {
    /// The name in records and policies.
    pub open spec fn name_text(self) -> Seq<char> {
        match self {
            PrivilegedOperation::NetworkReadState { .. } => "network.read_state"@,
            PrivilegedOperation::NetworkApply { .. } => "network.apply"@,
            PrivilegedOperation::NetworkRestore { .. } => "network.restore"@,
            PrivilegedOperation::HostsRead => "hosts.read"@,
            PrivilegedOperation::HostsBackup => "hosts.backup"@,
            PrivilegedOperation::HostsRestore => "hosts.restore"@,
            PrivilegedOperation::HostsAtomicReplace { .. } => "hosts.atomic_replace"@,
            PrivilegedOperation::NicPrepareDpdk { .. } => "nic.prepare_dpdk"@,
            PrivilegedOperation::NicRestoreDriver { .. } => "nic.restore_driver"@,
            PrivilegedOperation::HugepagePrepare { .. } => "hugepage.prepare"@,
            PrivilegedOperation::HugepageRelease { .. } => "hugepage.release"@,
            PrivilegedOperation::SafeApplyConfirm { .. } => "safe_apply.confirm"@,
            PrivilegedOperation::SafeApplyRollback { .. } => "safe_apply.rollback"@,
            PrivilegedOperation::SafeApplyListPending => "safe_apply.list_pending"@,
        }
    }

    /// Returns the name in records and policies.
    #[must_use]
    pub fn name(&self) -> (r: &'static str)
        ensures
            r@ == self.name_text(),
    {
        match self {
            PrivilegedOperation::NetworkReadState { .. } => "network.read_state",
            PrivilegedOperation::NetworkApply { .. } => "network.apply",
            PrivilegedOperation::NetworkRestore { .. } => "network.restore",
            PrivilegedOperation::HostsRead => "hosts.read",
            PrivilegedOperation::HostsBackup => "hosts.backup",
            PrivilegedOperation::HostsRestore => "hosts.restore",
            PrivilegedOperation::HostsAtomicReplace { .. } => "hosts.atomic_replace",
            PrivilegedOperation::NicPrepareDpdk { .. } => "nic.prepare_dpdk",
            PrivilegedOperation::NicRestoreDriver { .. } => "nic.restore_driver",
            PrivilegedOperation::HugepagePrepare { .. } => "hugepage.prepare",
            PrivilegedOperation::HugepageRelease { .. } => "hugepage.release",
            PrivilegedOperation::SafeApplyConfirm { .. } => "safe_apply.confirm",
            PrivilegedOperation::SafeApplyRollback { .. } => "safe_apply.rollback",
            PrivilegedOperation::SafeApplyListPending => "safe_apply.list_pending",
        }
    }

    /// What is wrong with the operation, if something is.
    pub open spec fn fault(self) -> Option<Seq<char>> {
        match self {
            PrivilegedOperation::NetworkReadState { interface_id } => identifier_fault(
                interface_id@,
            ),
            PrivilegedOperation::NetworkRestore { snapshot_id } => identifier_fault(snapshot_id@),
            PrivilegedOperation::NetworkApply {
                interface_id,
                desired_state,
                confirm_timeout_seconds,
            } => or_else(
                identifier_fault(interface_id@),
                if confirm_timeout_seconds < 10 || confirm_timeout_seconds > 600 {
                    Some("confirm timeout must be between 10 and 600 seconds"@)
                } else {
                    state_fault(desired_state)
                },
            ),
            PrivilegedOperation::HostsAtomicReplace { profile_id, entries } => hosts_fault(
                profile_id@,
                entries@,
            ),
            PrivilegedOperation::NicPrepareDpdk { pci_address } => pci_fault(pci_address@),
            PrivilegedOperation::NicRestoreDriver { pci_address, prepare_operation_id } => or_else(
                pci_fault(pci_address@),
                identifier_fault(prepare_operation_id@),
            ),
            PrivilegedOperation::HugepagePrepare { node, pages, page_size_kib } => hugepage_fault(
                pages,
                page_size_kib,
            ),
            PrivilegedOperation::HugepageRelease { operation_id } => identifier_fault(
                operation_id@,
            ),
            PrivilegedOperation::SafeApplyConfirm { operation_id } => identifier_fault(
                operation_id@,
            ),
            PrivilegedOperation::SafeApplyRollback { operation_id } => identifier_fault(
                operation_id@,
            ),
            _ => None,
        }
    }

    /// Checks what can be checked without a look at the system.
    ///
    /// # Errors
    ///
    /// Fails with what is wrong.
    pub fn validate(&self) -> (r: Result<(), &'static str>)
        ensures
            agrees(r, self.fault()),
    {
        match self {
            PrivilegedOperation::NetworkReadState { interface_id } => non_empty(
                interface_id.as_str(),
            ),
            PrivilegedOperation::NetworkRestore { snapshot_id } => non_empty(snapshot_id.as_str()),
            PrivilegedOperation::NetworkApply {
                interface_id,
                desired_state,
                confirm_timeout_seconds,
            } => {
                match non_empty(interface_id.as_str()) {
                    Ok(_) => {},
                    Err(message) => {
                        return Err(message);
                    },
                }
                if *confirm_timeout_seconds < 10 || *confirm_timeout_seconds > 600 {
                    return Err("confirm timeout must be between 10 and 600 seconds");
                }
                desired_state.validate()
            },
            PrivilegedOperation::HostsAtomicReplace { profile_id, entries } => validate_hosts(
                profile_id.as_str(),
                entries.as_slice(),
            ),
            PrivilegedOperation::NicPrepareDpdk { pci_address } => validate_pci_address(
                pci_address.as_str(),
            ),
            PrivilegedOperation::NicRestoreDriver { pci_address, prepare_operation_id } => {
                match validate_pci_address(pci_address.as_str()) {
                    Ok(_) => non_empty(prepare_operation_id.as_str()),
                    Err(message) => Err(message),
                }
            },
            PrivilegedOperation::HugepagePrepare { node: _, pages, page_size_kib } => {
                validate_hugepages(*pages, *page_size_kib)
            },
            PrivilegedOperation::HugepageRelease { operation_id } => non_empty(
                operation_id.as_str(),
            ),
            PrivilegedOperation::SafeApplyConfirm { operation_id } => non_empty(
                operation_id.as_str(),
            ),
            PrivilegedOperation::SafeApplyRollback { operation_id } => non_empty(
                operation_id.as_str(),
            ),
            _ => Ok(()),
        }
    }
}

fn non_empty(value: &str) -> (r: Result<(), &'static str>)
    ensures
        agrees(r, identifier_fault(value@)),
{
    if is_blank(value) || byte_len(value) > 256 || contains_control(value) {
        Err("required identifier is empty")
    } else {
        Ok(())
    }
}

fn validate_pci_address(value: &str) -> (r: Result<(), &'static str>)
    ensures
        agrees(r, pci_fault(value@)),
{
    if valid_pci_address(value) {
        Ok(())
    } else {
        Err("PCI address must use dddd:bb:ss.f format")
    }
}

fn validate_hugepages(pages: u64, page_size_kib: u64) -> (r: Result<(), &'static str>)
    ensures
        agrees(r, hugepage_fault(pages, page_size_kib)),
{
    if pages == 0 || page_size_kib == 0 {
        return Err("huge page count and size must be non-zero");
    }
    match pages.checked_mul(page_size_kib) {
        Some(total) => if total > 1073741824 {
            Err("requested huge page capacity exceeds one TiB safety limit")
        } else {
            Ok(())
        },
        None => Err("requested huge page capacity exceeds one TiB safety limit"),
    }
}

fn validate_hosts_entry(entry: &ManagedHostsEntry) -> (r: Result<(), &'static str>)
    ensures
        agrees(r, hosts_entry_fault(*entry)),
{
    if parse_address(entry.address.as_str()).is_none() {
        return Err("hosts entry address is invalid");
    }
    if entry.hostname.as_str().is_empty() || byte_len(entry.hostname.as_str()) > 253
        || !has_only_alphanumeric_or(entry.hostname.as_str(), "-._") {
        return Err("hosts entry hostname is invalid");
    }
    if let Some(comment) = &entry.comment {
        if contains_char(comment.as_str(), '\r') || contains_char(comment.as_str(), '\n') {
            return Err("hosts entry comment contains a newline");
        }
    }
    Ok(())
}

proof fn lemma_hosts_fault_stays(entries: Seq<ManagedHostsEntry>, n: nat, m: nat)
    requires
        n <= m,
        first_hosts_fault(entries, n) is Some,
    ensures
        first_hosts_fault(entries, m) == first_hosts_fault(entries, n),
    decreases m,
{
    if n < m {
        lemma_hosts_fault_stays(entries, n, (m - 1) as nat);
    }
}

fn validate_hosts(profile_id: &str, entries: &[ManagedHostsEntry]) -> (r: Result<
    (),
    &'static str,
>)
    ensures
        agrees(r, hosts_fault(profile_id@, entries@)),
{
    if profile_id.is_empty() || !has_only_alphanumeric_or(profile_id, "-_") {
        return Err("hosts profile ID contains unsupported characters");
    }
    if entries.len() > 10000 {
        return Err("managed hosts entry count exceeds limit");
    }
    let mut i: usize = 0;
    while i < entries.len()
        invariant
            profile_id@.len() > 0,
            text::only_alphanumeric_or(profile_id@, "-_"@),
            entries@.len() <= 10000,
            i <= entries@.len(),
            first_hosts_fault(entries@, i as nat) is None,
        decreases entries@.len() - i,
    {
        match validate_hosts_entry(&entries[i]) {
            Ok(_) => {},
            Err(message) => {
                proof {
                    lemma_hosts_fault_stays(entries@, (i + 1) as nat, entries@.len());
                }
                return Err(message);
            },
        }
        i += 1;
    }
    Ok(())
}

// ---------------------------------------------------------------- requests and responses

/// A request as it comes in: who calls is no part of it.
#[derive(Clone, Debug, PartialEq, Eq)]
pub struct PrivilegedWireRequest {
    /// The identifier of the request.
    pub request_id: String,
    /// The identifier of the operation, under which it can be repeated.
    pub operation_id: String,
    /// The operation.
    pub operation: PrivilegedOperation,
    /// Whether only a plan is wanted.
    pub dry_run: bool,
}

impl PrivilegedWireRequest {
    /// Adds who calls, as the transport has made sure.
    #[must_use]
    pub fn authenticate(self, caller_identity: CallerIdentity) -> (r: PrivilegedRequest)
        ensures
            r.request_id == self.request_id,
            r.operation_id == self.operation_id,
            r.caller_identity == caller_identity,
            r.operation == self.operation,
            r.dry_run == self.dry_run,
    {
        PrivilegedRequest {
            request_id: self.request_id,
            operation_id: self.operation_id,
            caller_identity,
            operation: self.operation,
            dry_run: self.dry_run,
        }
    }
}

/// A request with who calls.
#[derive(Clone, Debug, PartialEq, Eq)]
pub struct PrivilegedRequest {
    /// The identifier of the request.
    pub request_id: String,
    /// The identifier of the operation, under which it can be repeated.
    pub operation_id: String,
    /// Who calls.
    pub caller_identity: CallerIdentity,
    /// The operation.
    pub operation: PrivilegedOperation,
    /// Whether only a plan is wanted.
    pub dry_run: bool,
}

/// Why the helper refused or failed.
#[derive(Clone, Debug, PartialEq, Eq)]
pub struct PrivilegedError {
    /// A stable code.
    pub code: String,
    /// A message without secrets.
    pub message: String,
    /// Whether trying again may help.
    pub retryable: bool,
}

/// The answer to a request.
#[derive(Clone, Debug, PartialEq, Eq)]
pub struct PrivilegedResponse {
    /// The identifier of the request; empty where it could not be read.
    pub request_id: String,
    /// The result.
    pub result: Option<JsonValue>,
    /// The error.
    pub error: Option<PrivilegedError>,
}

} // verus!
