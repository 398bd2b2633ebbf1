//! Agreeing on a protocol version and on capabilities.

use crate::error::{ErrorCode, NetToolError};
use vstd::prelude::*;

verus! {

/// The minor versions that are supported under a major version.
#[derive(Clone, Copy, Debug, PartialEq, Eq, Structural)]
pub struct ProtocolRange {
    /// The major version.
    pub major: u32,
    /// The lowest minor version.
    pub min_minor: u32,
    /// The highest minor version.
    pub max_minor: u32,
}

/// A capability and its supported versions.
#[derive(Clone, Copy, Debug, PartialEq, Eq, Structural)]
pub struct CapabilityRange {
    /// The registered identifier, which is never reused.
    pub id: u32,
    /// The lowest version.
    pub min_version: u32,
    /// The highest version.
    pub max_version: u32,
    /// Whether hardware and runtime can use it now.
    pub available: bool,
}

/// A capability version that both sides can use.
#[derive(Clone, Copy, Debug, PartialEq, Eq, Structural)]
pub struct NegotiatedCapability {
    /// The registered identifier.
    pub id: u32,
    /// The highest common version.
    pub version: u32,
}

/// The larger of two numbers.
pub open spec fn larger(a: u32, b: u32) -> u32 {
    if a >= b {
        a
    } else {
        b
    }
}

/// The smaller of two numbers.
pub open spec fn smaller(a: u32, b: u32) -> u32 {
    if a <= b {
        a
    } else {
        b
    }
}

fn max_of(a: u32, b: u32) -> (r: u32)
    ensures
        r == larger(a, b),
{
    if a >= b {
        a
    } else {
        b
    }
}

fn min_of(a: u32, b: u32) -> (r: u32)
    ensures
        r == smaller(a, b),
{
    if a <= b {
        a
    } else {
        b
    }
}

/// Why two version ranges have no common version, if they have none.
pub open spec fn version_conflict(local: ProtocolRange, remote: ProtocolRange) -> Option<
    Seq<char>,
> {
    if local.major != remote.major {
        Some("node protocol major is incompatible"@)
    } else if local.min_minor > local.max_minor || remote.min_minor > remote.max_minor {
        Some("node protocol minor range is invalid"@)
    } else if larger(local.min_minor, remote.min_minor) > smaller(
        local.max_minor,
        remote.max_minor,
    ) {
        Some("nodes have no common protocol minor"@)
    } else {
        None
    }
}

/// The version that two ranges agree on, if they do.
pub open spec fn agreed(local: ProtocolRange, remote: ProtocolRange) -> Option<(u32, u32)> {
    if version_conflict(local, remote) is None {
        Some((local.major, smaller(local.max_minor, remote.max_minor)))
    } else {
        None
    }
}

/// Selects the highest minor version that both sides support.
///
/// # Errors
///
/// Fails when the major versions differ, a range is invalid or no minor version is common.
pub fn negotiate_version(local: ProtocolRange, remote: ProtocolRange) -> (r: Result<
    (u32, u32),
    NetToolError,
>)
    ensures
        match r {
            Ok(version) => version_conflict(local, remote) is None && version == (
                local.major,
                smaller(local.max_minor, remote.max_minor),
            ) && agreed(local, remote) == Some(version),
            Err(e) => version_conflict(local, remote) is Some && e.is(
                ErrorCode::ProtocolIncompatible,
                version_conflict(local, remote)->0,
                false,
            ),
        },
{
    if local.major != remote.major {
        return Err(incompatible("node protocol major is incompatible"));
    }
    if local.min_minor > local.max_minor || remote.min_minor > remote.max_minor {
        return Err(incompatible("node protocol minor range is invalid"));
    }
    let minimum: u32 = max_of(local.min_minor, remote.min_minor);
    let maximum: u32 = min_of(local.max_minor, remote.max_minor);
    if minimum > maximum {
        return Err(incompatible("nodes have no common protocol minor"));
    }
    Ok((local.major, maximum))
}

fn incompatible(message: &str) -> (r: NetToolError)
    ensures
        r.is(ErrorCode::ProtocolIncompatible, message@, false),
{
    NetToolError::new(ErrorCode::ProtocolIncompatible, message, false)
}

/// What two ranges come to: they agree exactly where they have one major version and some minor
/// version lies in both of them, and then on the highest such one.
pub proof fn law_highest_common_minor(
    local: ProtocolRange,
    remote: ProtocolRange,
    minor: u32,
    r: Result<(u32, u32), NetToolError>,
)
    requires
        match r {
            Ok(version) => agreed(local, remote) == Some(version),
            Err(_) => agreed(local, remote) is None,
        },
    ensures
        r matches Ok(version) ==> {
            &&& version.0 == local.major && version.0 == remote.major
            &&& local.min_minor <= version.1 <= local.max_minor
            &&& remote.min_minor <= version.1 <= remote.max_minor
        },
        local.major == remote.major && local.min_minor <= minor <= local.max_minor
            && remote.min_minor <= minor <= remote.max_minor ==> (r matches Ok(version) && minor
            <= version.1),
{
}

/// A failure to agree says what stands in the way: other major versions before anything else,
/// then a range that holds nothing, then that the ranges do not meet.
pub proof fn law_conflicts_name_their_reason(local: ProtocolRange, remote: ProtocolRange)
    ensures
        agreed(local, remote) is None <==> version_conflict(local, remote) is Some,
        local.major != remote.major ==> version_conflict(local, remote) == Some(
            "node protocol major is incompatible"@,
        ),
        local.major == remote.major && (local.max_minor < local.min_minor || remote.max_minor
            < remote.min_minor) ==> version_conflict(local, remote) == Some(
            "node protocol minor range is invalid"@,
        ),
        local.major == remote.major && local.min_minor <= local.max_minor && remote.min_minor
            <= remote.max_minor && (local.max_minor < remote.min_minor || remote.max_minor
            < local.min_minor) ==> version_conflict(local, remote) == Some(
            "nodes have no common protocol minor"@,
        ),
{
}

/// Both sides come to the same version.
pub proof fn law_version_is_symmetric(local: ProtocolRange, remote: ProtocolRange)
    ensures
        version_conflict(local, remote) == version_conflict(remote, local),
        agreed(local, remote) == agreed(remote, local),
{
}

/// Whether a capability can be used at all.
pub open spec fn usable(c: CapabilityRange) -> bool {
    c.available && c.min_version <= c.max_version
}

/// The last usable capability with a given identifier.
pub open spec fn last_usable(list: Seq<CapabilityRange>, id: u32) -> Option<CapabilityRange>
    decreases list.len(),
{
    if list.len() == 0 {
        None
    } else if list.last().id == id && usable(list.last()) {
        Some(list.last())
    } else {
        last_usable(list.drop_last(), id)
    }
}

/// The version that a local capability has in common with the remote side.
pub open spec fn common_version(local: CapabilityRange, remote: Seq<CapabilityRange>) -> Option<
    u32,
> {
    match last_usable(remote, local.id) {
        Some(other) if usable(local) && larger(local.min_version, other.min_version) <= smaller(
            local.max_version,
            other.max_version,
        ) => Some(smaller(local.max_version, other.max_version)),
        _ => None,
    }
}

/// The version of the first local capability with a given identifier that has one in common
/// with the remote side.
pub open spec fn negotiated_version(
    local: Seq<CapabilityRange>,
    remote: Seq<CapabilityRange>,
    id: u32,
) -> Option<u32>
    decreases local.len(),
{
    if local.len() == 0 {
        None
    } else {
        match negotiated_version(local.drop_last(), remote, id) {
            Some(version) => Some(version),
            None => if local.last().id == id {
                common_version(local.last(), remote)
            } else {
                None
            },
        }
    }
}

/// Whether identifiers rise strictly.
pub open spec fn strictly_sorted(list: Seq<NegotiatedCapability>) -> bool {
    forall|i: int, j: int| 0 <= i < j < list.len() ==> list[i].id < list[j].id
}

fn find_usable(list: &[CapabilityRange], id: u32) -> (r: Option<CapabilityRange>)
    ensures
        r == last_usable(list@, id),
{
    let mut i: usize = list.len();
    proof {
        assert(list@.take(i as int) == list@);
    }
    while i > 0
        invariant
            i <= list@.len(),
            last_usable(list@, id) == last_usable(list@.take(i as int), id),
        decreases i,
    {
        proof {
            assert(list@.take(i as int).drop_last() == list@.take(i - 1));
            assert(list@.take(i as int).last() == list@[i - 1]);
        }
        let c = list[i - 1];
        if c.id == id && c.available && c.min_version <= c.max_version {
            return Some(c);
        }
        i -= 1;
    }
    None
}

/// Selects, for each capability that both sides can use, the highest common version. The
/// result is sorted by identifier and names each identifier once.
#[must_use]
pub fn negotiate_capabilities(local: &[CapabilityRange], remote: &[CapabilityRange]) -> (r: Vec<
    NegotiatedCapability,
>)
    ensures
        strictly_sorted(r@),
        forall|id: u32, version: u32|
            #[trigger] r@.contains(NegotiatedCapability { id, version }) <==> negotiated_version(
                local@,
                remote@,
                id,
            ) == Some(version),
{
    let mut out: Vec<NegotiatedCapability> = Vec::new();
    let mut i: usize = 0;
    while i < local.len()
        invariant
            i <= local@.len(),
            strictly_sorted(out@),
            forall|id: u32, version: u32|
                #[trigger] out@.contains(NegotiatedCapability { id, version })
                    <==> negotiated_version(local@.take(i as int), remote@, id) == Some(version),
        decreases local@.len() - i,
    {
        let ghost prefix = local@.take(i + 1);
        let ghost before = out@;
        proof {
            assert(prefix.drop_last() == local@.take(i as int));
            assert(prefix.last() == local@[i as int]);
        }
        let item = local[i];
        let ghost found = common_version(item, remote@);
        let common: Option<u32> = if item.available && item.min_version <= item.max_version {
            match find_usable(remote, item.id) {
                Some(other) => {
                    let minimum: u32 = max_of(item.min_version, other.min_version);
                    let maximum: u32 = min_of(item.max_version, other.max_version);
                    if minimum <= maximum {
                        Some(maximum)
                    } else {
                        None
                    }
                },
                None => None,
            }
        } else {
            None
        };
        proof {
            assert(common == found);
        }
        match common {
            Some(version) => {
                insert_sorted(&mut out, NegotiatedCapability { id: item.id, version });
            },
            None => {},
        }
        proof {
            assert forall|id: u32, version: u32|
                #[trigger] out@.contains(NegotiatedCapability { id, version })
                    <==> negotiated_version(prefix, remote@, id) == Some(version) by {
                let earlier = negotiated_version(local@.take(i as int), remote@, id);
                assert(before.contains(NegotiatedCapability { id, version }) <==> earlier == Some(
                    version,
                ));
                if earlier is Some {
                    assert(before.contains(
                        NegotiatedCapability { id, version: earlier->0 },
                    ));
                    assert(has_id(before, id));
                } else if has_id(before, id) {
                    let k = choose|k: int| 0 <= k < before.len() && before[k].id == id;
                    assert(before.contains(
                        NegotiatedCapability { id, version: before[k].version },
                    ));
                    assert(negotiated_version(local@.take(i as int), remote@, id) == Some(
                        before[k].version,
                    ));
                }
            }
        }
        i += 1;
    }
    proof {
        assert(local@.take(i as int) == local@);
    }
    out
}

/// Whether an identifier occurs.
spec fn has_id(list: Seq<NegotiatedCapability>, id: u32) -> bool {
    exists|k: int| 0 <= k < list.len() && list[k].id == id
}

/// Inserts an item by its identifier, unless that identifier is there already.
fn insert_sorted(list: &mut Vec<NegotiatedCapability>, item: NegotiatedCapability)
    requires
        strictly_sorted(old(list)@),
    ensures
        strictly_sorted(final(list)@),
        forall|c: NegotiatedCapability|
            #[trigger] final(list)@.contains(c) <==> old(list)@.contains(c) || (c == item
                && !has_id(old(list)@, item.id)),
{
    let ghost before = list@;
    let mut at: usize = 0;
    while at < list.len() && list[at].id < item.id
        invariant
            list@ == before,
            at <= list@.len(),
            forall|j: int| 0 <= j < at ==> list@[j].id < item.id,
        decreases list@.len() - at,
    {
        at += 1;
    }
    if at < list.len() && list[at].id == item.id {
        proof {
            assert(before[at as int].id == item.id);
            assert(has_id(before, item.id));
        }
        return;
    }
    list.insert(at, item);
    proof {
        let after = list@;
        assert(after == before.insert(at as int, item));
        assert(!has_id(before, item.id)) by {
            if has_id(before, item.id) {
                let k = choose|k: int| 0 <= k < before.len() && before[k].id == item.id;
                if k > at {
                    assert(before[at as int].id < before[k].id);
                }
            }
        }
        assert forall|c: NegotiatedCapability| #[trigger]
            after.contains(c) <==> before.contains(c) || c == item by {
            if before.contains(c) {
                let k = choose|k: int| 0 <= k < before.len() && before[k] == c;
                if k < at {
                    assert(after[k] == c);
                } else {
                    assert(after[k + 1] == c);
                }
            }
            if c == item {
                assert(after[at as int] == c);
            }
            if after.contains(c) {
                let k = choose|k: int| 0 <= k < after.len() && after[k] == c;
                if k < at {
                    assert(before[k] == c);
                } else if k > at {
                    assert(before[k - 1] == c);
                }
            }
        }
    }
}

/// What was negotiated can be used by both sides: each version lies in a local and a remote
/// range with the same identifier, both of which are available.
pub proof fn law_negotiated_is_common(
    local: Seq<CapabilityRange>,
    remote: Seq<CapabilityRange>,
    id: u32,
)
    ensures
        negotiated_version(local, remote, id) matches Some(version) ==> {
            &&& exists|i: int|
                0 <= i < local.len() && (#[trigger] local[i]).available && local[i].id == id
                    && local[i].min_version <= version <= local[i].max_version
            &&& exists|i: int|
                0 <= i < remote.len() && (#[trigger] remote[i]).available && remote[i].id == id
                    && remote[i].min_version <= version <= remote[i].max_version
        },
    decreases local.len(),
{
    if local.len() > 0 {
        let before = local.drop_last();
        law_negotiated_is_common(before, remote, id);
        match negotiated_version(before, remote, id) {
            Some(version) => {
                let k = choose|i: int|
                    0 <= i < before.len() && (#[trigger] before[i]).available && before[i].id == id
                        && before[i].min_version <= version <= before[i].max_version;
                assert(local[k] == before[k]);
            },
            None => {
                if local.last().id == id && common_version(local.last(), remote) is Some {
                    assert(local[local.len() - 1] == local.last());
                    lemma_last_usable(remote, id);
                }
            },
        }
    }
}

proof fn lemma_last_usable_is(list: Seq<CapabilityRange>, id: u32, j: int)
    requires
        0 <= j < list.len(),
        list[j].id == id,
        list[j].available,
        list[j].min_version <= list[j].max_version,
        forall|k: int|
            j < k < list.len() ==> (#[trigger] list[k]).id != id || !list[k].available
                || list[k].min_version > list[k].max_version,
    ensures
        last_usable(list, id) == Some(list[j]),
    decreases list.len(),
{
    if j < list.len() - 1 {
        assert(list.last() == list[list.len() - 1]);
        assert forall|k: int| j < k < list.drop_last().len() implies (
        #[trigger] list.drop_last()[k]).id != id || !list.drop_last()[k].available
            || list.drop_last()[k].min_version > list.drop_last()[k].max_version by {
            assert(list.drop_last()[k] == list[k]);
        }
        lemma_last_usable_is(list.drop_last(), id, j);
    }
}

proof fn lemma_first_met(
    local: Seq<CapabilityRange>,
    remote: Seq<CapabilityRange>,
    id: u32,
    i: int,
    other: CapabilityRange,
)
    requires
        last_usable(remote, id) == Some(other),
        other.id == id,
        0 <= i <= local.len(),
        forall|k: int|
            0 <= k < i ==> (#[trigger] local[k]).id != id || !local[k].available
                || local[k].max_version < other.min_version || other.max_version
                < local[k].min_version || local[k].min_version > local[k].max_version,
        i < local.len() ==> local[i].id == id && common_version(local[i], remote) is Some,
    ensures
        i < local.len() ==> negotiated_version(local, remote, id) == common_version(
            local[i],
            remote,
        ),
        i == local.len() ==> negotiated_version(local, remote, id) is None,
    decreases local.len(),
{
    if local.len() > 0 {
        let before = local.drop_last();
        assert forall|k: int| 0 <= k < before.len() implies before[k] == #[trigger] local[k] by {}
        if i == local.len() {
            assert(local[i - 1] == local.last());
            lemma_first_met(before, remote, id, i - 1, other);
        } else if i == local.len() - 1 {
            assert(local.last() == local[i]);
            lemma_first_met(before, remote, id, i, other);
        } else {
            lemma_first_met(before, remote, id, i, other);
        }
    }
}

/// Nothing that both sides can use is left out, and the highest version is taken. The last
/// usable entry of the remote side counts, and the first local one that meets it: wherever some
/// version lies in both, the outcome holds a version that lies in both and that no other such
/// version exceeds.
pub proof fn law_every_common_capability_is_negotiated(
    local: Seq<CapabilityRange>,
    remote: Seq<CapabilityRange>,
    id: u32,
    i: int,
    j: int,
    v: u32,
)
    requires
        0 <= i < local.len(),
        0 <= j < remote.len(),
        local[i].id == id && local[i].available,
        remote[j].id == id && remote[j].available,
        local[i].min_version <= v <= local[i].max_version,
        remote[j].min_version <= v <= remote[j].max_version,
        forall|k: int|
            j < k < remote.len() ==> (#[trigger] remote[k]).id != id || !remote[k].available
                || remote[k].min_version > remote[k].max_version,
        forall|k: int|
            0 <= k < i ==> (#[trigger] local[k]).id != id || !local[k].available
                || local[k].max_version < remote[j].min_version || remote[j].max_version
                < local[k].min_version || local[k].min_version > local[k].max_version,
    ensures
        negotiated_version(local, remote, id) matches Some(version) && {
            &&& v <= version
            &&& local[i].min_version <= version <= local[i].max_version
            &&& remote[j].min_version <= version <= remote[j].max_version
        },
{
    lemma_last_usable_is(remote, id, j);
    lemma_first_met(local, remote, id, i, remote[j]);
}

/// Both sides come to the same capabilities where each of them names an identifier once.
pub proof fn law_negotiation_is_symmetric(
    local: Seq<CapabilityRange>,
    remote: Seq<CapabilityRange>,
    id: u32,
)
    requires
        forall|a: int, b: int|
            0 <= a < b < local.len() ==> (#[trigger] local[a]).id != (#[trigger] local[b]).id,
        forall|a: int, b: int|
            0 <= a < b < remote.len() ==> (#[trigger] remote[a]).id != (#[trigger] remote[b]).id,
    ensures
        negotiated_version(local, remote, id) == negotiated_version(remote, local, id),
{
    lemma_one_side(local, remote, id);
    lemma_one_side(remote, local, id);
}

proof fn lemma_one_side(local: Seq<CapabilityRange>, remote: Seq<CapabilityRange>, id: u32)
    requires
        forall|a: int, b: int|
            0 <= a < b < local.len() ==> (#[trigger] local[a]).id != (#[trigger] local[b]).id,
        forall|a: int, b: int|
            0 <= a < b < remote.len() ==> (#[trigger] remote[a]).id != (#[trigger] remote[b]).id,
    ensures
        negotiated_version(local, remote, id) matches Some(version) ==> (negotiated_version(
            remote,
            local,
            id,
        ) matches Some(other) && version <= other),
{
    if let Some(version) = negotiated_version(local, remote, id) {
        law_negotiated_is_common(local, remote, id);
        let i = choose|i: int|
            0 <= i < local.len() && (#[trigger] local[i]).available && local[i].id == id
                && local[i].min_version <= version <= local[i].max_version;
        let j = choose|j: int|
            0 <= j < remote.len() && (#[trigger] remote[j]).available && remote[j].id == id
                && remote[j].min_version <= version <= remote[j].max_version;
        law_every_common_capability_is_negotiated(remote, local, id, j, i, version);
    }
}

proof fn lemma_last_usable(list: Seq<CapabilityRange>, id: u32)
    ensures
        last_usable(list, id) matches Some(c) ==> exists|i: int|
            0 <= i < list.len() && usable(#[trigger] list[i]) && list[i].id == id && list[i] == c,
    decreases list.len(),
{
    if list.len() > 0 {
        if list.last().id == id && usable(list.last()) {
            assert(list[list.len() - 1] == list.last());
        } else {
            lemma_last_usable(list.drop_last(), id);
            if let Some(c) = last_usable(list.drop_last(), id) {
                let k = choose|i: int|
                    0 <= i < list.drop_last().len() && usable(#[trigger] list.drop_last()[i])
                        && list.drop_last()[i].id == id && list.drop_last()[i] == c;
                assert(list[k] == list.drop_last()[k]);
            }
        }
    }
}

} // verus!
