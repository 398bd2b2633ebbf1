//! The actions that interfaces, command line and automation share.

use crate::error::NetToolError;
use crate::text::same;
use vstd::prelude::*;

verus! {

/// The stable name of an action.
#[derive(Clone, Debug, PartialEq, Eq, Hash)]
pub struct ActionName(String);

impl View for ActionName {
    type V = Seq<char>;

    closed spec fn view(&self) -> Seq<char> {
        self.0@
    }
}

impl ActionName {
    /// Takes a name over; the registry decides whether there is such an action.
    #[must_use]
    pub fn new(value: &str) -> (r: Self)
        ensures
            r@ == value@,
    {
        ActionName(value.to_owned())
    }

    /// Returns the name.
    #[must_use]
    pub fn as_str(&self) -> (r: &str)
        ensures
            r@ == self@,
    {
        self.0.as_str()
    }
}

/// The permission that an action takes.
#[derive(Clone, Copy, Debug, PartialEq, Eq, Structural)]
pub enum PermissionRequirement {
    /// Reading without side effects.
    ReadOnly,
    /// Any user may do it.
    User,
    /// The privileged helper has to allow it.
    Privileged,
}

/// What an action promises.
#[derive(Clone, Copy, Debug, PartialEq, Eq)]
pub struct ActionDescriptor {
    /// Its stable name.
    pub name: &'static str,
    /// The permission that it takes.
    pub permission: PermissionRequirement,
    /// Whether it is safe to send the same operation again.
    pub idempotent: bool,
    /// Its command line.
    pub cli: &'static str,
}

/// A row of the table of actions: name, permission, whether it can be repeated, command line.
pub type ActionRow = (Seq<char>, PermissionRequirement, bool, Seq<char>);

impl View for ActionDescriptor {
    type V = ActionRow;

    open spec fn view(&self) -> ActionRow {
        (self.name@, self.permission, self.idempotent, self.cli@)
    }
}

/// The number of actions.
pub const ACTION_COUNT: usize = 42;

/// The table of actions.
pub open spec fn action_row(i: int) -> ActionRow {
    if i == 0 {
        ("interface.list"@, PermissionRequirement::ReadOnly, true, "nettool interface list"@)
    } else if i == 1 {
        (
            "interface.show"@,
            PermissionRequirement::ReadOnly,
            true,
            "nettool interface show <name-or-id>"@,
        )
    } else if i == 2 {
        (
            "interface.refresh"@,
            PermissionRequirement::ReadOnly,
            true,
            "nettool interface refresh"@,
        )
    } else if i == 3 {
        ("system.health"@, PermissionRequirement::ReadOnly, true, "nettool health"@)
    } else if i == 4 {
        ("dataplane.probe"@, PermissionRequirement::ReadOnly, true, "nettool dataplane probe"@)
    } else if i == 5 {
        ("profile.list"@, PermissionRequirement::ReadOnly, true, "nettool profile list"@)
    } else if i == 6 {
        (
            "profile.show"@,
            PermissionRequirement::ReadOnly,
            true,
            "nettool profile show <id-or-name>"@,
        )
    } else if i == 7 {
        (
            "profile.create"@,
            PermissionRequirement::User,
            true,
            "nettool profile create <id> <name>"@,
        )
    } else if i == 8 {
        (
            "profile.delete"@,
            PermissionRequirement::User,
            true,
            "nettool profile delete <id-or-name>"@,
        )
    } else if i == 9 {
        (
            "profile.edit"@,
            PermissionRequirement::User,
            false,
            "nettool profile edit <id-or-name> <json>"@,
        )
    } else if i == 10 {
        (
            "profile.export"@,
            PermissionRequirement::ReadOnly,
            true,
            "nettool profile export <id-or-name>"@,
        )
    } else if i == 11 {
        ("profile.import"@, PermissionRequirement::User, false, "nettool profile import <file>"@)
    } else if i == 12 {
        ("profile.apply"@, PermissionRequirement::Privileged, true, "nettool profile apply"@)
    } else if i == 13 {
        ("profile.confirm"@, PermissionRequirement::Privileged, true, "nettool profile confirm"@)
    } else if i == 14 {
        (
            "profile.rollback"@,
            PermissionRequirement::Privileged,
            true,
            "nettool profile rollback"@,
        )
    } else if i == 15 {
        (
            "ip.set"@,
            PermissionRequirement::Privileged,
            false,
            "nettool ip set --interface <id> --address <ip> --prefix <n>"@,
        )
    } else if i == 16 {
        (
            "ip.dhcp"@,
            PermissionRequirement::Privileged,
            false,
            "nettool ip dhcp --interface <id>"@,
        )
    } else if i == 17 {
        (
            "dns.set"@,
            PermissionRequirement::Privileged,
            false,
            "nettool dns set --interface <id> --server <ip>"@,
        )
    } else if i == 18 {
        ("hosts.replace"@, PermissionRequirement::Privileged, true, "nettool hosts replace"@)
    } else if i == 19 {
        (
            "hosts.add"@,
            PermissionRequirement::Privileged,
            false,
            "nettool hosts add <profile-id> <address> <hostname> [comment]"@,
        )
    } else if i == 20 {
        (
            "hosts.remove"@,
            PermissionRequirement::Privileged,
            true,
            "nettool hosts remove <profile-id> <hostname>"@,
        )
    } else if i == 21 {
        (
            "hosts.enable"@,
            PermissionRequirement::Privileged,
            true,
            "nettool hosts enable <profile-id> <hostname>"@,
        )
    } else if i == 22 {
        (
            "hosts.disable"@,
            PermissionRequirement::Privileged,
            true,
            "nettool hosts disable <profile-id> <hostname>"@,
        )
    } else if i == 23 {
        ("hosts.backup"@, PermissionRequirement::Privileged, true, "nettool hosts backup"@)
    } else if i == 24 {
        ("hosts.restore"@, PermissionRequirement::Privileged, true, "nettool hosts restore"@)
    } else if i == 25 {
        ("hosts.read"@, PermissionRequirement::ReadOnly, true, "nettool hosts list"@)
    } else if i == 26 {
        ("node.pair"@, PermissionRequirement::User, true, "nettool node pair"@)
    } else if i == 27 {
        ("node.list"@, PermissionRequirement::ReadOnly, true, "nettool node list"@)
    } else if i == 28 {
        ("node.status"@, PermissionRequirement::ReadOnly, true, "nettool node status"@)
    } else if i == 29 {
        ("node.revoke"@, PermissionRequirement::User, false, "nettool node revoke <id-or-name>"@)
    } else if i == 30 {
        ("speed.run"@, PermissionRequirement::User, false, "nettool speed run <node> [options]"@)
    } else if i == 31 {
        ("speed.cancel"@, PermissionRequirement::User, true, "nettool speed cancel"@)
    } else if i == 32 {
        (
            "speed.history"@,
            PermissionRequirement::ReadOnly,
            true,
            "nettool speed history [--limit <n>]"@,
        )
    } else if i == 33 {
        (
            "packet.capture.start"@,
            PermissionRequirement::User,
            false,
            "nettool packet capture start"@,
        )
    } else if i == 34 {
        (
            "packet.capture.stop"@,
            PermissionRequirement::User,
            true,
            "nettool packet capture stop <session-id>"@,
        )
    } else if i == 35 {
        (
            "packet.analyze"@,
            PermissionRequirement::ReadOnly,
            true,
            "nettool packet analyze --input <capture>"@,
        )
    } else if i == 36 {
        (
            "packet.stats"@,
            PermissionRequirement::ReadOnly,
            true,
            "nettool packet stats [--interface <id>]"@,
        )
    } else if i == 37 {
        (
            "packet.connections"@,
            PermissionRequirement::ReadOnly,
            true,
            "nettool packet connections [--protocol tcp|udp]"@,
        )
    } else if i == 38 {
        ("perf.topology"@, PermissionRequirement::ReadOnly, true, "nettool perf topology"@)
    } else if i == 39 {
        ("perf.backend"@, PermissionRequirement::ReadOnly, true, "nettool perf backend"@)
    } else if i == 40 {
        (
            "perf.profile.list"@,
            PermissionRequirement::ReadOnly,
            true,
            "nettool perf profile list"@,
        )
    } else {
        (
            "perf.benchmark"@,
            PermissionRequirement::User,
            false,
            "nettool perf benchmark --profile <id>"@,
        )
    }
}

/// The index of the first row with a name at or after a place.
pub open spec fn first_row(name: Seq<char>, from: int) -> Option<int>
    decreases ACTION_COUNT - from,
{
    if from < 0 || from >= ACTION_COUNT {
        None
    } else if action_row(from).0 == name {
        Some(from)
    } else {
        first_row(name, from + 1)
    }
}

/// All actions.
pub struct ActionRegistry;

fn describe(
    name: &'static str,
    permission: PermissionRequirement,
    idempotent: bool,
    cli: &'static str,
) -> (r: ActionDescriptor)
    ensures
        r@ == (name@, permission, idempotent, cli@),
{
    ActionDescriptor { name, permission, idempotent, cli }
}

fn row(i: usize) -> (r: ActionDescriptor)
    requires
        i < ACTION_COUNT,
    ensures
        r@ == action_row(i as int),
{
    if i == 0 {
        describe(
            "interface.list",
            PermissionRequirement::ReadOnly,
            true,
            "nettool interface list",
        )
    } else if i == 1 {
        describe(
            "interface.show",
            PermissionRequirement::ReadOnly,
            true,
            "nettool interface show <name-or-id>",
        )
    } else if i == 2 {
        describe(
            "interface.refresh",
            PermissionRequirement::ReadOnly,
            true,
            "nettool interface refresh",
        )
    } else if i == 3 {
        describe("system.health", PermissionRequirement::ReadOnly, true, "nettool health")
    } else if i == 4 {
        describe(
            "dataplane.probe",
            PermissionRequirement::ReadOnly,
            true,
            "nettool dataplane probe",
        )
    } else if i == 5 {
        describe("profile.list", PermissionRequirement::ReadOnly, true, "nettool profile list")
    } else if i == 6 {
        describe(
            "profile.show",
            PermissionRequirement::ReadOnly,
            true,
            "nettool profile show <id-or-name>",
        )
    } else if i == 7 {
        describe(
            "profile.create",
            PermissionRequirement::User,
            true,
            "nettool profile create <id> <name>",
        )
    } else if i == 8 {
        describe(
            "profile.delete",
            PermissionRequirement::User,
            true,
            "nettool profile delete <id-or-name>",
        )
    } else if i == 9 {
        describe(
            "profile.edit",
            PermissionRequirement::User,
            false,
            "nettool profile edit <id-or-name> <json>",
        )
    } else if i == 10 {
        describe(
            "profile.export",
            PermissionRequirement::ReadOnly,
            true,
            "nettool profile export <id-or-name>",
        )
    } else if i == 11 {
        describe(
            "profile.import",
            PermissionRequirement::User,
            false,
            "nettool profile import <file>",
        )
    } else if i == 12 {
        describe(
            "profile.apply",
            PermissionRequirement::Privileged,
            true,
            "nettool profile apply",
        )
    } else if i == 13 {
        describe(
            "profile.confirm",
            PermissionRequirement::Privileged,
            true,
            "nettool profile confirm",
        )
    } else if i == 14 {
        describe(
            "profile.rollback",
            PermissionRequirement::Privileged,
            true,
            "nettool profile rollback",
        )
    } else if i == 15 {
        describe(
            "ip.set",
            PermissionRequirement::Privileged,
            false,
            "nettool ip set --interface <id> --address <ip> --prefix <n>",
        )
    } else if i == 16 {
        describe(
            "ip.dhcp",
            PermissionRequirement::Privileged,
            false,
            "nettool ip dhcp --interface <id>",
        )
    } else if i == 17 {
        describe(
            "dns.set",
            PermissionRequirement::Privileged,
            false,
            "nettool dns set --interface <id> --server <ip>",
        )
    } else if i == 18 {
        describe(
            "hosts.replace",
            PermissionRequirement::Privileged,
            true,
            "nettool hosts replace",
        )
    } else if i == 19 {
        describe(
            "hosts.add",
            PermissionRequirement::Privileged,
            false,
            "nettool hosts add <profile-id> <address> <hostname> [comment]",
        )
    } else if i == 20 {
        describe(
            "hosts.remove",
            PermissionRequirement::Privileged,
            true,
            "nettool hosts remove <profile-id> <hostname>",
        )
    } else if i == 21 {
        describe(
            "hosts.enable",
            PermissionRequirement::Privileged,
            true,
            "nettool hosts enable <profile-id> <hostname>",
        )
    } else if i == 22 {
        describe(
            "hosts.disable",
            PermissionRequirement::Privileged,
            true,
            "nettool hosts disable <profile-id> <hostname>",
        )
    } else if i == 23 {
        describe("hosts.backup", PermissionRequirement::Privileged, true, "nettool hosts backup")
    } else if i == 24 {
        describe(
            "hosts.restore",
            PermissionRequirement::Privileged,
            true,
            "nettool hosts restore",
        )
    } else if i == 25 {
        describe("hosts.read", PermissionRequirement::ReadOnly, true, "nettool hosts list")
    } else if i == 26 {
        describe("node.pair", PermissionRequirement::User, true, "nettool node pair")
    } else if i == 27 {
        describe("node.list", PermissionRequirement::ReadOnly, true, "nettool node list")
    } else if i == 28 {
        describe("node.status", PermissionRequirement::ReadOnly, true, "nettool node status")
    } else if i == 29 {
        describe(
            "node.revoke",
            PermissionRequirement::User,
            false,
            "nettool node revoke <id-or-name>",
        )
    } else if i == 30 {
        describe(
            "speed.run",
            PermissionRequirement::User,
            false,
            "nettool speed run <node> [options]",
        )
    } else if i == 31 {
        describe("speed.cancel", PermissionRequirement::User, true, "nettool speed cancel")
    } else if i == 32 {
        describe(
            "speed.history",
            PermissionRequirement::ReadOnly,
            true,
            "nettool speed history [--limit <n>]",
        )
    } else if i == 33 {
        describe(
            "packet.capture.start",
            PermissionRequirement::User,
            false,
            "nettool packet capture start",
        )
    } else if i == 34 {
        describe(
            "packet.capture.stop",
            PermissionRequirement::User,
            true,
            "nettool packet capture stop <session-id>",
        )
    } else if i == 35 {
        describe(
            "packet.analyze",
            PermissionRequirement::ReadOnly,
            true,
            "nettool packet analyze --input <capture>",
        )
    } else if i == 36 {
        describe(
            "packet.stats",
            PermissionRequirement::ReadOnly,
            true,
            "nettool packet stats [--interface <id>]",
        )
    } else if i == 37 {
        describe(
            "packet.connections",
            PermissionRequirement::ReadOnly,
            true,
            "nettool packet connections [--protocol tcp|udp]",
        )
    } else if i == 38 {
        describe("perf.topology", PermissionRequirement::ReadOnly, true, "nettool perf topology")
    } else if i == 39 {
        describe("perf.backend", PermissionRequirement::ReadOnly, true, "nettool perf backend")
    } else if i == 40 {
        describe(
            "perf.profile.list",
            PermissionRequirement::ReadOnly,
            true,
            "nettool perf profile list",
        )
    } else {
        describe(
            "perf.benchmark",
            PermissionRequirement::User,
            false,
            "nettool perf benchmark --profile <id>",
        )
    }
}

impl ActionRegistry {
    /// Returns all actions, in their order.
    #[must_use]
    pub fn all() -> (r: Vec<ActionDescriptor>)
        ensures
            r@.len() == ACTION_COUNT,
            forall|i: int| 0 <= i < r@.len() ==> (#[trigger] r@[i])@ == action_row(i),
    {
        let mut out: Vec<ActionDescriptor> = Vec::new();
        let mut i: usize = 0;
        while i < ACTION_COUNT
            invariant
                i <= ACTION_COUNT,
                out@.len() == i,
                forall|j: int| 0 <= j < i ==> (#[trigger] out@[j])@ == action_row(j),
            decreases ACTION_COUNT - i,
        {
            out.push(row(i));
            i += 1;
        }
        out
    }

    /// Finds an action by its name.
    #[must_use]
    pub fn find(name: &str) -> (r: Option<ActionDescriptor>)
        ensures
            match r {
                Some(found) => first_row(name@, 0) is Some && found@ == action_row(
                    first_row(name@, 0)->0,
                ),
                None => first_row(name@, 0) is None,
            },
    {
        let mut i: usize = 0;
        while i < ACTION_COUNT
            invariant
                i <= ACTION_COUNT,
                first_row(name@, 0) == first_row(name@, i as int),
            decreases ACTION_COUNT - i,
        {
            let action = row(i);
            if same(action.name, name) {
                return Some(action);
            }
            i += 1;
        }
        None
    }
}

/// No two actions have the same name.
pub proof fn law_action_names_are_unique(i: int, j: int)
    requires
        0 <= i < j < ACTION_COUNT,
    ensures
        action_row(i).0 != action_row(j).0,
{
    lemma_names_differ(i, j);
}

/// Every action is found under its own name.
pub proof fn law_every_action_is_found(i: int)
    requires
        0 <= i < ACTION_COUNT,
    ensures
        first_row(action_row(i).0, 0) == Some(i),
{
    lemma_found_from(i, 0);
}

proof fn lemma_found_from(i: int, from: int)
    requires
        0 <= from <= i < ACTION_COUNT,
    ensures
        first_row(action_row(i).0, from) == Some(i),
    decreases i - from,
{
    if from < i {
        lemma_names_differ(from, i);
        lemma_found_from(i, from + 1);
    }
}

/// A request for an action.
#[derive(Clone, Debug, PartialEq)]
pub struct ActionRequest<T> {
    /// The identifier of the request.
    pub request_id: String,
    /// The identifier of the operation, under which it can be repeated.
    pub operation_id: Option<String>,
    /// The action.
    pub action: ActionName,
    /// What the action is given.
    pub payload: T,
    /// Whether only a plan is wanted.
    pub dry_run: bool,
}

/// Something to show that does not keep an action from succeeding.
#[derive(Clone, Debug, PartialEq, Eq)]
pub struct Warning {
    /// A stable code.
    pub code: String,
    /// A description.
    pub message: String,
}

/// What an action came to.
#[derive(Clone, Debug, PartialEq)]
pub struct ActionResult<T> {
    /// The identifier of the request.
    pub request_id: String,
    /// Whether it succeeded.
    pub success: bool,
    /// What it returned.
    pub data: Option<T>,
    /// Warnings.
    pub warnings: Vec<Warning>,
    /// Why it failed.
    pub error: Option<NetToolError>,
}

/// What tells the names of actions apart: the length and two of the last characters.
spec fn marks(name: Seq<char>) -> (int, char, char) {
    (name.len() as int, name[name.len() - 6], name[name.len() - 4])
}

#[verifier::rlimit(60)]
proof fn lemma_names_differ(i: int, j: int)
    requires
        0 <= i < j < ACTION_COUNT,
    ensures
        action_row(i).0 != action_row(j).0,
{
    reveal_strlit("interface.list");
    assert(marks("interface.list"@) == (14int, 'e', 'l'));
    reveal_strlit("interface.show");
    assert(marks("interface.show"@) == (14int, 'e', 's'));
    reveal_strlit("interface.refresh");
    assert(marks("interface.refresh"@) == (17int, 'e', 'r'));
    reveal_strlit("system.health");
    assert(marks("system.health"@) == (13int, 'h', 'a'));
    reveal_strlit("dataplane.probe");
    assert(marks("dataplane.probe"@) == (15int, '.', 'r'));
    reveal_strlit("profile.list");
    assert(marks("profile.list"@) == (12int, 'e', 'l'));
    reveal_strlit("profile.show");
    assert(marks("profile.show"@) == (12int, 'e', 's'));
    reveal_strlit("profile.create");
    assert(marks("profile.create"@) == (14int, 'c', 'e'));
    reveal_strlit("profile.delete");
    assert(marks("profile.delete"@) == (14int, 'd', 'l'));
    reveal_strlit("profile.edit");
    assert(marks("profile.edit"@) == (12int, 'e', 'e'));
    reveal_strlit("profile.export");
    assert(marks("profile.export"@) == (14int, 'e', 'p'));
    reveal_strlit("profile.import");
    assert(marks("profile.import"@) == (14int, 'i', 'p'));
    reveal_strlit("profile.apply");
    assert(marks("profile.apply"@) == (13int, '.', 'p'));
    reveal_strlit("profile.confirm");
    assert(marks("profile.confirm"@) == (15int, 'o', 'f'));
    reveal_strlit("profile.rollback");
    assert(marks("profile.rollback"@) == (16int, 'l', 'b'));
    reveal_strlit("ip.set");
    assert(marks("ip.set"@) == (6int, 'i', '.'));
    reveal_strlit("ip.dhcp");
    assert(marks("ip.dhcp"@) == (7int, 'p', 'd'));
    reveal_strlit("dns.set");
    assert(marks("dns.set"@) == (7int, 'n', '.'));
    reveal_strlit("hosts.replace");
    assert(marks("hosts.replace"@) == (13int, 'e', 'l'));
    reveal_strlit("hosts.add");
    assert(marks("hosts.add"@) == (9int, 't', '.'));
    reveal_strlit("hosts.remove");
    assert(marks("hosts.remove"@) == (12int, 'r', 'm'));
    reveal_strlit("hosts.enable");
    assert(marks("hosts.enable"@) == (12int, 'e', 'a'));
    reveal_strlit("hosts.disable");
    assert(marks("hosts.disable"@) == (13int, 'i', 'a'));
    reveal_strlit("hosts.backup");
    assert(marks("hosts.backup"@) == (12int, 'b', 'c'));
    reveal_strlit("hosts.restore");
    assert(marks("hosts.restore"@) == (13int, 'e', 't'));
    reveal_strlit("hosts.read");
    assert(marks("hosts.read"@) == (10int, 's', 'r'));
    reveal_strlit("node.pair");
    assert(marks("node.pair"@) == (9int, 'e', 'p'));
    reveal_strlit("node.list");
    assert(marks("node.list"@) == (9int, 'e', 'l'));
    reveal_strlit("node.status");
    assert(marks("node.status"@) == (11int, 's', 'a'));
    reveal_strlit("node.revoke");
    assert(marks("node.revoke"@) == (11int, 'r', 'v'));
    reveal_strlit("speed.run");
    assert(marks("speed.run"@) == (9int, 'e', '.'));
    reveal_strlit("speed.cancel");
    assert(marks("speed.cancel"@) == (12int, 'c', 'n'));
    reveal_strlit("speed.history");
    assert(marks("speed.history"@) == (13int, 'i', 't'));
    reveal_strlit("packet.capture.start");
    assert(marks("packet.capture.start"@) == (20int, '.', 't'));
    reveal_strlit("packet.capture.stop");
    assert(marks("packet.capture.stop"@) == (19int, 'e', 's'));
    reveal_strlit("packet.analyze");
    assert(marks("packet.analyze"@) == (14int, 'n', 'l'));
    reveal_strlit("packet.stats");
    assert(marks("packet.stats"@) == (12int, '.', 't'));
    reveal_strlit("packet.connections");
    assert(marks("packet.connections"@) == (18int, 'c', 'i'));
    reveal_strlit("perf.topology");
    assert(marks("perf.topology"@) == (13int, 'p', 'l'));
    reveal_strlit("perf.backend");
    assert(marks("perf.backend"@) == (12int, 'a', 'k'));
    reveal_strlit("perf.profile.list");
    assert(marks("perf.profile.list"@) == (17int, 'e', 'l'));
    reveal_strlit("perf.benchmark");
    assert(marks("perf.benchmark"@) == (14int, 'c', 'm'));
}

} // verus!
