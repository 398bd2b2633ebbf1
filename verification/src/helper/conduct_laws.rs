//! What holds of the conduct of the helper: what it answers to a request that it refuses, what it
//! does to undo an operation, and what it asks the programs of a platform.

use crate::error::{ErrorCode, NetToolError};
use crate::helper::command;
use crate::helper::keeper::KeepStep;
use crate::helper::macos;
use crate::helper::operation_laws;
use crate::helper::outside::Step;
use crate::helper::platform;
use crate::helper::platform::{PlatformBackend, PlatformSnapshot};
use crate::helper::programs::RunStep;
use crate::helper::safe_apply;
use crate::helper::safe_apply::{BeginOutcome, PendingSafeApply, RecordView, SafeApplyState};
use crate::helper::windows;
use crate::helper_protocol;
use crate::helper_protocol::{NetworkDesiredState, PrivilegedWireRequest};
use crate::helper_server;
use crate::json;
use crate::json::{JsonNumber, JsonValue};
use crate::text_laws;
use vstd::prelude::*;

verus! {

// --------------------------------------------------------------------------- refused requests

/// Whether what a request asks for makes sense by itself.
pub open spec fn sensible(
    operation_id: Seq<char>,
    interface_id: Seq<char>,
    desired: NetworkDesiredState,
    timeout: u64,
) -> bool {
    &&& !text_laws::all_white(operation_id)
    &&& !text_laws::all_white(interface_id)
    &&& 10 <= timeout <= 600
    &&& helper_protocol::state_fault(desired) is None
}

/// A request that makes no sense by itself is refused as an invalid argument, and no other is.
/// One whose operation is recorded is never refused for its interface; where it is no repetition
/// it is a conflict of operations. Where an operation waits for its interface and its own was
/// never recorded, it is a conflict of resources.
pub proof fn law_requests_that_are_refused(
    records: Seq<RecordView>,
    operation_id: Seq<char>,
    interface_id: Seq<char>,
    desired: NetworkDesiredState,
    timeout: u64,
    at: int,
)
    requires
        0 <= at < records.len(),
    ensures
        ({
            let outcome = safe_apply::begin_outcome(
                records,
                operation_id,
                interface_id,
                desired,
                timeout,
            );
            let sense = sensible(operation_id, interface_id, desired, timeout);
            &&& !sense <==> (outcome matches BeginOutcome::Refused(code, _) && code
                == ErrorCode::InvalidArgument)
            &&& sense && records[at].operation_id == operation_id ==> (outcome is Repeated
                || outcome == BeginOutcome::Refused(
                ErrorCode::OperationConflict,
                "operation ID was reused with a different Safe Apply request"@,
            ))
            &&& sense && (forall|i: int|
                0 <= i < records.len() ==> (#[trigger] records[i]).operation_id != operation_id)
                && records[at].target_interface == interface_id && (records[at].state is Prepared
                || records[at].state is PendingConfirmation || records[at].state is RollingBack)
                ==> outcome == BeginOutcome::Refused(
                ErrorCode::ResourceConflict,
                "interface already has a pending Safe Apply"@,
            )
        }),
{
    text_laws::law_trimming_takes_white_space_away(operation_id);
    text_laws::law_trimming_takes_white_space_away(interface_id);
    operation_laws::law_records_are_found(records, operation_id);
    operation_laws::law_waiting_states(records[at].state);
    let first = safe_apply::first_record(records, operation_id);
    if records[at].operation_id == operation_id {
        assert(first < records.len());
    }
    if forall|i: int|
        0 <= i < records.len() ==> (#[trigger] records[i]).operation_id != operation_id {
        if first < records.len() {
            assert(records[first].operation_id == operation_id);
        }
    }
}

/// A request of a caller is taken exactly where both of its identifiers say something and its
/// operation is as it has to be.
pub proof fn law_requests_of_callers(wire: PrivilegedWireRequest)
    ensures
        helper_server::request_fault(wire) is None <==> !text_laws::all_white(wire.request_id@)
            && !text_laws::all_white(wire.operation_id@) && wire.operation.fault() is None,
{
    text_laws::law_trimming_takes_white_space_away(wire.request_id@);
    text_laws::law_trimming_takes_white_space_away(wire.operation_id@);
}

// ------------------------------------------------------------------------------- rolling back

/// What is rolled back was pending. That it is being rolled back is recorded, then the state that
/// was kept for it is restored, then the records are kept in which it is rolled back and all else
/// is as before, and last that is logged; and nothing else happens.
pub proof fn law_operations_that_are_rolled_back(
    from: Seq<Step>,
    to: Seq<Step>,
    before: Seq<RecordView>,
    after: Seq<RecordView>,
    operation_id: Seq<char>,
    note: Seq<char>,
    at: int,
)
    requires
        safe_apply::records_sound(before),
        safe_apply::rolled_back_by(from, to, before, after, operation_id, note, Ok(())),
        0 <= at < before.len(),
        before[at].operation_id == operation_id,
    ensures
        before[at].state is Prepared || before[at].state is PendingConfirmation
            || before[at].state is RollingBack,
        after == before.update(at, RecordView { state: SafeApplyState::RolledBack, ..before[at] }),
        to.len() == from.len() + 4,
        to.take(from.len() as int) == from,
        to[from.len() as int] == Step::Persist(
            before.update(at, RecordView { state: SafeApplyState::RollingBack, ..before[at] }),
            Ok(()),
        ),
        to[from.len() + 1int] == Step::Restore(before[at].snapshot_id, Ok(())),
        to[from.len() + 2int] == Step::Persist(after, Ok(())),
        to[from.len() + 3int] == Step::Audit(after[at], note, Ok(())),
{
    operation_laws::law_records_are_found(before, operation_id);
    let b = safe_apply::first_active(before, operation_id);
    let a = safe_apply::first_record(before, operation_id);
    assert(before[b].operation_id == operation_id);
    if b < at {
        assert(before[b].operation_id != before[at].operation_id);
    } else if at < b {
        assert(before[at].operation_id != before[b].operation_id);
    }
    assert(before[a].operation_id == operation_id);
    if a < at {
        assert(before[a].operation_id != before[at].operation_id);
    } else if at < a {
        assert(before[at].operation_id != before[a].operation_id);
    }
    operation_laws::law_waiting_states(before[at].state);
    let rolling = safe_apply::with_state(before, operation_id, SafeApplyState::RollingBack);
    let kept = choose|kept: Result<(), NetToolError>|
        match kept {
            Ok(_) => safe_apply::restored_by(
                #[trigger] from.push(Step::Persist(rolling, kept)),
                to,
                before,
                after,
                operation_id,
                note,
                Ok(()),
            ),
            Err(_) => Ok::<(), NetToolError>(()) == kept && after == rolling && to == from.push(
                Step::Persist(rolling, kept),
            ),
        };
    let first = from.push(Step::Persist(rolling, kept));
    assert(safe_apply::restored_by(first, to, before, after, operation_id, note, Ok(())));
    let old = before[at];
    let restored = choose|restored: Result<(), NetToolError>|
        {
            let behind = #[trigger] first.push(Step::Restore(old.snapshot_id, restored));
            match restored {
                Ok(_) => {
                    &&& after == safe_apply::with_state(
                        before,
                        operation_id,
                        SafeApplyState::RolledBack,
                    )
                    &&& safe_apply::kept_and_logged(
                        behind,
                        to,
                        after,
                        RecordView { state: SafeApplyState::RolledBack, ..old },
                        note,
                        Ok(()),
                    )
                },
                Err(_) => {
                    &&& after == safe_apply::with_state(
                        before,
                        operation_id,
                        SafeApplyState::Failed,
                    )
                    &&& exists|logged: Result<(), NetToolError>| #[trigger]
                        safe_apply::kept_and_logged(
                            behind,
                            to,
                            after,
                            RecordView { state: SafeApplyState::Failed, ..old },
                            "rollback_failed"@,
                            logged,
                        ) && Ok::<(), NetToolError>(()) == match logged {
                            Ok(_) => restored,
                            Err(_) => logged,
                        }
                },
            }
        };
    assert(restored is Ok);
    let behind = first.push(Step::Restore(before[at].snapshot_id, restored));
    let record = RecordView { state: SafeApplyState::RolledBack, ..before[at] };
    assert(safe_apply::kept_and_logged(behind, to, after, record, note, Ok(())));
    let last = choose|last: Result<(), NetToolError>|
        match last {
            Ok(_) => to == (#[trigger] behind.push(Step::Persist(after, last))).push(
                Step::Audit(record, note, Ok(())),
            ),
            Err(_) => Ok::<(), NetToolError>(()) == last && to == behind.push(
                Step::Persist(after, last),
            ),
        };
    assert(last is Ok);
    assert(to == behind.push(Step::Persist(after, last)).push(Step::Audit(record, note, Ok(()))));
    assert(to[from.len() as int] == Step::Persist(rolling, kept));
    assert(to[from.len() + 1int] == Step::Restore(old.snapshot_id, restored));
    assert(kept->Ok_0 == ());
    assert(restored->Ok_0 == ());
    assert(last->Ok_0 == ());
    assert(to.take(from.len() as int) =~= from);
}

/// Where no operation of that name is pending nothing is called and no record changes.
pub proof fn law_nothing_to_roll_back(
    from: Seq<Step>,
    to: Seq<Step>,
    before: Seq<RecordView>,
    after: Seq<RecordView>,
    operation_id: Seq<char>,
    note: Seq<char>,
    r: Result<(), NetToolError>,
)
    requires
        safe_apply::rolled_back_by(from, to, before, after, operation_id, note, r),
        forall|i: int|
            0 <= i < before.len() && (#[trigger] before[i]).operation_id == operation_id
                ==> before[i].state is Confirmed || before[i].state is RolledBack
                || before[i].state is Failed,
    ensures
        to == from,
        after == before,
        r matches Err(e) && e.is(
            ErrorCode::InvalidState,
            "Safe Apply operation is not pending"@,
            false,
        ),
{
    operation_laws::law_records_are_found(before, operation_id);
    let b = safe_apply::first_active(before, operation_id);
    if b < before.len() {
        assert(before[b].operation_id == operation_id);
        operation_laws::law_waiting_states(before[b].state);
    }
}

// ----------------------------------------------------------------------------------- queries

/// An interface of macOS that can be read is asked four things with one program: its settings,
/// those of version 6, its servers and its transmission unit.
pub proof fn law_macos_queries(
    path: Seq<Seq<RunStep>>,
    interface_id: Seq<char>,
    answers: Seq<Result<String, NetToolError>>,
    i: int,
)
    requires
        macos::queried_by(path, interface_id, answers),
        0 <= i < answers.len(),
    ensures
        answers.len() < 4 ==> answers.last() is Err,
        i < answers.len() - 1 ==> answers[i] is Ok,
        command::output_answered(
            path[i],
            path[i + 1],
            (
                "/usr/sbin/networksetup"@,
                seq![
                    if i == 0 {
                        "-getinfo"@
                    } else if i == 1 {
                        "-getv6info"@
                    } else if i == 2 {
                        "-getdnsservers"@
                    } else {
                        "-getMTU"@
                    },
                    interface_id,
                ],
            ),
            "networksetup state query failed"@,
            answers[i],
        ),
{
    assert(answers[i] == answers[i]);
}

/// The state of an interface of Windows is asked for by one script alone, with the name of the
/// interface behind it.
pub proof fn law_windows_queries(arguments: Seq<Seq<char>>)
    ensures
        windows::query_fault(arguments) is None <==> {
            &&& arguments.len() == 9
            &&& arguments[0] == "-NoLogo"@
            &&& arguments[1] == "-NoProfile"@
            &&& arguments[2] == "-NonInteractive"@
            &&& arguments[3] == "-ExecutionPolicy"@
            &&& arguments[4] == "Bypass"@
            &&& arguments[5] == "-Command"@
            &&& arguments[6] == windows::WINDOWS_STATE_QUERY@
            &&& arguments[7] == "--"@
            &&& command::interface_fault(arguments[8]) is None
        },
{
    if arguments.len() == 9 {
        let wanted = windows::query_arguments(arguments[8]);
        if arguments[0] == wanted[0] && arguments[1] == wanted[1] && arguments[2] == wanted[2]
            && arguments[3] == wanted[3] && arguments[4] == wanted[4] && arguments[5] == wanted[5]
            && arguments[6] == wanted[6] && arguments[7] == wanted[7] {
            assert(arguments =~= wanted);
        }
    }
}

// --------------------------------------------------------------------------------- documents

/// A member of an object is the first of its name, and there is none where no name is that name.
pub proof fn law_members(members: Vec<(String, JsonValue)>, name: Seq<char>, at: int)
    requires
        0 <= at <= members@.len(),
        forall|j: int| 0 <= j < at ==> (#[trigger] members@[j]).0@ != name,
        at < members@.len() ==> members@[at].0@ == name,
    ensures
        at < members@.len() ==> json::member(JsonValue::Object(members), name) == Some(
            members@[at].1,
        ),
        at == members@.len() ==> json::member(JsonValue::Object(members), name) is None,
{
    lemma_first(members@, name, at);
}

proof fn lemma_first(members: Seq<(String, JsonValue)>, name: Seq<char>, at: int)
    requires
        0 <= at <= members.len(),
        forall|j: int| 0 <= j < at ==> (#[trigger] members[j]).0@ != name,
        at < members.len() ==> members[at].0@ == name,
    ensures
        json::member_index(members, name) == at,
    decreases at,
{
    if at > 0 {
        assert(members[0].0@ != name);
        let rest = members.drop_first();
        assert forall|j: int| 0 <= j < at - 1 implies (#[trigger] rest[j]).0@ != name by {
            assert(rest[j] == members[j + 1]);
        }
        lemma_first(rest, name, at - 1);
    }
}

/// What a document says is what its members of the same names say, wherever they stand.
pub proof fn law_numbers_in_documents(
    members: Vec<(String, JsonValue)>,
    at: int,
    n: u64,
    d: windows::WindowsStateDocument,
)
    requires
        windows::is_document(JsonValue::Object(members), d),
        0 <= at < members@.len(),
        forall|j: int| 0 <= j < at ==> (#[trigger] members@[j]).0@ != members@[at].0@,
        members@[at].1 == JsonValue::Number(JsonNumber::Unsigned(n)),
    ensures
        members@[at].0@ == "schema_version"@ ==> d.schema_version == n,
        members@[at].0@ == "interface_count"@ ==> d.interface_count == n,
        members@[at].0@ == "mtu"@ ==> d.mtu == n,
        members@[at].0@ == "route_count"@ ==> d.route_count == n,
{
    law_members(members, members@[at].0@, at);
}

/// What a document says of names and servers is what its members of the same names say.
pub proof fn law_texts_in_documents(
    members: Vec<(String, JsonValue)>,
    at: int,
    t: String,
    items: Vec<JsonValue>,
    i: int,
    d: windows::WindowsStateDocument,
)
    requires
        windows::is_document(JsonValue::Object(members), d),
        0 <= at < members@.len(),
        forall|j: int| 0 <= j < at ==> (#[trigger] members@[j]).0@ != members@[at].0@,
    ensures
        members@[at].0@ == "interface_id"@ && members@[at].1 == JsonValue::Text(t)
            ==> d.interface_id@ == t@,
        members@[at].0@ == "default_gateways"@ && members@[at].1 == JsonValue::List(items)
            ==> d.default_gateways@.len() == items@.len() && (0 <= i < items@.len() && items@[i]
            == JsonValue::Text(t) ==> d.default_gateways@[i]@ == t@),
{
    law_members(members, members@[at].0@, at);
    if members@[at].0@ == "default_gateways"@ && members@[at].1 == JsonValue::List(items) {
        let all = windows::texts_of(Some(members@[at].1));
        assert(all.len() == items@.len());
        assert(all == crate::text::texts(d.default_gateways@));
        if 0 <= i < items@.len() && items@[i] == JsonValue::Text(t) {
            assert(all[i] == t@);
        }
    }
}

/// The settings of version 4 in a document: whether they are given by a server, and each address
/// with the length of its prefix.
pub proof fn law_version_4_in_documents(
    members: Vec<(String, JsonValue)>,
    parts: Vec<(String, JsonValue)>,
    b: bool,
    items: Vec<JsonValue>,
    i: int,
    d: windows::WindowsStateDocument,
)
    requires
        windows::is_document(JsonValue::Object(members), d),
        members@.len() > 0,
        members@[0].0@ == "ipv4"@,
        members@[0].1 == JsonValue::Object(parts),
        parts@.len() == 2,
        parts@[0].0@ == "dhcp"@,
        parts@[0].1 == JsonValue::Bool(b),
        parts@[1].0@ == "addresses"@,
        parts@[1].1 == JsonValue::List(items),
        0 <= i < items@.len(),
    ensures
        d.ipv4.dhcp == b,
        d.ipv4.addresses@.len() == items@.len(),
        windows::is_address(items@[i], d.ipv4.addresses@[i]),
{
    reveal_strlit("dhcp");
    reveal_strlit("addresses");
    law_members(members, "ipv4"@, 0);
    law_members(parts, "dhcp"@, 0);
    assert("dhcp"@.len() != "addresses"@.len());
    law_members(parts, "addresses"@, 1);
    assert(windows::is_address(items@[i], d.ipv4.addresses@[i]));
}

/// An address in a document is its text and the length of its prefix.
pub proof fn law_addresses_in_documents(
    parts: Vec<(String, JsonValue)>,
    t: String,
    n: u64,
    a: windows::WindowsAddress,
)
    requires
        parts@.len() == 2,
        parts@[0].0@ == "address"@,
        parts@[0].1 == JsonValue::Text(t),
        parts@[1].0@ == "prefix_length"@,
        parts@[1].1 == JsonValue::Number(JsonNumber::Unsigned(n)),
    ensures
        windows::is_address(JsonValue::Object(parts), a) <==> a.address@ == t@
            && a.prefix_length == n,
{
    reveal_strlit("address");
    reveal_strlit("prefix_length");
    law_members(parts, "address"@, 0);
    assert("address"@.len() != "prefix_length"@.len());
    law_members(parts, "prefix_length"@, 1);
}

/// A count in a document is any number from zero up to what fits into 32 bits, and nothing else.
pub proof fn law_counts_in_documents(members: Vec<(String, JsonValue)>, at: int, place: int)
    requires
        0 <= at < members@.len(),
        forall|j: int| 0 <= j < at ==> (#[trigger] members@[j]).0@ != members@[at].0@,
    ensures
        windows::count_in(JsonValue::Object(members), members@[at].0@, place) == (
        match members@[at].1 {
            JsonValue::Number(JsonNumber::Unsigned(n)) => if n <= 0xffff_ffff {
                Some(n as nat)
            } else {
                None
            },
            _ => None,
        }),
{
    law_members(members, members@[at].0@, at);
}

/// A document that is an object has nine members, no two of the same name, and no other names
/// than these.
pub proof fn law_members_of_documents(members: Vec<(String, JsonValue)>, i: int, j: int)
    requires
        windows::document_shape(JsonValue::Object(members)),
        0 <= i < j < members@.len(),
    ensures
        members@.len() == 9,
        members@[i].0@ != members@[j].0@,
        ({
            let name = members@[i].0@;
            ||| name == "schema_version"@
            ||| name == "interface_count"@
            ||| name == "interface_id"@
            ||| name == "ipv4"@
            ||| name == "ipv6"@
            ||| name == "dns"@
            ||| name == "mtu"@
            ||| name == "default_gateways"@
            ||| name == "route_count"@
        }),
{
    let keys = windows::document_keys();
    assert(keys.contains(members@[i].0@));
    let k = choose|k: int| 0 <= k < keys.len() && keys[k] == members@[i].0@;
    assert(keys.len() == 9);
}

/// What a document has to hold under each of its names: numbers for the counts, a text for the
/// interface, texts for the gateways, and an object for each family and for the servers.
pub proof fn law_shapes_of_documents(members: Vec<(String, JsonValue)>, at: int)
    requires
        windows::document_shape(JsonValue::Object(members)),
        0 <= at < members@.len(),
        forall|j: int| 0 <= j < at ==> (#[trigger] members@[j]).0@ != members@[at].0@,
    ensures
        ({
            let name = members@[at].0@;
            let part = members@[at].1;
            &&& name == "schema_version"@ || name == "interface_count"@ || name == "mtu"@ || name
                == "route_count"@ ==> (part matches JsonValue::Number(JsonNumber::Unsigned(n)) && n
                <= 0xffff_ffff)
            &&& name == "interface_id"@ ==> part is Text
            &&& name == "default_gateways"@ ==> (part matches JsonValue::List(items) && forall|
                k: int,
            |
                0 <= k < items@.len() ==> (#[trigger] items@[k]) is Text)
            &&& name == "ipv4"@ || name == "ipv6"@ || name == "dns"@ ==> part is Object
                || part is List
        }),
{
    law_members(members, members@[at].0@, at);
}

// ------------------------------------------------------------------------------- kept states

/// What is kept of an interface is what was read of it, under its name and for its platform; it
/// is valid, and the identifier is the one under which it was kept.
pub proof fn law_states_that_are_kept(
    from: Seq<KeepStep>,
    to: Seq<KeepStep>,
    backend: PlatformBackend,
    interface_id: Seq<char>,
    r: Result<(String, Vec<u8>), NetToolError>,
)
    requires
        platform::state_kept(from, to, backend, interface_id, r),
        r is Ok,
    ensures
        to.len() == from.len() + 3,
        to[from.len() as int] matches KeepStep::Read(a, Ok(state)) && a == interface_id
            && helper_protocol::state_fault(state) is None && (to[from.len() + 1int] matches
            KeepStep::Save(kept, Ok(id)) && kept.version == 1 && kept.interface_id@ == interface_id
            && kept.backend == backend && kept.state == state && id == r->Ok_0.0)
            && to[from.len() + 2int] == KeepStep::Encode(state, Ok(r->Ok_0.1)),
{
    let read = choose|read: Result<NetworkDesiredState, NetToolError>|
        {
            let behind = #[trigger] from.push(KeepStep::Read(interface_id, read));
            match read {
                Ok(state) => match helper_protocol::state_fault(state) {
                    Some(fault) => to == behind && (r matches Err(e) && e.is(
                        ErrorCode::InvalidArgument,
                        fault,
                        false,
                    )),
                    None => exists|snapshot: PlatformSnapshot|
                        snapshot.version == platform::PLATFORM_SNAPSHOT_VERSION
                            && snapshot.interface_id@ == interface_id && snapshot.backend == backend
                            && snapshot.state == state && #[trigger] platform::snapshot_kept(
                            behind,
                            to,
                            snapshot,
                            r,
                        ),
                },
                Err(e) => to == behind && r == Err::<(String, Vec<u8>), NetToolError>(e),
            }
        };
    let behind = from.push(KeepStep::Read(interface_id, read));
    let state = read->Ok_0;
    let snapshot = choose|snapshot: PlatformSnapshot|
        snapshot.version == platform::PLATFORM_SNAPSHOT_VERSION && snapshot.interface_id@
            == interface_id && snapshot.backend == backend && snapshot.state == state
            && #[trigger] platform::snapshot_kept(behind, to, snapshot, r);
    assert(platform::snapshot_kept(behind, to, snapshot, r));
    assert(to.len() == from.len() + 3);
}

/// A configuration is in force exactly where what is read of the interface is what was asked for.
pub proof fn law_states_that_are_compared(
    from: Seq<KeepStep>,
    to: Seq<KeepStep>,
    interface_id: Seq<char>,
    desired: NetworkDesiredState,
    r: Result<(), NetToolError>,
)
    requires
        platform::state_compared(from, to, interface_id, desired, r),
    ensures
        to.len() == from.len() + 1,
        to[from.len() as int] matches KeepStep::Read(a, read) && a == interface_id && (r is Ok
            <==> (read matches Ok(actual) && actual@ == desired@)) && (read matches Err(e) ==> r
            == Err::<(), NetToolError>(e)),
{
    let read = choose|read: Result<NetworkDesiredState, NetToolError>|
        to == #[trigger] from.push(KeepStep::Read(interface_id, read)) && match read {
            Ok(actual) => platform::is_verified(actual, desired, r),
            Err(e) => r == Err::<(), NetToolError>(e),
        };
    assert(to == from.push(KeepStep::Read(interface_id, read)));
}

/// What is confirmed is recorded first and logged as confirmed then.
pub proof fn law_confirmed_operations(
    from: Seq<Step>,
    to: Seq<Step>,
    after: Seq<RecordView>,
    confirmed: RecordView,
    r: Result<PendingSafeApply, NetToolError>,
)
    requires
        safe_apply::confirmed_by(from, to, after, confirmed, r),
        r is Ok,
    ensures
        to == from.push(Step::Persist(after, Ok(()))).push(
            Step::Audit(confirmed, "confirmed"@, Ok(())),
        ),
        r->Ok_0@ == confirmed,
{
    let logged = choose|logged: Result<(), NetToolError>| #[trigger]
        safe_apply::kept_and_logged(from, to, after, confirmed, "confirmed"@, logged)
            && match logged {
            Ok(_) => r matches Ok(record) && record@ == confirmed,
            Err(e) => r == Err::<PendingSafeApply, NetToolError>(e),
        };
    assert(logged->Ok_0 == ());
    let kept = choose|kept: Result<(), NetToolError>|
        match kept {
            Ok(_) => to == (#[trigger] from.push(Step::Persist(after, kept))).push(
                Step::Audit(confirmed, "confirmed"@, logged),
            ),
            Err(_) => logged == kept && to == from.push(Step::Persist(after, kept)),
        };
    assert(kept->Ok_0 == ());
}

} // verus!
