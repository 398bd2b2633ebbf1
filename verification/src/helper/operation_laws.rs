//! What holds of the operations of the helper: which of them go ahead, what is written for them
//! and where.

use crate::digest;
use crate::helper::hosts;
use crate::helper::hosts::ManagedHostsEntry;
use crate::helper::platform;
use crate::helper::platform::{PlatformBackend, PlatformSnapshot};
use crate::helper::request_laws;
use crate::helper::resources;
use crate::helper::resources::{HugepageSnapshot, NicSnapshot};
use crate::helper::safe_apply;
use crate::helper::safe_apply::{BeginOutcome, BeginSafeApply, RecordView, SafeApplyState};
use crate::helper_protocol;
use crate::helper_protocol::NetworkDesiredState;
use crate::text;
use crate::text_laws;
use vstd::prelude::*;
use vstd::utf8::encode_utf8;

verus! {

// --------------------------------------------------------------------------------- safe apply

/// An operation waits until it was confirmed, rolled back or given up.
pub proof fn law_waiting_states(state: SafeApplyState)
    ensures
        safe_apply::pending_state(state) <==> !(state is Confirmed || state is RolledBack
            || state is Failed),
{
}

/// The record that is found for an operation is the first of its records, and the waiting one
/// that is found is the first that waits; where none is found there is none.
pub proof fn law_records_are_found(records: Seq<RecordView>, operation_id: Seq<char>)
    ensures
        ({
            let at = safe_apply::first_record(records, operation_id);
            &&& 0 <= at <= records.len()
            &&& at < records.len() ==> records[at].operation_id == operation_id
            &&& forall|i: int| 0 <= i < at ==> (#[trigger] records[i]).operation_id != operation_id
        }),
        ({
            let at = safe_apply::first_active(records, operation_id);
            &&& 0 <= at <= records.len()
            &&& at < records.len() ==> records[at].operation_id == operation_id && (
            records[at].state is Prepared || records[at].state is PendingConfirmation
                || records[at].state is RollingBack)
            &&& forall|i: int|
                0 <= i < at ==> (#[trigger] records[i]).operation_id != operation_id
                    || records[i].state is Confirmed || records[i].state is RolledBack
                    || records[i].state is Failed
        }),
    decreases records.len(),
{
    if records.len() > 0 {
        let rest = records.drop_first();
        law_records_are_found(rest, operation_id);
        let a = safe_apply::first_record(records, operation_id);
        assert forall|i: int| 0 <= i < a implies (#[trigger] records[i]).operation_id
            != operation_id by {
            if i > 0 {
                assert(rest[i - 1] == records[i]);
            }
        }
        let b = safe_apply::first_active(records, operation_id);
        assert forall|i: int| 0 <= i < b implies (#[trigger] records[i]).operation_id
            != operation_id || records[i].state is Confirmed || records[i].state is RolledBack
            || records[i].state is Failed by {
            if i > 0 {
                assert(rest[i - 1] == records[i]);
            }
        }
        if 0 < a < records.len() {
            assert(rest[a - 1] == records[a]);
        }
        if 0 < b < records.len() {
            assert(rest[b - 1] == records[b]);
        }
    }
}

/// A request goes ahead exactly where its identifiers say something, it leaves between ten
/// seconds and ten minutes for its confirmation, its configuration can be applied, its operation
/// was never recorded and no operation waits for its interface.
pub proof fn law_requests_that_go_ahead(
    records: Seq<RecordView>,
    operation_id: Seq<char>,
    interface_id: Seq<char>,
    desired: NetworkDesiredState,
    timeout: u64,
)
    ensures
        safe_apply::begin_outcome(
            records,
            operation_id,
            interface_id,
            desired,
            timeout,
        ) is Accepted <==> {
            &&& !text_laws::all_white(operation_id)
            &&& !text_laws::all_white(interface_id)
            &&& 10 <= timeout <= 600
            &&& helper_protocol::state_fault(desired) is None
            &&& forall|i: int|
                0 <= i < records.len() ==> (#[trigger] records[i]).operation_id != operation_id
            &&& forall|i: int|
                0 <= i < records.len() && (#[trigger] records[i]).target_interface == interface_id
                    ==> records[i].state is Confirmed || records[i].state is RolledBack
                    || records[i].state is Failed
        },
{
    text_laws::law_trimming_takes_white_space_away(operation_id);
    text_laws::law_trimming_takes_white_space_away(interface_id);
    law_records_are_found(records, operation_id);
    if safe_apply::interface_busy(records, interface_id) {
        let i = choose|i: int|
            0 <= i < records.len() && safe_apply::pending_state((#[trigger] records[i]).state)
                && records[i].target_interface == interface_id;
        assert(records[i].target_interface == interface_id);
    } else {
        assert forall|i: int|
            0 <= i < records.len() && (#[trigger] records[i]).target_interface
                == interface_id implies records[i].state is Confirmed
            || records[i].state is RolledBack || records[i].state is Failed by {
            assert(!safe_apply::pending_state(records[i].state));
        }
    }
    if forall|i: int|
        0 <= i < records.len() ==> (#[trigger] records[i]).operation_id != operation_id {
        let at = safe_apply::first_record(records, operation_id);
        if at < records.len() {
            assert(records[at].operation_id == operation_id);
        }
    }
}

/// A request is taken for a repetition only where its operation waits for the same interface
/// with the same configuration; then it is answered with that record.
pub proof fn law_repetitions(
    records: Seq<RecordView>,
    operation_id: Seq<char>,
    interface_id: Seq<char>,
    desired: NetworkDesiredState,
    timeout: u64,
)
    ensures
        safe_apply::begin_outcome(
            records,
            operation_id,
            interface_id,
            desired,
            timeout,
        ) matches BeginOutcome::Repeated(at) ==> {
            &&& 0 <= at < records.len()
            &&& records[at].operation_id == operation_id
            &&& records[at].target_interface == interface_id
            &&& records[at].new_state_hash == safe_apply::desired_hash(desired@)
            &&& !(records[at].state is Confirmed || records[at].state is RolledBack
                || records[at].state is Failed)
        },
{
    law_records_are_found(records, operation_id);
}

/// The record of a new operation says what was asked for, under which digests the old and the
/// new state are known, and by when it has to be confirmed: as many seconds from now as were
/// asked for.
pub proof fn law_new_records(request: BeginSafeApply<'_>, snapshot_id: Seq<char>, old_state: Seq<u8>)
    requires
        request.now_unix_seconds + request.confirm_timeout_seconds <= 0xffff_ffff_ffff_ffff,
    ensures
        ({
            let record = safe_apply::prepared_record(request, snapshot_id, old_state);
            &&& record.operation_id == request.operation_id@
            &&& record.target_interface == request.interface_id@
            &&& record.snapshot_id == snapshot_id
            &&& record.deadline == request.now_unix_seconds + request.confirm_timeout_seconds
            &&& record.state is Prepared
            &&& record.old_state_hash == text::hex(digest::sha256_of(old_state), false)
            &&& record.new_state_hash == safe_apply::desired_hash(request.desired_state@)
        }),
{
}

/// An operation expires exactly where it still waits and its deadline is now or earlier.
pub proof fn law_expiry(record: RecordView, now: u64)
    ensures
        safe_apply::record_expired(record, now) <==> record.deadline <= now && (
        record.state is Prepared || record.state is PendingConfirmation
            || record.state is RollingBack),
{
}

/// Moving an operation to another state changes that state and nothing else.
pub proof fn law_only_the_state_changes(
    records: Seq<RecordView>,
    operation_id: Seq<char>,
    state: SafeApplyState,
    i: int,
)
    requires
        safe_apply::records_sound(records),
        safe_apply::first_active(records, operation_id) < records.len(),
        0 <= i < records.len(),
    ensures
        ({
            let after = safe_apply::with_state(records, operation_id, state);
            &&& after.len() == records.len()
            &&& records[i].operation_id != operation_id ==> after[i] == records[i]
            &&& records[i].operation_id == operation_id ==> after[i].state == state
                && after[i].operation_id == operation_id && after[i].target_interface
                == records[i].target_interface && after[i].snapshot_id == records[i].snapshot_id
                && after[i].deadline == records[i].deadline && after[i].old_state_hash
                == records[i].old_state_hash && after[i].new_state_hash
                == records[i].new_state_hash
        }),
{
    law_records_are_found(records, operation_id);
    let a = safe_apply::first_record(records, operation_id);
    let b = safe_apply::first_active(records, operation_id);
    assert(records[b].operation_id == operation_id);
    if a < b {
        assert(records[a].operation_id != records[b].operation_id);
    }
    if records[i].operation_id == operation_id {
        if i < b {
            assert(records[i].operation_id != records[b].operation_id);
        } else if b < i {
            assert(records[b].operation_id != records[i].operation_id);
        }
    }
}

// ---------------------------------------------------------------------------------- resources

/// What is written to bind a device: nothing where it is bound as asked for. Else which driver
/// may take it; then the old driver, where it has one, is told to leave it; and last, where a
/// driver is asked for, one is searched for.
pub proof fn law_binding_writes(
    root: Seq<char>,
    pci_address: Seq<char>,
    current: Option<Seq<char>>,
    target: Option<Seq<char>>,
)
    ensures
        ({
            let w = resources::binding_writes(root, pci_address, current, target);
            &&& current == target <==> w.len() == 0
            &&& current != target ==> {
                &&& w.len() == 1 + (if current is Some {
                    1int
                } else {
                    0int
                }) + (if target is Some {
                    1int
                } else {
                    0int
                })
                &&& w[0].0 == resources::below(
                    resources::device_path(root, pci_address),
                    "driver_override"@,
                )
                &&& target matches Some(t) ==> w[0].1 == t
                &&& target is None ==> w[0].1 == ""@
                &&& current matches Some(c) ==> w[1].1 == pci_address && w[1].0
                    == resources::below(
                    resources::below(resources::below(root, "bus/pci/drivers"@), c),
                    "unbind"@,
                )
                &&& target is Some ==> w.last().1 == pci_address && w.last().0 == resources::below(
                    root,
                    "bus/pci/drivers_probe"@,
                )
            }
        }),
{
}

/// Where the kernel is asked: below the root, with one slash between two parts.
pub proof fn law_places_below_the_root(root: Seq<char>, part: Seq<char>, pci_address: Seq<char>)
    requires
        root.len() > 0,
        root.last() != '/',
    ensures
        resources::below(root, part) == root + "/"@ + part,
        resources::below(root + "/"@, part) == root + "/"@ + part,
        resources::device_path(root, pci_address) == root + "/bus/pci/devices/"@ + pci_address,
{
    reveal_strlit("/");
    reveal_strlit("bus/pci/devices");
    reveal_strlit("/bus/pci/devices/");
    assert("/"@ =~= seq!['/']);
    if text::has_suffix(root, "/"@) {
        assert(root.skip(root.len() - 1)[0] == root.last());
    }
    assert((root + "/"@).skip(root.len() as int) =~= "/"@);
    let base = root + "/"@ + "bus/pci/devices"@;
    if text::has_suffix(base, "/"@) {
        assert(base.skip(base.len() - 1)[0] == base.last());
        assert(base.last() == 's');
    }
    assert(base + "/"@ + pci_address =~= root + "/bus/pci/devices/"@ + pci_address);
}

/// The number of huge pages stands in a file for each size, for the whole system or for one
/// node.
pub proof fn law_places_of_hugepages(root: Seq<char>, node: Option<u32>, page_size_kib: u64)
    requires
        root.len() > 0,
        root.last() != '/',
    ensures
        ({
            let path = resources::hugepage_path(root, node, page_size_kib);
            let file = "/hugepages/hugepages-"@ + text::decimal(page_size_kib as nat)
                + "kB/nr_hugepages"@;
            match node {
                None => path == root + "/kernel/mm"@ + file,
                Some(n) => path == root + "/devices/system/node/node"@ + text::decimal(n as nat)
                    + file,
            }
        }),
{
    reveal_strlit("/");
    reveal_strlit("hugepages/hugepages-");
    reveal_strlit("/hugepages/hugepages-");
    reveal_strlit("kernel/mm");
    reveal_strlit("/kernel/mm");
    reveal_strlit("devices/system/node");
    reveal_strlit("/devices/system/node/node");
    reveal_strlit("node");
    let suffix = "hugepages/hugepages-"@ + text::decimal(page_size_kib as nat) + "kB/nr_hugepages"@;
    lemma_below(root, "kernel/mm"@);
    lemma_below(root, "devices/system/node"@);
    let file = "/hugepages/hugepages-"@ + text::decimal(page_size_kib as nat) + "kB/nr_hugepages"@;
    assert("/"@ + suffix =~= file);
    match node {
        None => {
            let base = root + "/"@ + "kernel/mm"@;
            assert(base.last() == 'm');
            lemma_below(base, suffix);
            assert(base + "/"@ + suffix =~= root + "/kernel/mm"@ + file);
        },
        Some(n) => {
            let base = root + "/"@ + "devices/system/node"@;
            assert(base.last() == 'e');
            let digits = text::decimal(n as nat);
            lemma_below(base, "node"@ + digits);
            let dir = base + "/"@ + ("node"@ + digits);
            text_laws::law_numbers_are_read_back(n as nat, n as nat);
            text::lemma_decimal_value(n as nat);
            assert(dir.last() == digits[digits.len() - 1]);
            lemma_below(dir, suffix);
            assert(dir + "/"@ + suffix =~= root + "/devices/system/node/node"@ + digits + file);
        },
    }
}

proof fn lemma_below(base: Seq<char>, part: Seq<char>)
    requires
        base.len() > 0,
        base.last() != '/',
    ensures
        resources::below(base, part) == base + "/"@ + part,
{
    reveal_strlit("/");
    if text::has_suffix(base, "/"@) {
        assert(base.skip(base.len() - 1)[0] == base.last());
    }
}

/// The record of an interface belongs to a request exactly where both operation and address are
/// the same, and that of huge pages where all that was asked for is.
pub proof fn law_records_of_resources(
    nic: NicSnapshot,
    pages: HugepageSnapshot,
    operation_id: Seq<char>,
    pci_address: Seq<char>,
    node: Option<u32>,
    count: u64,
    page_size_kib: u64,
)
    ensures
        resources::nic_requested(nic, operation_id, pci_address) <==> nic.operation_id@
            == operation_id && nic.pci_address@ == pci_address,
        resources::hugepages_requested(pages, operation_id, node, count, page_size_kib)
            <==> pages.operation_id@ == operation_id && pages.node == node
            && pages.requested_pages == count && pages.page_size_kib == page_size_kib,
{
}

// ----------------------------------------------------------------------------- the hosts file

/// The section of a profile: a line that opens it, a line for each entry in order, and a line
/// that closes it.
pub proof fn law_sections(profile_id: Seq<char>, entries: Seq<ManagedHostsEntry>)
    ensures
        ({
            let ls = hosts::section_lines(profile_id, entries);
            &&& ls.len() == entries.len() + 2
            &&& ls[0] == "# BEGIN NETTOOL PROFILE "@ + profile_id
            &&& ls.last() == "# END NETTOOL PROFILE "@ + profile_id
            &&& forall|i: int|
                0 <= i < entries.len() ==> #[trigger] ls[i + 1] == hosts::entry_line(entries[i])
        }),
{
}

/// The line of an entry: the address and the name, and behind them the comment where there is
/// one. An entry that is not in force stands behind a mark that makes a comment of it.
pub proof fn law_lines_of_entries(entry: ManagedHostsEntry)
    ensures
        ({
            let line = hosts::entry_line(entry);
            let both = entry.address.text() + " "@ + entry.hostname@;
            &&& entry.enabled && entry.comment is None ==> line == both
            &&& !entry.enabled && entry.comment is None ==> line == "# NETTOOL DISABLED "@ + both
            &&& entry.enabled ==> (entry.comment matches Some(c) ==> line == both + " # "@ + c@)
            &&& !entry.enabled ==> (entry.comment matches Some(c) ==> line
                == "# NETTOOL DISABLED "@ + both + " # "@ + c@)
        }),
{
    reveal_strlit("");
    let line = hosts::entry_line(entry);
    let both = entry.address.text() + " "@ + entry.hostname@;
    assert(both + ""@ =~= both);
    match entry.comment {
        Some(c) => {
            assert(both + (" # "@ + c@) =~= both + " # "@ + c@);
            assert("# NETTOOL DISABLED "@ + (both + " # "@ + c@) =~= "# NETTOOL DISABLED "@ + both
                + " # "@ + c@);
        },
        None => {},
    }
}

/// A file keeps the line breaks that it has: those of Windows where it has one of them.
pub proof fn law_line_breaks(existing: Seq<char>, at: int)
    ensures
        0 <= at && at + 1 < existing.len() && existing[at] == '\r' && existing[at + 1] == '\n'
            ==> hosts::line_break(existing) == "\r\n"@,
        (forall|i: int|
            0 <= i && i + 1 < existing.len() ==> !(#[trigger] existing[i] == '\r' && existing[i + 1]
                == '\n')) ==> hosts::line_break(existing) == "\n"@,
{
    reveal_strlit("\r\n");
    let crlf = "\r\n"@;
    assert(crlf.len() == 2 && crlf[0] == '\r' && crlf[1] == '\n');
    if 0 <= at && at + 1 < existing.len() && existing[at] == '\r' && existing[at + 1] == '\n' {
        assert(existing.subrange(at, at + 2) =~= crlf);
        assert(text::occurs_at(existing, crlf, at));
    }
    if text::occurs(existing, crlf) {
        let i = choose|i: int| text::occurs_at(existing, crlf, i);
        assert(existing.subrange(i, i + 2)[0] == existing[i]);
        assert(existing.subrange(i, i + 2)[1] == existing[i + 1]);
    }
}

/// A section is refused where its profile cannot be named, where an entry cannot be written,
/// and where the markers in the file do not stand there once each and in order.
pub proof fn law_sections_that_are_refused(
    existing: Seq<char>,
    profile_id: Seq<char>,
    entries: Seq<ManagedHostsEntry>,
)
    ensures
        hosts::replacement_fault(existing, profile_id, entries) is None ==> {
            &&& profile_id.len() > 0
            &&& forall|i: int|
                0 <= i < profile_id.len() ==> {
                    let c = (#[trigger] profile_id[i]) as u32;
                    request_laws::alphanumeric(c) || c == 0x2d || c == 0x5f
                }
            &&& forall|i: int|
                0 <= i < entries.len() ==> {
                    let name = (#[trigger] entries[i]).hostname@;
                    &&& 0 < name.len()
                    &&& encode_utf8(name).len() <= 253
                    &&& forall|j: int|
                        0 <= j < name.len() ==> {
                            let c = (#[trigger] name[j]) as u32;
                            request_laws::alphanumeric(c) || c == 0x2d || c == 0x2e || c == 0x5f
                        }
                    &&& entries[i].comment matches Some(c) ==> !c@.contains('\r') && !c@.contains(
                        '\n',
                    )
                }
            &&& hosts::positions(
                text::lines(existing),
                "# BEGIN NETTOOL PROFILE "@ + profile_id,
            ).len() <= 1
            &&& hosts::positions(
                text::lines(existing),
                "# BEGIN NETTOOL PROFILE "@ + profile_id,
            ).len() == hosts::positions(
                text::lines(existing),
                "# END NETTOOL PROFILE "@ + profile_id,
            ).len()
        },
{
    if hosts::replacement_fault(existing, profile_id, entries) is None {
        request_laws::lemma_plain(profile_id);
        lemma_entries(entries, entries.len());
        assert forall|i: int| 0 <= i < entries.len() implies {
            let name = (#[trigger] entries[i]).hostname@;
            &&& 0 < name.len()
            &&& encode_utf8(name).len() <= 253
            &&& forall|j: int|
                0 <= j < name.len() ==> {
                    let c = (#[trigger] name[j]) as u32;
                    request_laws::alphanumeric(c) || c == 0x2d || c == 0x2e || c == 0x5f
                }
            &&& entries[i].comment matches Some(c) ==> !c@.contains('\r') && !c@.contains('\n')
        } by {
            assert(hosts::entry_fault(entries[i]) is None);
            request_laws::lemma_plain(entries[i].hostname@);
        }
    }
}

proof fn lemma_entries(entries: Seq<ManagedHostsEntry>, n: nat)
    requires
        n <= entries.len(),
        hosts::first_entry_fault(entries, n) is None,
    ensures
        forall|i: int| 0 <= i < n ==> hosts::entry_fault(#[trigger] entries[i]) is None,
    decreases n,
{
    if n > 0 {
        lemma_entries(entries, (n - 1) as nat);
    }
}

/// A marker is found at exactly the lines that say it, white space around it aside.
pub proof fn law_markers_are_found(ls: Seq<Seq<char>>, marker: Seq<char>)
    ensures
        ({
            let at = hosts::positions(ls, marker);
            &&& forall|k: int|
                0 <= k < at.len() ==> 0 <= #[trigger] at[k] < ls.len() && text::trimmed(ls[at[k]])
                    == marker
            &&& forall|j: int, k: int| 0 <= j < k < at.len() ==> at[j] < at[k]
            &&& forall|i: int|
                0 <= i < ls.len() && text::trimmed(#[trigger] ls[i]) == marker ==> at.contains(i)
        }),
    decreases ls.len(),
{
    if ls.len() > 0 {
        let before = ls.drop_last();
        law_markers_are_found(before, marker);
        let head = hosts::positions(before, marker);
        let at = hosts::positions(ls, marker);
        assert forall|k: int| 0 <= k < at.len() implies 0 <= #[trigger] at[k] < ls.len()
            && text::trimmed(ls[at[k]]) == marker by {
            if k < head.len() {
                assert(at[k] == head[k]);
                assert(before[head[k]] == ls[head[k]]);
            } else {
                assert(ls[ls.len() - 1] == ls.last());
            }
        }
        assert forall|i: int|
            0 <= i < ls.len() && text::trimmed(#[trigger] ls[i]) == marker implies at.contains(
            i,
        ) by {
            if i < before.len() {
                assert(before[i] == ls[i]);
                assert(head.contains(i));
                let k = choose|k: int| 0 <= k < head.len() && head[k] == i;
                assert(at[k] == i);
            } else {
                assert(at[head.len() as int] == i);
            }
        }
    }
}

// ------------------------------------------------------------------------------- the platforms

/// A snapshot is identified by 64 hexadecimal digits.
pub proof fn law_identifiers_of_snapshots(id: Seq<char>)
    ensures
        platform::snapshot_id_valid(id) <==> {
            &&& id.len() == 64
            &&& forall|i: int|
                0 <= i < 64 ==> request_laws::hexadecimal((#[trigger] id[i]) as u32)
        },
{
}

/// A snapshot is restored only where it is of the one version and comes from the same platform.
pub proof fn law_snapshots_that_are_restored(backend: PlatformBackend, snapshot: PlatformSnapshot)
    ensures
        platform::restore_fault(backend, snapshot) is None <==> snapshot.version == 1
            && snapshot.backend == backend && platform::platform_fault(
            backend,
            snapshot.interface_id@,
            snapshot.state,
        ) is None,
{
}

} // verus!
