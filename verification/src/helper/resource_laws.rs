//! What holds of handing an interface over and giving it back, and of setting huge pages up and
//! releasing them, on a machine that does as it is told and a store that answers with what it
//! keeps.

use crate::error::NetToolError;
use crate::helper::machine::MachineStep;
use crate::helper::resources;
use crate::helper::resources::{
    HugepageSnapshot, HugepageView, KernelFault, NicSnapshot, NicView, ValueResult,
    WriteView, RESOURCE_STATE_VERSION,
};
use crate::text;
use vstd::prelude::*;
use vstd::utf8::*;

verus! {

// ------------------------------------------------------------------------------- the machine

/// A device: which driver is preferred for it, and which one it has.
#[verifier::ext_equal]
pub struct DeviceView {
    /// What its override holds.
    pub preferred: Seq<char>,
    /// Its driver.
    pub driver: Option<Seq<char>>,
}

/// What a write makes of a device: it sets the override, takes the driver away, or searches a
/// driver for a device that has none, which finds the preferred one.
pub open spec fn device_written(
    device: DeviceView,
    root: Seq<char>,
    pci_address: Seq<char>,
    path: Seq<char>,
    value: Seq<u8>,
) -> DeviceView {
    if path == resources::below(
        resources::device_path(root, pci_address),
        "driver_override"@,
    ) {
        DeviceView { preferred: decode_utf8(value), ..device }
    } else if value != encode_utf8(pci_address) {
        device
    } else {
        match device.driver {
            None => if path == resources::below(root, "bus/pci/drivers_probe"@) {
                DeviceView { driver: Some(device.preferred), ..device }
            } else {
                device
            },
            Some(driver) => if path == resources::below(
                resources::below(resources::below(root, "bus/pci/drivers"@), driver),
                "unbind"@,
            ) {
                DeviceView { driver: None, ..device }
            } else {
                device
            },
        }
    }
}

/// What calls make of a device.
pub open spec fn device_after(
    device: DeviceView,
    root: Seq<char>,
    pci_address: Seq<char>,
    steps: Seq<MachineStep>,
) -> DeviceView
    decreases steps.len(),
{
    if steps.len() == 0 {
        device
    } else {
        let sofar = device_after(device, root, pci_address, steps.drop_last());
        match steps.last() {
            MachineStep::Write(path, value, Ok(_)) => device_written(
                sofar,
                root,
                pci_address,
                path,
                value,
            ),
            _ => sofar,
        }
    }
}

/// Whether a link shows which driver a device has.
pub open spec fn shows_driver(
    link: Result<String, KernelFault>,
    driver: Option<Seq<char>>,
) -> bool {
    match link {
        Ok(target) => driver is Some && resources::last_part(target@) == driver,
        Err(fault) => driver is None && fault.not_found,
    }
}

/// Whether the machine does as it is told, from a point of a log on at which a device is known:
/// every write succeeds, and the link of the device shows the driver that it then has.
pub open spec fn device_obeys(
    device: DeviceView,
    root: Seq<char>,
    pci_address: Seq<char>,
    start: int,
    log: Seq<MachineStep>,
) -> bool {
    forall|i: int|
        start <= i < log.len() ==> match #[trigger] log[i] {
            MachineStep::Write(_, _, r) => r is Ok,
            MachineStep::Link(path, link) => path == resources::below(
                resources::device_path(root, pci_address),
                "driver"@,
            ) ==> shows_driver(
                link,
                device_after(device, root, pci_address, log.subrange(start, i)).driver,
            ),
            _ => true,
        }
}

/// What calls make of the contents of a file.
pub open spec fn file_after(contents: Seq<char>, path: Seq<char>, steps: Seq<MachineStep>) -> Seq<
    char,
>
    decreases steps.len(),
{
    if steps.len() == 0 {
        contents
    } else {
        let sofar = file_after(contents, path, steps.drop_last());
        match steps.last() {
            MachineStep::Write(p, value, Ok(_)) => if p == path {
                decode_utf8(value)
            } else {
                sofar
            },
            _ => sofar,
        }
    }
}

/// Whether the machine does as it is told, from a point of a log on at which the contents of a
/// file are known: every write succeeds, and the file reads as what it holds, but for blanks
/// around it.
pub open spec fn file_obeys(
    contents: Seq<char>,
    path: Seq<char>,
    start: int,
    log: Seq<MachineStep>,
) -> bool {
    forall|i: int|
        start <= i < log.len() ==> match #[trigger] log[i] {
            MachineStep::Write(_, _, r) => r is Ok,
            MachineStep::Read(p, r) => p == path ==> (r matches Ok(printed) && text::trimmed(
                printed@,
            ) == text::trimmed(file_after(contents, path, log.subrange(start, i)))),
            _ => true,
        }
}

// --------------------------------------------------------------------------------- the store

/// The record of an interface that was kept last under a name.
pub open spec fn kept_nic(log: Seq<MachineStep>, name: Seq<char>) -> Option<NicView>
    decreases log.len(),
{
    if log.len() == 0 {
        None
    } else {
        match log.last() {
            MachineStep::SaveNic(n, record, Ok(_)) => if n == name {
                Some(record@)
            } else {
                kept_nic(log.drop_last(), name)
            },
            _ => kept_nic(log.drop_last(), name),
        }
    }
}

/// Whether the store does as it is told from a point of a log on: a record of an interface is
/// kept, and whoever asks for it gets the one that was kept last.
pub open spec fn nic_store_obeys(start: int, log: Seq<MachineStep>, name: Seq<char>) -> bool {
    forall|i: int|
        start <= i < log.len() ==> match #[trigger] log[i] {
            MachineStep::SaveNic(n, _, r) => n == name ==> r is Ok,
            MachineStep::LoadNic(n, r) => n == name ==> match kept_nic(log.take(i), name) {
                Some(kept) => r matches Ok(record) && record@ == kept,
                None => true,
            },
            MachineStep::FindNic(n, r) => n == name ==> match kept_nic(log.take(i), name) {
                Some(kept) => r matches Ok(Some(record)) && record@ == kept,
                None => true,
            },
            _ => true,
        }
}

/// The record of huge pages that was kept last under a name.
pub open spec fn kept_hugepages(log: Seq<MachineStep>, name: Seq<char>) -> Option<HugepageView>
    decreases log.len(),
{
    if log.len() == 0 {
        None
    } else {
        match log.last() {
            MachineStep::SaveHugepages(n, record, Ok(_)) => if n == name {
                Some(record@)
            } else {
                kept_hugepages(log.drop_last(), name)
            },
            _ => kept_hugepages(log.drop_last(), name),
        }
    }
}

/// Whether the store does as it is told from a point of a log on: a record of huge pages is
/// kept, and whoever asks for it gets the one that was kept last.
pub open spec fn hugepage_store_obeys(start: int, log: Seq<MachineStep>, name: Seq<char>) -> bool {
    forall|i: int|
        start <= i < log.len() ==> match #[trigger] log[i] {
            MachineStep::SaveHugepages(n, _, r) => n == name ==> r is Ok,
            MachineStep::LoadHugepages(n, r) => n == name ==> match kept_hugepages(
                log.take(i),
                name,
            ) {
                Some(kept) => r matches Ok(record) && record@ == kept,
                None => true,
            },
            MachineStep::FindHugepages(n, r) => n == name ==> match kept_hugepages(
                log.take(i),
                name,
            ) {
                Some(kept) => r matches Ok(Some(record)) && record@ == kept,
                None => true,
            },
            _ => true,
        }
}

// ----------------------------------------------------------------------------------- binding

proof fn lemma_below_ends(base: Seq<char>, rest: Seq<char>)
    ensures
        resources::below(base, rest).len() >= rest.len(),
        forall|k: int|
            0 <= k < rest.len() ==> resources::below(base, rest)[resources::below(base, rest).len()
                - rest.len() + k] == #[trigger] rest[k],
{
}

/// The files that bind a device differ.
proof fn lemma_paths_differ(root: Seq<char>, pci_address: Seq<char>, driver: Seq<char>)
    ensures
        ({
            let overriding = resources::below(
                resources::device_path(root, pci_address),
                "driver_override"@,
            );
            let search = resources::below(root, "bus/pci/drivers_probe"@);
            let release = resources::below(
                resources::below(resources::below(root, "bus/pci/drivers"@), driver),
                "unbind"@,
            );
            &&& overriding != search
            &&& overriding != release
        }),
{
    reveal_strlit("driver_override");
    reveal_strlit("bus/pci/drivers_probe");
    reveal_strlit("unbind");
    let overriding = resources::below(
        resources::device_path(root, pci_address),
        "driver_override"@,
    );
    let search = resources::below(root, "bus/pci/drivers_probe"@);
    let release = resources::below(
        resources::below(resources::below(root, "bus/pci/drivers"@), driver),
        "unbind"@,
    );
    lemma_below_ends(resources::device_path(root, pci_address), "driver_override"@);
    lemma_below_ends(root, "bus/pci/drivers_probe"@);
    lemma_below_ends(
        resources::below(resources::below(root, "bus/pci/drivers"@), driver),
        "unbind"@,
    );
    assert("driver_override"@[13] == 'd');
    assert("driver_override"@[14] == 'e');
    assert("bus/pci/drivers_probe"@[19] == 'b');
    assert("unbind"@[5] == 'd');
    assert(overriding[overriding.len() - 2] == 'd');
    assert(overriding[overriding.len() - 1] == 'e');
    assert(search[search.len() - 2] == 'b');
    assert(release[release.len() - 1] == 'd');
}

proof fn lemma_one_more(
    device: DeviceView,
    root: Seq<char>,
    pci_address: Seq<char>,
    start: int,
    log: Seq<MachineStep>,
    i: int,
)
    requires
        0 <= start <= i < log.len(),
    ensures
        ({
            let sofar = device_after(device, root, pci_address, log.subrange(start, i));
            device_after(device, root, pci_address, log.subrange(start, i + 1)) == match log[i] {
                MachineStep::Write(path, value, Ok(_)) => device_written(
                    sofar,
                    root,
                    pci_address,
                    path,
                    value,
                ),
                _ => sofar,
            }
        }),
{
    assert(log.subrange(start, i + 1).drop_last() =~= log.subrange(start, i));
}

/// Binding a device succeeds on a machine that does as it is told, and the device then has the
/// driver.
proof fn lemma_bound(
    device: DeviceView,
    root: Seq<char>,
    pci_address: Seq<char>,
    start: int,
    log: Seq<MachineStep>,
    a: int,
    b: int,
    target: Option<Seq<char>>,
    r: Result<(), NetToolError>,
)
    requires
        0 <= start <= a <= b <= log.len(),
        resources::bound(log.take(a), log.take(b), root, pci_address, target, r),
        device_obeys(device, root, pci_address, start, log),
    ensures
        r is Ok,
        device_after(device, root, pci_address, log.subrange(start, b)).driver == target,
{
    let from = log.take(a);
    let to = log.take(b);
    let link_path = resources::below(resources::device_path(root, pci_address), "driver"@);
    let (middle, first) = choose|
        middle: Seq<MachineStep>,
        first: Result<Option<String>, NetToolError>,
    | #[trigger]
        resources::driver_read(from, middle, root, pci_address, first) && match first {
            Ok(current) => if text::optional(current) == target {
                r is Ok && to == middle
            } else {
                resources::rebound(
                    middle,
                    to,
                    root,
                    pci_address,
                    text::optional(current),
                    target,
                    r,
                )
            },
            Err(e) => to == middle && r == Err::<(), NetToolError>(e),
        };
    let link = choose|link: Result<String, KernelFault>|
        middle == #[trigger] from.push(MachineStep::Link(link_path, link))
            && resources::is_driver(link, first);
    assert(middle.is_prefix_of(to));
    assert(to[a] == middle[a]);
    assert(log[a] == MachineStep::Link(link_path, link));
    let found = device_after(device, root, pci_address, log.subrange(start, a));
    assert(shows_driver(link, found.driver));
    assert(first is Ok);
    let current = text::optional(first->Ok_0);
    assert(current == found.driver);
    lemma_one_more(device, root, pci_address, start, log, a);
    if current == target {
        assert(b == a + 1);
    } else {
        assert(middle =~= log.take(a + 1));
        lemma_rebound(device, root, pci_address, start, log, a + 1, b, current, target, r);
    }
}

/// Moving a device from one driver to another succeeds on a machine that does as it is told.
#[verifier::spinoff_prover]
proof fn lemma_rebound(
    device: DeviceView,
    root: Seq<char>,
    pci_address: Seq<char>,
    start: int,
    log: Seq<MachineStep>,
    a: int,
    b: int,
    current: Option<Seq<char>>,
    target: Option<Seq<char>>,
    r: Result<(), NetToolError>,
)
    requires
        0 <= start <= a <= b <= log.len(),
        current != target,
        resources::rebound(log.take(a), log.take(b), root, pci_address, current, target, r),
        device_obeys(device, root, pci_address, start, log),
        device_after(device, root, pci_address, log.subrange(start, a)).driver == current,
    ensures
        r is Ok,
        device_after(device, root, pci_address, log.subrange(start, b)).driver == target,
{
    let from = log.take(a);
    let to = log.take(b);
    let link_path = resources::below(resources::device_path(root, pci_address), "driver"@);
    let writes = resources::binding_writes(root, pci_address, current, target);
    let (written, answers) = choose|
        written: Seq<MachineStep>,
        answers: Seq<Result<(), KernelFault>>,
    | #[trigger]
        resources::written(from, written, writes, answers) && if answers.len() > 0
            && answers.last() is Err {
            to == written && (r matches Err(e) && resources::is_kernel_error(
                writes[answers.len() - 1].2,
                answers.last()->Err_0,
                e,
            ))
        } else {
            answers.len() == writes.len() && resources::read_back(
                written,
                to,
                root,
                pci_address,
                target,
                r,
            )
        };
    let n = answers.len() as int;
    let steps = resources::writes_of(writes, answers);
    assert(written == from + steps);
    assert(written.is_prefix_of(to));
    assert forall|i: int| #![trigger log[a + i]] 0 <= i < n implies log[a + i]
        == MachineStep::Write(writes[i].0, encode_utf8(writes[i].1), Ok(())) by {
        assert(written[a + i] == steps[i]);
        assert(to[a + i] == written[a + i]);
        assert(log[a + i] == to[a + i]);
        assert(answers[i] is Ok);
        assert(answers[i]->Ok_0 == ());
    }
    if n > 0 {
        let i = n - 1;
        assert(written[a + i] == steps[i]);
        assert(to[a + i] == written[a + i]);
        assert(log[a + i] == to[a + i]);
        assert(answers[i] is Ok);
    }
    assert(n == writes.len());
    lemma_writes_bind(device, root, pci_address, start, log, a, current, target, writes);
    let second = choose|second: Result<Option<String>, NetToolError>| #[trigger]
        resources::driver_read(written, to, root, pci_address, second) && match second {
            Ok(actual) => resources::is_bound(text::optional(actual), target, r),
            Err(e) => r == Err::<(), NetToolError>(e),
        };
    let again = choose|again: Result<String, KernelFault>|
        to == #[trigger] written.push(MachineStep::Link(link_path, again))
            && resources::is_driver(again, second);
    let last = a + n;
    assert(to[last] == MachineStep::Link(link_path, again));
    assert(log[last] == to[last]);
    assert(b == last + 1);
    assert(shows_driver(
        again,
        device_after(device, root, pci_address, log.subrange(start, last)).driver,
    ));
    lemma_one_more(device, root, pci_address, start, log, last);
}

/// The writes that bind a device bind it.
proof fn lemma_writes_bind(
    device: DeviceView,
    root: Seq<char>,
    pci_address: Seq<char>,
    start: int,
    log: Seq<MachineStep>,
    at: int,
    current: Option<Seq<char>>,
    target: Option<Seq<char>>,
    writes: Seq<WriteView>,
)
    requires
        0 <= start <= at,
        current != target,
        writes == resources::binding_writes(root, pci_address, current, target),
        at + writes.len() <= log.len(),
        device_after(device, root, pci_address, log.subrange(start, at)).driver == current,
        forall|i: int|
            #![trigger log[at + i]]
            0 <= i < writes.len() ==> log[at + i] == MachineStep::Write(
                writes[i].0,
                encode_utf8(writes[i].1),
                Ok(()),
            ),
    ensures
        device_after(
            device,
            root,
            pci_address,
            log.subrange(start, at + writes.len()),
        ).driver == target,
{
    let wanted = match target {
        Some(t) => t,
        None => ""@,
    };
    encode_utf8_decode_utf8(wanted);
    assert(log[at + 0] is Write);
    lemma_one_more(device, root, pci_address, start, log, at);
    let s1 = device_after(device, root, pci_address, log.subrange(start, at + 1));
    assert(s1.preferred == wanted);
    assert(s1.driver == current);
    lemma_paths_differ(
        root,
        pci_address,
        match current {
            Some(c) => c,
            None => Seq::empty(),
        },
    );
    if current is Some {
        assert(log[at + 1] is Write);
        lemma_one_more(device, root, pci_address, start, log, at + 1);
        let s2 = device_after(device, root, pci_address, log.subrange(start, at + 2));
        assert(s2.driver is None);
        assert(s2.preferred == wanted);
        if target is Some {
            assert(log[at + 2] is Write);
            lemma_one_more(device, root, pci_address, start, log, at + 2);
        }
    } else {
        assert(log[at + 1] is Write);
        lemma_one_more(device, root, pci_address, start, log, at + 1);
    }
}

// -------------------------------------------------------------------------------- interfaces

/// What is known of an interface that was handed over: which record is kept of it, and where
/// that comes from.
proof fn lemma_handed_over(
    from: Seq<MachineStep>,
    to: Seq<MachineStep>,
    root: Seq<char>,
    operation_id: Seq<char>,
    pci_address: Seq<char>,
    found: ValueResult,
)
    requires
        resources::nic_prepared(from, to, root, operation_id, pci_address, Ok(found)),
    ensures
        from.len() < to.len(),
        from.is_prefix_of(to),
        to[from.len() as int] matches MachineStep::FindNic(name, Ok(earlier)) && name
            == resources::record_name("nic"@, operation_id) && (kept_nic(
            to,
            resources::record_name("nic"@, operation_id),
        ) matches Some(kept) && {
            &&& kept.operation_id == operation_id
            &&& kept.pci_address == pci_address
            &&& kept.original_driver == text::optional(found.original_driver)
            &&& !kept.released
            &&& match earlier {
                Some(record) => kept == record@,
                None => {
                    &&& kept.version == RESOURCE_STATE_VERSION
                    &&& from.len() + 1 < to.len()
                    &&& to[from.len() as int + 1] matches MachineStep::Link(path, link) && path
                        == resources::below(
                        resources::device_path(root, pci_address),
                        "driver"@,
                    ) && exists|original: Option<String>| #[trigger]
                        resources::is_driver(link, Ok(original)) && text::optional(original)
                            == kept.original_driver
                },
            }
        }),
{
    let r = Ok::<ValueResult, NetToolError>(found);
    let name = resources::record_name("nic"@, operation_id);
    let n = from.len() as int;
    let (middle, recorded) = choose|
        middle: Seq<MachineStep>,
        recorded: Result<NicSnapshot, NetToolError>,
    | #[trigger]
        resources::nic_recorded(from, middle, root, operation_id, pci_address, recorded)
            && match recorded {
            Ok(snapshot) => resources::nic_handed_over(
                middle,
                to,
                root,
                operation_id,
                pci_address,
                snapshot,
                r,
            ),
            Err(e) => to == middle && r == Err::<ValueResult, NetToolError>(e),
        };
    let snapshot = recorded->Ok_0;
    let dpdk = Some(resources::DPDK_DRIVER@);
    let (bound, done) = choose|bound: Seq<MachineStep>, done: Result<(), NetToolError>| #[trigger]
        resources::bound(middle, bound, root, pci_address, dpdk, done) && match done {
            Ok(_) => resources::nic_reported(bound, to, name, snapshot, dpdk, r),
            Err(e) => to == bound && r == Err::<ValueResult, NetToolError>(e),
        };
    assert(middle.is_prefix_of(bound));
    let saved = choose|saved: Result<(), NetToolError>|
        to == #[trigger] bound.push(MachineStep::SaveNic(name, snapshot, saved)) && match saved {
            Ok(_) => resources::is_nic_report(
                text::optional(snapshot.original_driver),
                dpdk,
                r,
            ),
            Err(e) => r == Err::<ValueResult, NetToolError>(e),
        };
    assert(saved is Ok);
    assert(to.last() == MachineStep::SaveNic(name, snapshot, saved));
    assert(kept_nic(to, name) == Some(snapshot@));
    let found_record = choose|found_record: Result<Option<NicSnapshot>, NetToolError>|
        {
            let behind = #[trigger] from.push(MachineStep::FindNic(name, found_record));
            match found_record {
                Ok(Some(existing)) => middle == behind && exists|
                    decided: Result<(), NetToolError>,
                | #[trigger]
                    resources::is_decided(
                        resources::nic_requested(existing, operation_id, pci_address),
                        existing.released,
                        "NIC prepare operation was already released"@,
                        decided,
                    ) && match decided {
                        Ok(_) => recorded == Ok::<NicSnapshot, NetToolError>(existing),
                        Err(e) => recorded == Err::<NicSnapshot, NetToolError>(e),
                    },
                Ok(None) => resources::nic_newly_recorded(
                    behind,
                    middle,
                    root,
                    operation_id,
                    pci_address,
                    recorded,
                ),
                Err(e) => middle == behind && recorded == Err::<NicSnapshot, NetToolError>(e),
            }
        };
    let behind = from.push(MachineStep::FindNic(name, found_record));
    assert(behind.is_prefix_of(middle));
    assert(to[n] == bound[n]);
    assert(bound[n] == middle[n]);
    assert(middle[n] == behind[n]);
    assert(from =~= to.subrange(0, n));
    if found_record->Ok_0 is None {
        let (read, driver) = choose|
            read: Seq<MachineStep>,
            driver: Result<Option<String>, NetToolError>,
        | #[trigger]
            resources::driver_read(behind, read, root, pci_address, driver) && match driver {
                Ok(original) => exists|fresh: NicSnapshot, kept: Result<(), NetToolError>|
                    middle == #[trigger] read.push(MachineStep::SaveNic(name, fresh, kept))
                        && fresh.version == RESOURCE_STATE_VERSION && fresh.operation_id@
                        == operation_id && fresh.pci_address@ == pci_address
                        && fresh.original_driver == original && !fresh.released && match kept {
                        Ok(_) => recorded == Ok::<NicSnapshot, NetToolError>(fresh),
                        Err(e) => recorded == Err::<NicSnapshot, NetToolError>(e),
                    },
                Err(e) => middle == read && recorded == Err::<NicSnapshot, NetToolError>(e),
            };
        assert(read.len() == n + 2);
        assert(read.is_prefix_of(middle));
        assert(to[n + 1] == bound[n + 1]);
        assert(bound[n + 1] == middle[n + 1]);
        assert(middle[n + 1] == read[n + 1]);
        assert(driver is Ok);
        assert(text::optional(driver->Ok_0) == snapshot@.original_driver);
    }
}

/// Handing an interface over again leaves the record that is kept of it as it is.
pub proof fn law_handing_over_again_keeps_the_record(
    from: Seq<MachineStep>,
    to: Seq<MachineStep>,
    root: Seq<char>,
    operation_id: Seq<char>,
    pci_address: Seq<char>,
    found: ValueResult,
)
    requires
        resources::nic_prepared(from, to, root, operation_id, pci_address, Ok(found)),
        kept_nic(from, resources::record_name("nic"@, operation_id)) is Some,
        nic_store_obeys(
            from.len() as int,
            to,
            resources::record_name("nic"@, operation_id),
        ),
    ensures
        kept_nic(to, resources::record_name("nic"@, operation_id)) == kept_nic(
            from,
            resources::record_name("nic"@, operation_id),
        ),
        text::optional(found.original_driver) == kept_nic(
            from,
            resources::record_name("nic"@, operation_id),
        )->0.original_driver,
{
    lemma_handed_over(from, to, root, operation_id, pci_address, found);
    assert(to.take(from.len() as int) =~= from);
    assert(to[from.len() as int] is FindNic);
}

/// What restoring comes to, by the record that the store answers with.
proof fn lemma_nic_restored(
    from: Seq<MachineStep>,
    to: Seq<MachineStep>,
    root: Seq<char>,
    operation_id: Seq<char>,
    pci_address: Seq<char>,
    r: Result<ValueResult, NetToolError>,
    kept: NicView,
)
    requires
        resources::nic_restored(from, to, root, operation_id, pci_address, r),
        kept_nic(from, resources::record_name("nic"@, operation_id)) == Some(kept),
        nic_store_obeys(from.len() as int, to, resources::record_name("nic"@, operation_id)),
        kept.version == RESOURCE_STATE_VERSION,
        kept.operation_id == operation_id,
    ensures
        from.len() < to.len(),
        from.is_prefix_of(to),
        if kept.pci_address != pci_address {
            &&& to.len() == from.len() + 1
            &&& resources::nothing_written(from, to)
            &&& r matches Err(e) && resources::is_conflict(e)
        } else if kept.released {
            &&& to.len() == from.len() + 1
            &&& resources::nothing_written(from, to)
            &&& resources::is_nic_report(kept.original_driver, kept.original_driver, r)
        } else {
            exists|snapshot: NicSnapshot|
                snapshot@ == kept && #[trigger] resources::nic_rebound(
                    to.take(from.len() as int + 1),
                    to,
                    root,
                    snapshot,
                    r,
                ) && !(to[from.len() as int] is SaveNic)
        },
{
    let n = from.len() as int;
    let name = resources::record_name("nic"@, operation_id);
    let loaded = choose|loaded: Result<NicSnapshot, NetToolError>|
        {
            let behind = #[trigger] from.push(MachineStep::LoadNic(name, loaded));
            match loaded {
                Ok(snapshot) => {
                    let original = text::optional(snapshot.original_driver);
                    if snapshot.version != RESOURCE_STATE_VERSION || snapshot.operation_id@
                        != operation_id || snapshot.pci_address@ != pci_address {
                        to == behind && (r matches Err(e) && resources::is_conflict(e))
                    } else if snapshot.released {
                        to == behind && resources::is_nic_report(original, original, r)
                    } else {
                        resources::nic_rebound(behind, to, root, snapshot, r)
                    }
                },
                Err(e) => to == behind && r == Err::<ValueResult, NetToolError>(e),
            }
        };
    let behind = from.push(MachineStep::LoadNic(name, loaded));
    if loaded is Ok && loaded->Ok_0.version == RESOURCE_STATE_VERSION
        && loaded->Ok_0.operation_id@ == operation_id && loaded->Ok_0.pci_address@ == pci_address
        && !loaded->Ok_0.released {
        lemma_rebound_grows(behind, to, root, loaded->Ok_0, r);
    }
    assert(behind.is_prefix_of(to));
    assert(to[n] == behind[n]);
    assert(to.take(n) =~= from);
    assert(to.take(n + 1) =~= behind);
    assert(loaded matches Ok(snapshot) && snapshot@ == kept);
}

proof fn lemma_rebound_grows(
    from: Seq<MachineStep>,
    to: Seq<MachineStep>,
    root: Seq<char>,
    snapshot: NicSnapshot,
    r: Result<ValueResult, NetToolError>,
)
    requires
        resources::nic_rebound(from, to, root, snapshot, r),
    ensures
        from.is_prefix_of(to),
{
}

/// Giving a recorded interface back succeeds on a machine that does as it is told.
#[verifier::spinoff_prover]
proof fn lemma_given_back(
    device: DeviceView,
    root: Seq<char>,
    pci_address: Seq<char>,
    start: int,
    log: Seq<MachineStep>,
    a: int,
    name: Seq<char>,
    snapshot: NicSnapshot,
    r: Result<ValueResult, NetToolError>,
)
    requires
        0 <= start <= a <= log.len(),
        resources::nic_rebound(log.take(a), log, root, snapshot, r),
        snapshot.pci_address@ == pci_address,
        name == resources::record_name("nic"@, snapshot.operation_id@),
        device_obeys(device, root, pci_address, start, log),
        nic_store_obeys(start, log, name),
    ensures
        resources::is_nic_report(
            text::optional(snapshot.original_driver),
            text::optional(snapshot.original_driver),
            r,
        ),
        device_after(device, root, pci_address, log.skip(start)).driver == text::optional(
            snapshot.original_driver,
        ),
        kept_nic(log, name) == Some(NicView { released: true, ..snapshot@ }),
{
    let behind = log.take(a);
    let original = text::optional(snapshot.original_driver);
    let (bound, done) = choose|bound: Seq<MachineStep>, done: Result<(), NetToolError>| #[trigger]
        resources::bound(
            behind,
            bound,
            root,
            snapshot.pci_address@,
            text::optional(snapshot.original_driver),
            done,
        ) && match done {
            Ok(_) => resources::nic_given_back(bound, log, root, snapshot, r),
            Err(e) => log == bound && r == Err::<ValueResult, NetToolError>(e),
        };
    assert(behind.is_prefix_of(bound));
    assert(bound.is_prefix_of(log));
    let m = bound.len() as int;
    assert(bound =~= log.take(m));
    lemma_bound(device, root, pci_address, start, log, a, m, original, done);
    let path = resources::below(resources::device_path(root, pci_address), "driver_override"@);
    let cleared = choose|cleared: Result<(), KernelFault>|
        {
            let after = #[trigger] bound.push(
                MachineStep::Write(path, encode_utf8("\n"@), cleared),
            );
            match cleared {
                Ok(_) => resources::nic_reported(
                    after,
                    log,
                    name,
                    NicSnapshot { released: true, ..snapshot },
                    original,
                    r,
                ),
                Err(fault) => log == after && (r matches Err(e) && resources::is_kernel_error(
                    "clear PCI driver override"@,
                    fault,
                    e,
                )),
            }
        };
    let after = bound.push(MachineStep::Write(path, encode_utf8("\n"@), cleared));
    assert(after.is_prefix_of(log));
    assert(log[m] == after[m]);
    assert(log[m] is Write);
    assert(cleared is Ok);
    let released = NicSnapshot { released: true, ..snapshot };
    let saved = choose|saved: Result<(), NetToolError>|
        log == #[trigger] after.push(MachineStep::SaveNic(name, released, saved)) && match saved {
            Ok(_) => resources::is_nic_report(original, original, r),
            Err(e) => r == Err::<ValueResult, NetToolError>(e),
        };
    assert(log[m + 1] == MachineStep::SaveNic(name, released, saved));
    assert(saved is Ok);
    assert(log.last() == log[m + 1]);
    assert(kept_nic(log, name) == Some(released@));
    assert(released@ =~= (NicView { released: true, ..snapshot@ }));
    lemma_one_more(device, root, pci_address, start, log, m);
    lemma_one_more(device, root, pci_address, start, log, m + 1);
    assert(log.subrange(start, m + 2) =~= log.skip(start));
}

/// An interface that is given back after it was handed over has the driver again that it was
/// found with, on a machine that does as it is told and with a store that keeps what it is
/// given: giving it back succeeds, and reports that driver. Where nothing was recorded before,
/// that is the driver that the interface had before it was handed over. Giving it back once
/// more reports the same and writes nothing to the kernel; so does giving another interface
/// back under the same operation, which is refused.
///
/// A record that was there before has to have the version that is known here.
pub proof fn law_nic_round_trip(
    device: DeviceView,
    before: Seq<MachineStep>,
    prepared: Seq<MachineStep>,
    later: Seq<MachineStep>,
    restored: Seq<MachineStep>,
    next: Seq<MachineStep>,
    root: Seq<char>,
    operation_id: Seq<char>,
    pci_address: Seq<char>,
    address: Seq<char>,
    found: ValueResult,
    r: Result<ValueResult, NetToolError>,
    answer: Result<ValueResult, NetToolError>,
)
    requires
        resources::nic_prepared(before, prepared, root, operation_id, pci_address, Ok(found)),
        prepared[before.len() as int] matches MachineStep::FindNic(_, Ok(Some(earlier)))
            ==> earlier.version == RESOURCE_STATE_VERSION,
        prepared.is_prefix_of(later),
        kept_nic(later, resources::record_name("nic"@, operation_id)) == kept_nic(
            prepared,
            resources::record_name("nic"@, operation_id),
        ),
        resources::nic_restored(later, restored, root, operation_id, pci_address, r),
        device_obeys(device, root, pci_address, before.len() as int, restored),
        nic_store_obeys(
            before.len() as int,
            restored,
            resources::record_name("nic"@, operation_id),
        ),
    ensures
        resources::is_nic_report(
            text::optional(found.original_driver),
            text::optional(found.original_driver),
            r,
        ),
        device_after(
            device,
            root,
            pci_address,
            restored.skip(before.len() as int),
        ).driver == text::optional(found.original_driver),
        prepared[before.len() as int] matches MachineStep::FindNic(_, Ok(None))
            ==> text::optional(found.original_driver) == device.driver,
        resources::nic_restored(restored, next, root, operation_id, address, answer)
            && nic_store_obeys(
            before.len() as int,
            next,
            resources::record_name("nic"@, operation_id),
        ) ==> {
            &&& resources::nothing_written(restored, next)
            &&& if address == pci_address {
                resources::is_nic_report(
                    text::optional(found.original_driver),
                    text::optional(found.original_driver),
                    answer,
                )
            } else {
                answer matches Err(e) && resources::is_conflict(e)
            }
        },
        resources::nic_restored(later, next, root, operation_id, address, answer)
            && nic_store_obeys(
            before.len() as int,
            next,
            resources::record_name("nic"@, operation_id),
        ) && address != pci_address ==> {
            &&& resources::nothing_written(later, next)
            &&& answer matches Err(e) && resources::is_conflict(e)
        },
{
    let name = resources::record_name("nic"@, operation_id);
    let start = before.len() as int;
    let a = later.len() as int;
    let log = restored;
    lemma_handed_over(before, prepared, root, operation_id, pci_address, found);
    let kept = kept_nic(prepared, name)->0;
    assert(kept.version == RESOURCE_STATE_VERSION);
    let original = kept.original_driver;
    lemma_nic_restored(later, restored, root, operation_id, pci_address, r, kept);
    let snapshot = choose|snapshot: NicSnapshot|
        snapshot@ == kept && #[trigger] resources::nic_rebound(
            restored.take(a + 1),
            restored,
            root,
            snapshot,
            r,
        );
    lemma_given_back(device, root, pci_address, start, log, a + 1, name, snapshot, r);
    // What the interface was found with.
    if let MachineStep::FindNic(_, Ok(None)) = prepared[start] {
        assert(prepared.is_prefix_of(log)) by {
            assert(later.is_prefix_of(log));
        }
        assert(log[start] == prepared[start]);
        assert(log[start + 1] == prepared[start + 1]);
        lemma_one_more(device, root, pci_address, start, log, start);
        assert(log.subrange(start, start) =~= Seq::<MachineStep>::empty());
        assert(log[start + 1] is Link);
    }
    // What comes behind.
    if resources::nic_restored(restored, next, root, operation_id, address, answer)
        && nic_store_obeys(start, next, name) {
        lemma_nic_restored(restored, next, root, operation_id, address, answer, NicView { released: true, ..kept });
    }
    if resources::nic_restored(later, next, root, operation_id, address, answer)
        && nic_store_obeys(start, next, name) && address != pci_address {
        lemma_nic_restored(later, next, root, operation_id, address, answer, kept);
    }
}

// -------------------------------------------------------------------------------- huge pages

proof fn lemma_file_one_more(
    contents: Seq<char>,
    path: Seq<char>,
    start: int,
    log: Seq<MachineStep>,
    i: int,
)
    requires
        0 <= start <= i < log.len(),
    ensures
        ({
            let sofar = file_after(contents, path, log.subrange(start, i));
            file_after(contents, path, log.subrange(start, i + 1)) == match log[i] {
                MachineStep::Write(p, value, Ok(_)) => if p == path {
                    decode_utf8(value)
                } else {
                    sofar
                },
                _ => sofar,
            }
        }),
{
    assert(log.subrange(start, i + 1).drop_last() =~= log.subrange(start, i));
}

/// Writing a number of huge pages succeeds on a machine that does as it is told.
proof fn lemma_count_written(
    contents: Seq<char>,
    path: Seq<char>,
    start: int,
    log: Seq<MachineStep>,
    a: int,
    b: int,
    pages: u64,
    r: Result<(), NetToolError>,
)
    requires
        0 <= start <= a <= b <= log.len(),
        resources::count_written(log.take(a), log.take(b), path, pages, r),
        file_obeys(contents, path, start, log),
    ensures
        r is Ok,
        b == a + 2,
        file_after(contents, path, log.subrange(start, b)) == text::decimal(pages as nat),
        log[a] is Write,
        log[a + 1] is Read,
{
    let from = log.take(a);
    let to = log.take(b);
    let digits = text::decimal(pages as nat);
    let put = choose|put: Result<(), KernelFault>|
        {
            let behind = #[trigger] from.push(MachineStep::Write(path, encode_utf8(digits), put));
            match put {
                Ok(_) => exists|seen: Result<u64, NetToolError>| #[trigger]
                    resources::count_read(behind, to, path, seen) && match seen {
                        Ok(n) => if n == pages {
                            r is Ok
                        } else {
                            r is Err
                        },
                        Err(e) => r == Err::<(), NetToolError>(e),
                    },
                Err(_) => to == behind,
            }
        };
    let behind = from.push(MachineStep::Write(path, encode_utf8(digits), put));
    assert(behind.is_prefix_of(to));
    assert(to[a] == behind[a]);
    assert(log[a] == MachineStep::Write(path, encode_utf8(digits), put));
    assert(put is Ok);
    encode_utf8_decode_utf8(digits);
    lemma_file_one_more(contents, path, start, log, a);
    let seen = choose|seen: Result<u64, NetToolError>| #[trigger]
        resources::count_read(behind, to, path, seen) && match seen {
            Ok(n) => if n == pages {
                r is Ok
            } else {
                r is Err
            },
            Err(e) => r == Err::<(), NetToolError>(e),
        };
    let read = choose|read: Result<String, KernelFault>|
        to == #[trigger] behind.push(MachineStep::Read(path, read)) && match read {
            Ok(printed) => resources::is_count(printed@, seen),
            Err(fault) => seen is Err,
        };
    assert(to[a + 1] == MachineStep::Read(path, read));
    assert(log[a + 1] == to[a + 1]);
    lemma_file_one_more(contents, path, start, log, a + 1);
    assert(text::trimmed(read->Ok_0@) == text::trimmed(digits));
    assert(resources::is_count(digits, seen));
    resources::law_written_count_reads_back(pages, seen);
}

/// What is known of huge pages that were set up: which record is kept of them, and where that
/// comes from.
#[verifier::spinoff_prover]
proof fn lemma_set_up(
    from: Seq<MachineStep>,
    to: Seq<MachineStep>,
    root: Seq<char>,
    operation_id: Seq<char>,
    node: Option<u32>,
    pages: u64,
    page_size_kib: u64,
    found: ValueResult,
)
    requires
        resources::hugepages_prepared(
            from,
            to,
            root,
            operation_id,
            node,
            pages,
            page_size_kib,
            Ok(found),
        ),
    ensures
        from.len() < to.len(),
        from.is_prefix_of(to),
        to[from.len() as int] matches MachineStep::FindHugepages(name, Ok(earlier)) && name
            == resources::record_name("hugepage"@, operation_id) && (kept_hugepages(
            to,
            resources::record_name("hugepage"@, operation_id),
        ) matches Some(kept) && {
            &&& kept.operation_id == operation_id
            &&& kept.node == node
            &&& kept.page_size_kib == page_size_kib
            &&& found.previous_pages == Some(kept.previous_pages)
            &&& !kept.released
            &&& match earlier {
                Some(record) => kept == record@,
                None => {
                    &&& kept.version == RESOURCE_STATE_VERSION
                    &&& from.len() + 1 < to.len()
                    &&& to[from.len() as int + 1] matches MachineStep::Read(path, Ok(printed))
                        && path == resources::hugepage_path(root, node, page_size_kib)
                        && resources::is_count(printed@, Ok(kept.previous_pages))
                },
            }
        }),
{
    let r = Ok::<ValueResult, NetToolError>(found);
    let name = resources::record_name("hugepage"@, operation_id);
    let path = resources::hugepage_path(root, node, page_size_kib);
    let n = from.len() as int;
    let (middle, recorded) = choose|
        middle: Seq<MachineStep>,
        recorded: Result<HugepageSnapshot, NetToolError>,
    | #[trigger]
        resources::hugepages_recorded(
            from,
            middle,
            path,
            operation_id,
            node,
            pages,
            page_size_kib,
            recorded,
        ) && match recorded {
            Ok(snapshot) => resources::hugepages_set(middle, to, path, name, snapshot, pages, r),
            Err(e) => to == middle && r == Err::<ValueResult, NetToolError>(e),
        };
    let snapshot = recorded->Ok_0;
    let (set, done) = choose|set: Seq<MachineStep>, done: Result<(), NetToolError>| #[trigger]
        resources::count_written(middle, set, path, pages, done) && match done {
            Ok(_) => resources::hugepages_reported(set, to, name, snapshot, pages, r),
            Err(e) => to == set && r == Err::<ValueResult, NetToolError>(e),
        };
    assert(middle.is_prefix_of(set));
    let saved = choose|saved: Result<(), NetToolError>|
        to == #[trigger] set.push(MachineStep::SaveHugepages(name, snapshot, saved))
            && match saved {
            Ok(_) => resources::is_hugepage_report(snapshot.previous_pages, pages, r),
            Err(e) => r == Err::<ValueResult, NetToolError>(e),
        };
    assert(saved is Ok);
    assert(to.last() == MachineStep::SaveHugepages(name, snapshot, saved));
    assert(kept_hugepages(to, name) == Some(snapshot@));
    let looked = choose|looked: Result<Option<HugepageSnapshot>, NetToolError>|
        {
            let behind = #[trigger] from.push(MachineStep::FindHugepages(name, looked));
            match looked {
                Ok(Some(existing)) => middle == behind && exists|
                    decided: Result<(), NetToolError>,
                | #[trigger]
                    resources::is_decided(
                        resources::hugepages_requested(
                            existing,
                            operation_id,
                            node,
                            pages,
                            page_size_kib,
                        ),
                        existing.released,
                        "Huge Page prepare operation was already released"@,
                        decided,
                    ) && match decided {
                        Ok(_) => recorded == Ok::<HugepageSnapshot, NetToolError>(existing),
                        Err(e) => recorded == Err::<HugepageSnapshot, NetToolError>(e),
                    },
                Ok(None) => resources::hugepages_newly_recorded(
                    behind,
                    middle,
                    path,
                    operation_id,
                    node,
                    pages,
                    page_size_kib,
                    recorded,
                ),
                Err(e) => middle == behind && recorded == Err::<HugepageSnapshot, NetToolError>(
                    e,
                ),
            }
        };
    let behind = from.push(MachineStep::FindHugepages(name, looked));
    assert(behind.is_prefix_of(middle));
    assert(to[n] == set[n]);
    assert(set[n] == middle[n]);
    assert(middle[n] == behind[n]);
    assert(from =~= to.subrange(0, n));
    if looked->Ok_0 is None {
        let (read, seen) = choose|read: Seq<MachineStep>, seen: Result<u64, NetToolError>|
            #[trigger]
            resources::count_read(behind, read, path, seen) && match seen {
                Ok(previous) => exists|fresh: HugepageSnapshot, kept: Result<(), NetToolError>|
                    middle == #[trigger] read.push(
                        MachineStep::SaveHugepages(name, fresh, kept),
                    ) && resources::hugepages_requested(
                        fresh,
                        operation_id,
                        node,
                        pages,
                        page_size_kib,
                    ) && fresh.version == RESOURCE_STATE_VERSION && fresh.previous_pages
                        == previous && !fresh.released && match kept {
                        Ok(_) => recorded == Ok::<HugepageSnapshot, NetToolError>(fresh),
                        Err(e) => recorded == Err::<HugepageSnapshot, NetToolError>(e),
                    },
                Err(e) => middle == read && recorded == Err::<HugepageSnapshot, NetToolError>(e),
            };
        assert(read.len() == n + 2);
        assert(read.is_prefix_of(middle));
        assert(to[n + 1] == set[n + 1]);
        assert(set[n + 1] == middle[n + 1]);
        assert(middle[n + 1] == read[n + 1]);
        assert(seen == Ok::<u64, NetToolError>(snapshot.previous_pages));
    }
}

/// Setting huge pages up again leaves the record that is kept of them as it is.
pub proof fn law_setting_up_again_keeps_the_record(
    from: Seq<MachineStep>,
    to: Seq<MachineStep>,
    root: Seq<char>,
    operation_id: Seq<char>,
    node: Option<u32>,
    pages: u64,
    page_size_kib: u64,
    found: ValueResult,
)
    requires
        resources::hugepages_prepared(
            from,
            to,
            root,
            operation_id,
            node,
            pages,
            page_size_kib,
            Ok(found),
        ),
        kept_hugepages(from, resources::record_name("hugepage"@, operation_id)) is Some,
        hugepage_store_obeys(
            from.len() as int,
            to,
            resources::record_name("hugepage"@, operation_id),
        ),
    ensures
        kept_hugepages(to, resources::record_name("hugepage"@, operation_id)) == kept_hugepages(
            from,
            resources::record_name("hugepage"@, operation_id),
        ),
        found.previous_pages == Some(
            kept_hugepages(
                from,
                resources::record_name("hugepage"@, operation_id),
            )->0.previous_pages,
        ),
{
    lemma_set_up(from, to, root, operation_id, node, pages, page_size_kib, found);
    assert(to.take(from.len() as int) =~= from);
    assert(to[from.len() as int] is FindHugepages);
}

/// What releasing comes to, by the record that the store answers with.
proof fn lemma_hugepages_released(
    from: Seq<MachineStep>,
    to: Seq<MachineStep>,
    root: Seq<char>,
    operation_id: Seq<char>,
    r: Result<ValueResult, NetToolError>,
    kept: HugepageView,
)
    requires
        resources::hugepages_released(from, to, root, operation_id, r),
        kept_hugepages(from, resources::record_name("hugepage"@, operation_id)) == Some(kept),
        hugepage_store_obeys(
            from.len() as int,
            to,
            resources::record_name("hugepage"@, operation_id),
        ),
        kept.version == RESOURCE_STATE_VERSION,
        kept.operation_id == operation_id,
    ensures
        from.len() < to.len(),
        from.is_prefix_of(to),
        if kept.released {
            &&& to.len() == from.len() + 1
            &&& resources::nothing_written(from, to)
            &&& resources::is_hugepage_report(kept.previous_pages, kept.previous_pages, r)
        } else {
            exists|snapshot: HugepageSnapshot|
                snapshot@ == (HugepageView { released: true, ..kept })
                    && #[trigger] resources::hugepages_set(
                    to.take(from.len() as int + 1),
                    to,
                    resources::hugepage_path(root, kept.node, kept.page_size_kib),
                    resources::record_name("hugepage"@, operation_id),
                    snapshot,
                    kept.previous_pages,
                    r,
                )
        },
{
    let n = from.len() as int;
    let name = resources::record_name("hugepage"@, operation_id);
    let loaded = choose|loaded: Result<HugepageSnapshot, NetToolError>|
        {
            let behind = #[trigger] from.push(MachineStep::LoadHugepages(name, loaded));
            match loaded {
                Ok(snapshot) => {
                    let path = resources::hugepage_path(
                        root,
                        snapshot.node,
                        snapshot.page_size_kib,
                    );
                    let previous = snapshot.previous_pages;
                    if snapshot.version != RESOURCE_STATE_VERSION || snapshot.operation_id@
                        != operation_id {
                        to == behind && (r matches Err(e) && resources::is_conflict(e))
                    } else if snapshot.released {
                        to == behind && resources::is_hugepage_report(previous, previous, r)
                    } else {
                        resources::hugepages_set(
                            behind,
                            to,
                            path,
                            name,
                            HugepageSnapshot { released: true, ..snapshot },
                            previous,
                            r,
                        )
                    }
                },
                Err(e) => to == behind && r == Err::<ValueResult, NetToolError>(e),
            }
        };
    let behind = from.push(MachineStep::LoadHugepages(name, loaded));
    assert(behind.is_prefix_of(to));
    assert(to[n] == behind[n]);
    assert(to.take(n) =~= from);
    assert(to.take(n + 1) =~= behind);
    assert(loaded matches Ok(snapshot) && snapshot@ == kept);
    if !kept.released {
        let snapshot = HugepageSnapshot { released: true, ..loaded->Ok_0 };
        assert(snapshot@ =~= (HugepageView { released: true, ..kept }));
    }
}

/// Huge pages that are released after they were set up are as many again as they were, on a
/// machine that does as it is told and with a store that keeps what it is given: releasing them
/// succeeds, and reports that number. Where nothing was recorded before, that is the number
/// that the kernel showed before they were set up. Releasing them once more reports the same
/// and writes nothing to the kernel.
///
/// A record that was there before has to have the version that is known here.
pub proof fn law_hugepage_round_trip(
    contents: Seq<char>,
    before: Seq<MachineStep>,
    prepared: Seq<MachineStep>,
    later: Seq<MachineStep>,
    released: Seq<MachineStep>,
    next: Seq<MachineStep>,
    root: Seq<char>,
    operation_id: Seq<char>,
    node: Option<u32>,
    pages: u64,
    page_size_kib: u64,
    found: ValueResult,
    r: Result<ValueResult, NetToolError>,
    answer: Result<ValueResult, NetToolError>,
)
    requires
        resources::hugepages_prepared(
            before,
            prepared,
            root,
            operation_id,
            node,
            pages,
            page_size_kib,
            Ok(found),
        ),
        prepared[before.len() as int] matches MachineStep::FindHugepages(_, Ok(Some(earlier)))
            ==> earlier.version == RESOURCE_STATE_VERSION,
        prepared.is_prefix_of(later),
        kept_hugepages(later, resources::record_name("hugepage"@, operation_id))
            == kept_hugepages(prepared, resources::record_name("hugepage"@, operation_id)),
        resources::hugepages_released(later, released, root, operation_id, r),
        file_obeys(
            contents,
            resources::hugepage_path(root, node, page_size_kib),
            before.len() as int,
            released,
        ),
        hugepage_store_obeys(
            before.len() as int,
            released,
            resources::record_name("hugepage"@, operation_id),
        ),
    ensures
        found.previous_pages matches Some(previous) && {
            &&& resources::is_hugepage_report(previous, previous, r)
            &&& file_after(
                contents,
                resources::hugepage_path(root, node, page_size_kib),
                released.skip(before.len() as int),
            ) == text::decimal(previous as nat)
            &&& prepared[before.len() as int] matches MachineStep::FindHugepages(_, Ok(None))
                ==> resources::is_count(contents, Ok(previous))
            &&& resources::hugepages_released(released, next, root, operation_id, answer)
                && hugepage_store_obeys(
                before.len() as int,
                next,
                resources::record_name("hugepage"@, operation_id),
            ) ==> resources::nothing_written(released, next) && resources::is_hugepage_report(
                previous,
                previous,
                answer,
            )
        },
{
    let name = resources::record_name("hugepage"@, operation_id);
    let path = resources::hugepage_path(root, node, page_size_kib);
    let start = before.len() as int;
    let a = later.len() as int;
    let log = released;
    lemma_set_up(before, prepared, root, operation_id, node, pages, page_size_kib, found);
    let kept = kept_hugepages(prepared, name)->0;
    let previous = kept.previous_pages;
    assert(kept.version == RESOURCE_STATE_VERSION);
    lemma_hugepages_released(later, released, root, operation_id, r, kept);
    let gone = HugepageView { released: true, ..kept };
    let snapshot = choose|snapshot: HugepageSnapshot|
        snapshot@ == gone && #[trigger] resources::hugepages_set(
            log.take(a + 1),
            log,
            path,
            name,
            snapshot,
            previous,
            r,
        );
    lemma_pages_given_back(contents, path, start, log, a + 1, name, snapshot, previous, r);
    // How many there were before.
    if let MachineStep::FindHugepages(_, Ok(None)) = prepared[start] {
        assert(prepared.is_prefix_of(log)) by {
            assert(later.is_prefix_of(log));
        }
        assert(log[start] == prepared[start]);
        assert(log[start + 1] == prepared[start + 1]);
        lemma_file_one_more(contents, path, start, log, start);
        assert(log.subrange(start, start) =~= Seq::<MachineStep>::empty());
        assert(log[start + 1] is Read);
    }
    // What comes behind.
    if resources::hugepages_released(released, next, root, operation_id, answer)
        && hugepage_store_obeys(start, next, name) {
        lemma_hugepages_released(released, next, root, operation_id, answer, gone);
    }
}

/// Setting a number of huge pages, and keeping the record of that, succeeds on a machine that
/// does as it is told.
#[verifier::spinoff_prover]
proof fn lemma_pages_given_back(
    contents: Seq<char>,
    path: Seq<char>,
    start: int,
    log: Seq<MachineStep>,
    a: int,
    name: Seq<char>,
    snapshot: HugepageSnapshot,
    pages: u64,
    r: Result<ValueResult, NetToolError>,
)
    requires
        0 <= start <= a <= log.len(),
        resources::hugepages_set(log.take(a), log, path, name, snapshot, pages, r),
        file_obeys(contents, path, start, log),
        hugepage_store_obeys(start, log, name),
    ensures
        resources::is_hugepage_report(snapshot.previous_pages, pages, r),
        file_after(contents, path, log.skip(start)) == text::decimal(pages as nat),
        kept_hugepages(log, name) == Some(snapshot@),
{
    let from = log.take(a);
    let (set, done) = choose|set: Seq<MachineStep>, done: Result<(), NetToolError>| #[trigger]
        resources::count_written(from, set, path, pages, done) && match done {
            Ok(_) => resources::hugepages_reported(set, log, name, snapshot, pages, r),
            Err(e) => log == set && r == Err::<ValueResult, NetToolError>(e),
        };
    assert(from.is_prefix_of(set));
    assert(set.is_prefix_of(log));
    let m = set.len() as int;
    assert(set =~= log.take(m));
    lemma_count_written(contents, path, start, log, a, m, pages, done);
    let saved = choose|saved: Result<(), NetToolError>|
        log == #[trigger] set.push(MachineStep::SaveHugepages(name, snapshot, saved))
            && match saved {
            Ok(_) => resources::is_hugepage_report(snapshot.previous_pages, pages, r),
            Err(e) => r == Err::<ValueResult, NetToolError>(e),
        };
    assert(log[m] == MachineStep::SaveHugepages(name, snapshot, saved));
    assert(saved is Ok);
    assert(log.last() == log[m]);
    lemma_file_one_more(contents, path, start, log, m);
    assert(log.subrange(start, m + 1) =~= log.skip(start));
}

/// An interface of which there is no record is not given back: that is the answer, and nothing
/// else is called.
pub proof fn law_nic_without_a_record_is_not_given_back(
    from: Seq<MachineStep>,
    to: Seq<MachineStep>,
    root: Seq<char>,
    operation_id: Seq<char>,
    pci_address: Seq<char>,
    e: NetToolError,
    r: Result<ValueResult, NetToolError>,
)
    requires
        resources::nic_restored(from, to, root, operation_id, pci_address, r),
        from.len() < to.len(),
        to[from.len() as int] == MachineStep::LoadNic(
            resources::record_name("nic"@, operation_id),
            Err(e),
        ),
    ensures
        r == Err::<ValueResult, NetToolError>(e),
        to.len() == from.len() + 1,
{
    let n = from.len() as int;
    let name = resources::record_name("nic"@, operation_id);
    let loaded = choose|loaded: Result<NicSnapshot, NetToolError>|
        {
            let behind = #[trigger] from.push(MachineStep::LoadNic(name, loaded));
            match loaded {
                Ok(snapshot) => to == behind || resources::nic_rebound(
                    behind,
                    to,
                    root,
                    snapshot,
                    r,
                ),
                Err(e) => to == behind && r == Err::<ValueResult, NetToolError>(e),
            }
        };
    let behind = from.push(MachineStep::LoadNic(name, loaded));
    if loaded is Ok && to != behind {
        lemma_rebound_grows(behind, to, root, loaded->Ok_0, r);
    }
    assert(to[n] == behind[n]);
}

/// Huge pages of which there is no record are not released: that is the answer, and nothing
/// else is called.
pub proof fn law_hugepages_without_a_record_are_not_released(
    from: Seq<MachineStep>,
    to: Seq<MachineStep>,
    root: Seq<char>,
    operation_id: Seq<char>,
    e: NetToolError,
    r: Result<ValueResult, NetToolError>,
)
    requires
        resources::hugepages_released(from, to, root, operation_id, r),
        from.len() < to.len(),
        to[from.len() as int] == MachineStep::LoadHugepages(
            resources::record_name("hugepage"@, operation_id),
            Err(e),
        ),
    ensures
        r == Err::<ValueResult, NetToolError>(e),
        to.len() == from.len() + 1,
{
    let n = from.len() as int;
    let name = resources::record_name("hugepage"@, operation_id);
    let loaded = choose|loaded: Result<HugepageSnapshot, NetToolError>|
        {
            let behind = #[trigger] from.push(MachineStep::LoadHugepages(name, loaded));
            match loaded {
                Ok(snapshot) => behind.is_prefix_of(to),
                Err(e) => to == behind && r == Err::<ValueResult, NetToolError>(e),
            }
        };
    let behind = from.push(MachineStep::LoadHugepages(name, loaded));
    assert(to[n] == behind[n]);
}

} // verus!
