//! Applying network settings safely: what is not confirmed in time is rolled back.

use crate::digest;
use crate::digest::sha256;
use crate::error::{ErrorCode, NetToolError};
use crate::helper::outside::{Outside, Step};
use crate::helper::state_json::{state_json, write_state};
use crate::helper_protocol;
use crate::helper_protocol::{NetworkDesiredState, NetworkStateView};
use crate::text;
use crate::text::{hex_text, is_blank, same};
use vstd::prelude::*;
use vstd::utf8::encode_utf8;

verus! {

/// Something that changes the network settings of a system.
pub trait NetworkExecutor {
    /// Reads the state of an interface as JSON, without keeping it.
    fn read_state(&mut self, interface_id: &str) -> Result<Vec<u8>, NetToolError>;

    /// Keeps the state of an interface; returns its identifier and the state as JSON.
    fn snapshot(&mut self, interface_id: &str) -> Result<(String, Vec<u8>), NetToolError>;

    /// Applies a configuration.
    fn apply(&mut self, interface_id: &str, desired_state: &NetworkDesiredState) -> Result<
        (),
        NetToolError,
    >;

    /// Checks that a configuration is in force.
    fn verify(&mut self, interface_id: &str, desired_state: &NetworkDesiredState) -> Result<
        (),
        NetToolError,
    >;

    /// Restores a kept state.
    fn restore(&mut self, snapshot_id: &str) -> Result<(), NetToolError>;
}

/// Something that keeps the records and the log of a manager.
pub trait SafeApplyStore {
    /// Keeps all records.
    fn persist(&mut self, records: &[PendingSafeApply]) -> Result<(), NetToolError>;

    /// Logs what became of an operation.
    fn audit(&mut self, record: &PendingSafeApply, result: &str) -> Result<(), NetToolError>;
}

/// The life of an operation.
#[derive(Clone, Copy, Debug, PartialEq, Eq, Structural)]
pub enum SafeApplyState {
    /// The old state and the deadline are kept; nothing was applied yet.
    Prepared,
    /// Applied and verified; waits for confirmation.
    PendingConfirmation,
    /// Confirmed.
    Confirmed,
    /// The old state is being restored.
    RollingBack,
    /// The old state was restored.
    RolledBack,
    /// The old state could not be restored.
    Failed,
}

/// Whether an operation still has a deadline.
pub open spec fn pending_state(state: SafeApplyState) -> bool {
    state == SafeApplyState::Prepared || state == SafeApplyState::PendingConfirmation || state
        == SafeApplyState::RollingBack
}

fn is_pending(state: SafeApplyState) -> (r: bool)
    ensures
        r == pending_state(state),
{
    state == SafeApplyState::Prepared || state == SafeApplyState::PendingConfirmation || state
        == SafeApplyState::RollingBack
}

/// The record of an operation.
#[derive(Clone, Debug, PartialEq, Eq)]
pub struct PendingSafeApply {
    /// The identifier of the operation.
    pub operation_id: String,
    /// The interface.
    pub target_interface: String,
    /// The identifier of the kept state.
    pub snapshot_id: String,
    /// The deadline, in seconds.
    pub deadline_unix_seconds: u64,
    /// Where the operation is in its life.
    pub state: SafeApplyState,
    /// The digest of the old state.
    pub old_state_hash: String,
    /// The digest of the new state.
    pub new_state_hash: String,
}

/// What a record says.
#[verifier::ext_equal]
pub struct RecordView {
    /// The identifier of the operation.
    pub operation_id: Seq<char>,
    /// The interface.
    pub target_interface: Seq<char>,
    /// The identifier of the kept state.
    pub snapshot_id: Seq<char>,
    /// The deadline, in seconds.
    pub deadline: u64,
    /// Where the operation is in its life.
    pub state: SafeApplyState,
    /// The digest of the old state.
    pub old_state_hash: Seq<char>,
    /// The digest of the new state.
    pub new_state_hash: Seq<char>,
}

impl View for PendingSafeApply {
    type V = RecordView;

    open spec fn view(&self) -> RecordView {
        RecordView {
            operation_id: self.operation_id@,
            target_interface: self.target_interface@,
            snapshot_id: self.snapshot_id@,
            deadline: self.deadline_unix_seconds,
            state: self.state,
            old_state_hash: self.old_state_hash@,
            new_state_hash: self.new_state_hash@,
        }
    }
}

impl PendingSafeApply {
    fn duplicate(&self) -> (r: Self)
        ensures
            r@ == self@,
    {
        PendingSafeApply {
            operation_id: self.operation_id.as_str().to_owned(),
            target_interface: self.target_interface.as_str().to_owned(),
            snapshot_id: self.snapshot_id.as_str().to_owned(),
            deadline_unix_seconds: self.deadline_unix_seconds,
            state: self.state,
            old_state_hash: self.old_state_hash.as_str().to_owned(),
            new_state_hash: self.new_state_hash.as_str().to_owned(),
        }
    }

    fn moved_to(&self, state: SafeApplyState) -> (r: Self)
        ensures
            r@ == (RecordView { state, ..self@ }),
    {
        let mut r = self.duplicate();
        r.state = state;
        r
    }
}

/// A request to apply a configuration.
#[derive(Clone, Copy)]
pub struct BeginSafeApply<'a> {
    /// The identifier of the operation.
    pub operation_id: &'a str,
    /// The interface.
    pub interface_id: &'a str,
    /// The configuration.
    pub desired_state: &'a NetworkDesiredState,
    /// After how many seconds without confirmation it is rolled back.
    pub confirm_timeout_seconds: u64,
    /// The time, in seconds.
    pub now_unix_seconds: u64,
}

/// The digest under which a state is recorded.
pub open spec fn state_hash(json: Seq<u8>) -> Seq<char> {
    text::hex(digest::sha256_of(json), false)
}

fn hash_json(json: &[u8]) -> (r: String)
    ensures
        r@ == state_hash(json@),
{
    hex_text(sha256(json).as_slice(), false)
}

/// The digest under which a desired configuration is recorded: that of its JSON form.
pub open spec fn desired_hash(state: NetworkStateView) -> Seq<char> {
    state_hash(encode_utf8(state_json(state)))
}

fn hash_of_state(state: &NetworkDesiredState) -> (r: String)
    ensures
        r@ == desired_hash(state@),
{
    let json = write_state(state);
    hash_json(json.as_str().as_bytes())
}

/// What records say.
pub open spec fn record_views(records: Seq<PendingSafeApply>) -> Seq<RecordView> {
    Seq::new(records.len(), |i: int| records[i]@)
}

/// The place of the first record of an operation; the number of records where there is none.
pub open spec fn first_record(records: Seq<RecordView>, operation_id: Seq<char>) -> int
    decreases records.len(),
{
    if records.len() == 0 || records[0].operation_id == operation_id {
        0
    } else {
        1 + first_record(records.drop_first(), operation_id)
    }
}

/// The place of the first record of an operation that is pending; the number of records where
/// there is none.
pub open spec fn first_active(records: Seq<RecordView>, operation_id: Seq<char>) -> int
    decreases records.len(),
{
    if records.len() == 0 || (records[0].operation_id == operation_id && pending_state(
        records[0].state,
    )) {
        0
    } else {
        1 + first_active(records.drop_first(), operation_id)
    }
}

/// Whether an interface has a pending operation.
pub open spec fn interface_busy(records: Seq<RecordView>, interface_id: Seq<char>) -> bool {
    exists|i: int|
        0 <= i < records.len() && pending_state((#[trigger] records[i]).state)
            && records[i].target_interface == interface_id
}

/// What becomes of a request before anything is changed.
pub enum BeginOutcome {
    /// It is refused.
    Refused(ErrorCode, Seq<char>),
    /// It is the one that is already pending, at this place.
    Repeated(int),
    /// It goes ahead.
    Accepted,
}

/// What becomes of a request before anything is changed.
pub open spec fn begin_outcome(
    records: Seq<RecordView>,
    operation_id: Seq<char>,
    interface_id: Seq<char>,
    desired: NetworkDesiredState,
    timeout: u64,
) -> BeginOutcome {
    let at = first_record(records, operation_id);
    if text::blank(operation_id) || text::blank(interface_id) {
        BeginOutcome::Refused(
            ErrorCode::InvalidArgument,
            "operation and interface IDs are required"@,
        )
    } else if timeout < 10 || timeout > 600 {
        BeginOutcome::Refused(
            ErrorCode::InvalidArgument,
            "confirm timeout must be between 10 and 600 seconds"@,
        )
    } else if helper_protocol::state_fault(desired) is Some {
        BeginOutcome::Refused(
            ErrorCode::InvalidArgument,
            helper_protocol::state_fault(desired)->0,
        )
    } else if at < records.len() {
        if pending_state(records[at].state) && records[at].target_interface == interface_id
            && records[at].new_state_hash == desired_hash(desired@) {
            BeginOutcome::Repeated(at)
        } else {
            BeginOutcome::Refused(
                ErrorCode::OperationConflict,
                "operation ID was reused with a different Safe Apply request"@,
            )
        }
    } else if interface_busy(records, interface_id) {
        BeginOutcome::Refused(
            ErrorCode::ResourceConflict,
            "interface already has a pending Safe Apply"@,
        )
    } else {
        BeginOutcome::Accepted
    }
}

/// Whether each operation has one record, and each interface at most one pending operation.
pub open spec fn records_sound(records: Seq<RecordView>) -> bool {
    &&& forall|i: int, j: int|
        0 <= i < j < records.len() ==> (#[trigger] records[i]).operation_id != (
        #[trigger] records[j]).operation_id
    &&& forall|i: int, j: int|
        0 <= i < j < records.len() && pending_state((#[trigger] records[i]).state)
            && pending_state((#[trigger] records[j]).state) ==> records[i].target_interface
            != records[j].target_interface
}

/// The records with one in place of the first record of its operation.
pub open spec fn with_record(records: Seq<RecordView>, record: RecordView) -> Seq<RecordView> {
    records.update(first_record(records, record.operation_id), record)
}

/// The records with the pending one of an operation moved to another state.
pub open spec fn with_state(
    records: Seq<RecordView>,
    operation_id: Seq<char>,
    state: SafeApplyState,
) -> Seq<RecordView> {
    with_record(records, RecordView { state, ..records[first_active(records, operation_id)] })
}

/// Whether the records were kept, and what became of an operation was logged behind that.
/// Nothing else was called.
pub open spec fn kept_and_logged(
    from: Seq<Step>,
    to: Seq<Step>,
    records: Seq<RecordView>,
    record: RecordView,
    note: Seq<char>,
    r: Result<(), NetToolError>,
) -> bool {
    exists|kept: Result<(), NetToolError>|
        match kept {
            Ok(_) => to == (#[trigger] from.push(Step::Persist(records, kept))).push(
                Step::Audit(record, note, r),
            ),
            Err(_) => r == kept && to == from.push(Step::Persist(records, kept)),
        }
}

/// Whether a configuration was applied, and checked behind that where it could be applied.
/// Nothing else was called.
pub open spec fn applied_and_verified(
    from: Seq<Step>,
    to: Seq<Step>,
    interface_id: Seq<char>,
    desired: NetworkDesiredState,
    r: Result<(), NetToolError>,
) -> bool {
    exists|applied: Result<(), NetToolError>|
        match applied {
            Ok(_) => to == (#[trigger] from.push(
                Step::Apply(interface_id, desired, applied),
            )).push(Step::Verify(interface_id, desired, r)),
            Err(_) => r == applied && to == from.push(Step::Apply(interface_id, desired, applied)),
        }
}

/// How an operation is rolled back. It is recorded that it is being rolled back before its old
/// state is restored; what became of that is recorded and logged. Where the operation is not
/// pending, nothing is called.
pub open spec fn rolled_back_by(
    from: Seq<Step>,
    to: Seq<Step>,
    before: Seq<RecordView>,
    after: Seq<RecordView>,
    operation_id: Seq<char>,
    note: Seq<char>,
    r: Result<(), NetToolError>,
) -> bool {
    let at = first_active(before, operation_id);
    let rolling = with_state(before, operation_id, SafeApplyState::RollingBack);
    if at >= before.len() {
        &&& after == before
        &&& to == from
        &&& r matches Err(e) && e.is(
            ErrorCode::InvalidState,
            "Safe Apply operation is not pending"@,
            false,
        )
    } else {
        exists|kept: Result<(), NetToolError>|
            match kept {
                Ok(_) => restored_by(
                    #[trigger] from.push(Step::Persist(rolling, kept)),
                    to,
                    before,
                    after,
                    operation_id,
                    note,
                    r,
                ),
                Err(_) => r == kept && after == rolling && to == from.push(
                    Step::Persist(rolling, kept),
                ),
            }
    }
}

/// How the old state of a pending operation is restored, once.
pub open spec fn restored_by(
    from: Seq<Step>,
    to: Seq<Step>,
    before: Seq<RecordView>,
    after: Seq<RecordView>,
    operation_id: Seq<char>,
    note: Seq<char>,
    r: Result<(), NetToolError>,
) -> bool {
    let record = before[first_active(before, operation_id)];
    exists|restored: Result<(), NetToolError>|
        {
            let behind = #[trigger] from.push(Step::Restore(record.snapshot_id, restored));
            match restored {
                Ok(_) => {
                    &&& after == with_state(before, operation_id, SafeApplyState::RolledBack)
                    &&& kept_and_logged(
                        behind,
                        to,
                        after,
                        RecordView { state: SafeApplyState::RolledBack, ..record },
                        note,
                        r,
                    )
                },
                Err(_) => {
                    &&& after == with_state(before, operation_id, SafeApplyState::Failed)
                    &&& exists|logged: Result<(), NetToolError>| #[trigger]
                        kept_and_logged(
                            behind,
                            to,
                            after,
                            RecordView { state: SafeApplyState::Failed, ..record },
                            "rollback_failed"@,
                            logged,
                        ) && r == match logged {
                            Ok(_) => restored,
                            Err(_) => logged,
                        }
                },
            }
        }
}

/// The record of an accepted request.
pub open spec fn prepared_record(
    request: BeginSafeApply<'_>,
    snapshot_id: Seq<char>,
    old_state: Seq<u8>,
) -> RecordView {
    RecordView {
        operation_id: request.operation_id@,
        target_interface: request.interface_id@,
        snapshot_id,
        deadline: (request.now_unix_seconds + request.confirm_timeout_seconds) as u64,
        state: SafeApplyState::Prepared,
        old_state_hash: state_hash(old_state),
        new_state_hash: desired_hash(request.desired_state@),
    }
}

/// How an accepted request goes on once its record is kept. The configuration is applied and
/// verified. Where that fails, the operation is rolled back. Otherwise it waits.
pub open spec fn carried_out(
    from: Seq<Step>,
    to: Seq<Step>,
    prepared: Seq<RecordView>,
    after: Seq<RecordView>,
    request: BeginSafeApply<'_>,
    r: Result<PendingSafeApply, NetToolError>,
) -> bool {
    exists|middle: Seq<Step>, applied: Result<(), NetToolError>| #[trigger]
        applied_and_verified(
            from,
            middle,
            request.interface_id@,
            *request.desired_state,
            applied,
        ) && match applied {
            Ok(_) => waits(middle, to, prepared, after, r),
            Err(fault) => exists|undone: Result<(), NetToolError>| #[trigger]
                rolled_back_by(
                    middle,
                    to,
                    prepared,
                    after,
                    request.operation_id@,
                    "apply_failed"@,
                    undone,
                ) && match undone {
                    Ok(_) => r == Err::<PendingSafeApply, NetToolError>(fault),
                    Err(second) => r matches Err(e) && e.is(
                        ErrorCode::RollbackFailed,
                        "apply failed ("@ + fault.text() + "); rollback also failed ("@
                            + second.text() + ")"@,
                        false,
                    ),
                },
        }
}

/// How the last operation comes to wait for its confirmation.
pub open spec fn waits(
    from: Seq<Step>,
    to: Seq<Step>,
    prepared: Seq<RecordView>,
    after: Seq<RecordView>,
    r: Result<PendingSafeApply, NetToolError>,
) -> bool {
    let waiting = RecordView { state: SafeApplyState::PendingConfirmation, ..prepared.last() };
    &&& after == prepared.update(prepared.len() - 1, waiting)
    &&& exists|logged: Result<(), NetToolError>| #[trigger]
        kept_and_logged(from, to, after, waiting, "pending_confirmation"@, logged) && match logged {
            Ok(_) => r matches Ok(record) && record@ == waiting,
            Err(e) => r == Err::<PendingSafeApply, NetToolError>(e),
        }
}

/// How an accepted request is handled. Its old state is kept before its record is, and its
/// record before anything is applied.
pub open spec fn accepted_by(
    from: Seq<Step>,
    to: Seq<Step>,
    before: Seq<RecordView>,
    after: Seq<RecordView>,
    request: BeginSafeApply<'_>,
    r: Result<PendingSafeApply, NetToolError>,
) -> bool {
    exists|kept: Result<(String, Vec<u8>), NetToolError>|
        {
            let behind = #[trigger] from.push(Step::Snapshot(request.interface_id@, kept));
            match kept {
                Err(e) => {
                    &&& r == Err::<PendingSafeApply, NetToolError>(e)
                    &&& after == before
                    &&& to == behind
                },
                Ok((snapshot_id, old_state)) => recorded_by(
                    behind,
                    to,
                    before,
                    after,
                    request,
                    prepared_record(request, snapshot_id@, old_state@),
                    r,
                ),
            }
        }
}

/// How the record of an accepted request is kept before the request is carried out.
pub open spec fn recorded_by(
    from: Seq<Step>,
    to: Seq<Step>,
    before: Seq<RecordView>,
    after: Seq<RecordView>,
    request: BeginSafeApply<'_>,
    record: RecordView,
    r: Result<PendingSafeApply, NetToolError>,
) -> bool {
    let prepared = before.push(record);
    if request.now_unix_seconds + request.confirm_timeout_seconds > u64::MAX {
        &&& after == before
        &&& to == from
        &&& r matches Err(e) && e.is(
            ErrorCode::InvalidArgument,
            "rollback deadline overflow"@,
            false,
        )
    } else {
        exists|kept: Result<(), NetToolError>|
            match kept {
                Ok(_) => carried_out(
                    #[trigger] from.push(Step::Persist(prepared, kept)),
                    to,
                    prepared,
                    after,
                    request,
                    r,
                ),
                Err(e) => {
                    &&& r == Err::<PendingSafeApply, NetToolError>(e)
                    &&& after == prepared
                    &&& to == from.push(Step::Persist(prepared, kept))
                },
            }
    }
}

/// How a confirmed operation is recorded and logged.
pub open spec fn confirmed_by(
    from: Seq<Step>,
    to: Seq<Step>,
    after: Seq<RecordView>,
    confirmed: RecordView,
    r: Result<PendingSafeApply, NetToolError>,
) -> bool {
    exists|logged: Result<(), NetToolError>| #[trigger]
        kept_and_logged(from, to, after, confirmed, "confirmed"@, logged) && match logged {
            Ok(_) => r matches Ok(record) && record@ == confirmed,
            Err(e) => r == Err::<PendingSafeApply, NetToolError>(e),
        }
}

/// How expired operations are rolled back, one behind the other, up to the first that fails.
/// The path gives the calls and the records before each of them and behind the last.
pub open spec fn recovered_by(
    path: Seq<(Seq<Step>, Seq<RecordView>)>,
    operations: Seq<Seq<char>>,
    r: Result<(), NetToolError>,
) -> bool {
    &&& 1 <= path.len() <= operations.len() + 1
    &&& forall|i: int|
        #![trigger path[i]]
        0 <= i < path.len() - 1 ==> rolled_back_by(
            path[i].0,
            path[i + 1].0,
            path[i].1,
            path[i + 1].1,
            operations[i],
            "deadline_expired"@,
            if i < path.len() - 2 {
                Ok(())
            } else {
                r
            },
        )
    &&& r is Ok ==> path.len() == operations.len() + 1
    &&& r is Err ==> path.len() > 1
}

// ------------------------------------------------------------------------------- looking up

proof fn lemma_first_record(records: Seq<RecordView>, operation_id: Seq<char>, at: int)
    requires
        0 <= at <= records.len(),
        forall|j: int| 0 <= j < at ==> (#[trigger] records[j]).operation_id != operation_id,
        at < records.len() ==> records[at].operation_id == operation_id,
    ensures
        first_record(records, operation_id) == at,
    decreases records.len(),
{
    if at > 0 {
        assert(records[0int].operation_id != operation_id);
        let tail = records.drop_first();
        assert forall|j: int| 0 <= j < at - 1 implies (#[trigger] tail[j]).operation_id
            != operation_id by {
            assert(tail[j] == records[j + 1]);
        }
        lemma_first_record(tail, operation_id, at - 1);
    }
}

proof fn lemma_first_record_is(records: Seq<RecordView>, operation_id: Seq<char>)
    ensures
        ({
            let at = first_record(records, operation_id);
            &&& 0 <= at <= records.len()
            &&& at < records.len() ==> records[at].operation_id == operation_id
            &&& forall|j: int| 0 <= j < at ==> (#[trigger] records[j]).operation_id != operation_id
        }),
    decreases records.len(),
{
    if records.len() > 0 && records[0].operation_id != operation_id {
        let tail = records.drop_first();
        lemma_first_record_is(tail, operation_id);
        let at = first_record(records, operation_id);
        assert forall|j: int| 0 <= j < at implies (#[trigger] records[j]).operation_id
            != operation_id by {
            if j > 0 {
                assert(records[j] == tail[j - 1]);
            }
        }
    }
}

proof fn lemma_first_active(records: Seq<RecordView>, operation_id: Seq<char>, at: int)
    requires
        0 <= at <= records.len(),
        forall|j: int|
            0 <= j < at ==> (#[trigger] records[j]).operation_id != operation_id
                || !pending_state(records[j].state),
        at < records.len() ==> records[at].operation_id == operation_id && pending_state(
            records[at].state,
        ),
    ensures
        first_active(records, operation_id) == at,
    decreases records.len(),
{
    if at > 0 {
        assert(records[0int].operation_id != operation_id || !pending_state(records[0int].state));
        let tail = records.drop_first();
        assert forall|j: int| 0 <= j < at - 1 implies (#[trigger] tail[j]).operation_id
            != operation_id || !pending_state(tail[j].state) by {
            assert(tail[j] == records[j + 1]);
        }
        lemma_first_active(tail, operation_id, at - 1);
    }
}

proof fn lemma_first_active_is(records: Seq<RecordView>, operation_id: Seq<char>)
    ensures
        ({
            let at = first_active(records, operation_id);
            &&& 0 <= at <= records.len()
            &&& at < records.len() ==> records[at].operation_id == operation_id && pending_state(
                records[at].state,
            )
        }),
    decreases records.len(),
{
    if records.len() > 0 && !(records[0].operation_id == operation_id && pending_state(
        records[0].state,
    )) {
        lemma_first_active_is(records.drop_first(), operation_id);
    }
}

proof fn lemma_active_is_first(records: Seq<RecordView>, operation_id: Seq<char>)
    requires
        records_sound(records),
    ensures
        first_active(records, operation_id) < records.len() ==> first_record(records, operation_id)
            == first_active(records, operation_id),
{
    lemma_first_active_is(records, operation_id);
    lemma_first_record_is(records, operation_id);
    let a = first_active(records, operation_id);
    let b = first_record(records, operation_id);
    if a < records.len() {
        if a < b {
            assert(records[a].operation_id != operation_id);
        } else if b < a {
            assert(records[b].operation_id != records[a].operation_id);
        }
    }
}

/// Moving a pending operation on keeps the records sound.
pub proof fn law_moving_on_keeps_records_sound(
    records: Seq<RecordView>,
    operation_id: Seq<char>,
    state: SafeApplyState,
)
    requires
        records_sound(records),
        first_active(records, operation_id) < records.len(),
    ensures
        records_sound(with_state(records, operation_id, state)),
{
    lemma_active_is_first(records, operation_id);
    lemma_first_active_is(records, operation_id);
    let after = with_state(records, operation_id, state);
    assert forall|i: int, j: int| 0 <= i < j < after.len() implies (
    #[trigger] after[i]).operation_id != (#[trigger] after[j]).operation_id by {
        assert(records[i].operation_id != records[j].operation_id);
    }
    assert forall|i: int, j: int|
        0 <= i < j < after.len() && pending_state((#[trigger] after[i]).state) && pending_state(
            (#[trigger] after[j]).state,
        ) implies after[i].target_interface != after[j].target_interface by {
        assert(pending_state(records[i].state));
        assert(pending_state(records[j].state));
    }
}

/// Success means that exactly this was called, in this order: the old state was kept, the
/// operation was recorded, the configuration was applied and found to be in force, and the
/// waiting operation was recorded and logged. Nothing was restored.
pub proof fn law_success_means_kept_recorded_and_in_force(
    from: Seq<Step>,
    to: Seq<Step>,
    before: Seq<RecordView>,
    after: Seq<RecordView>,
    request: BeginSafeApply<'_>,
    r: Result<PendingSafeApply, NetToolError>,
)
    requires
        accepted_by(from, to, before, after, request, r),
        r is Ok,
    ensures
        to.len() == from.len() + 6,
        to.take(from.len() as int) == from,
        ({
            let n = from.len() as int;
            let interface_id = request.interface_id@;
            &&& to[n] matches Step::Snapshot(a, Ok(kept)) && a == interface_id && to[n + 1]
                == Step::Persist(
                before.push(prepared_record(request, kept.0@, kept.1@)),
                Ok(()),
            )
            &&& to[n + 2] == Step::Apply(interface_id, *request.desired_state, Ok(()))
            &&& to[n + 3] == Step::Verify(interface_id, *request.desired_state, Ok(()))
            &&& to[n + 4] == Step::Persist(after, Ok(()))
            &&& to[n + 5] == Step::Audit(after.last(), "pending_confirmation"@, Ok(()))
            &&& to[n] matches Step::Snapshot(_, Ok(kept)) && after == before.push(
                RecordView {
                    state: SafeApplyState::PendingConfirmation,
                    ..prepared_record(request, kept.0@, kept.1@)
                },
            )
            &&& r->Ok_0@ == after.last()
        }),
{
    let kept = choose|kept: Result<(String, Vec<u8>), NetToolError>|
        {
            let behind = #[trigger] from.push(Step::Snapshot(request.interface_id@, kept));
            match kept {
                Err(e) => false,
                Ok((snapshot_id, old_state)) => recorded_by(
                    behind,
                    to,
                    before,
                    after,
                    request,
                    prepared_record(request, snapshot_id@, old_state@),
                    r,
                ),
            }
        };
    let pair = kept->Ok_0;
    let l1 = from.push(Step::Snapshot(request.interface_id@, kept));
    let prepared = before.push(prepared_record(request, pair.0@, pair.1@));
    let recorded = choose|recorded: Result<(), NetToolError>|
        match recorded {
            Ok(_) => carried_out(
                #[trigger] l1.push(Step::Persist(prepared, recorded)),
                to,
                prepared,
                after,
                request,
                r,
            ),
            Err(e) => false,
        };
    assert(recorded->Ok_0 == ());
    let l2 = l1.push(Step::Persist(prepared, recorded));
    assert(carried_out(l2, to, prepared, after, request, r));
    let (l4, applied) = choose|middle: Seq<Step>, applied: Result<(), NetToolError>| #[trigger]
        applied_and_verified(
            l2,
            middle,
            request.interface_id@,
            *request.desired_state,
            applied,
        ) && match applied {
            Ok(_) => waits(middle, to, prepared, after, r),
            Err(fault) => false,
        };
    assert(applied->Ok_0 == ());
    let first = choose|first: Result<(), NetToolError>|
        match first {
            Ok(_) => l4 == (#[trigger] l2.push(
                Step::Apply(request.interface_id@, *request.desired_state, first),
            )).push(Step::Verify(request.interface_id@, *request.desired_state, applied)),
            Err(_) => false,
        };
    assert(first->Ok_0 == ());
    let waiting = RecordView { state: SafeApplyState::PendingConfirmation, ..prepared.last() };
    let logged = choose|logged: Result<(), NetToolError>| #[trigger]
        kept_and_logged(l4, to, after, waiting, "pending_confirmation"@, logged) && match logged {
            Ok(_) => true,
            Err(e) => false,
        };
    assert(logged->Ok_0 == ());
    let last = choose|last: Result<(), NetToolError>|
        match last {
            Ok(_) => to == (#[trigger] l4.push(Step::Persist(after, last))).push(
                Step::Audit(waiting, "pending_confirmation"@, logged),
            ),
            Err(_) => false,
        };
    assert(last->Ok_0 == ());
    assert(to.take(from.len() as int) =~= from);
}

// ------------------------------------------------------------------------------- the manager

/// Whether a request is well formed.
pub open spec fn request_valid(request: BeginSafeApply<'_>) -> bool {
    &&& !text::blank(request.operation_id@)
    &&& !text::blank(request.interface_id@)
    &&& 10 <= request.confirm_timeout_seconds <= 600
    &&& helper_protocol::state_fault(*request.desired_state) is None
}

/// What becomes of a request before anything is changed, given the records.
pub open spec fn outcome_of(records: Seq<RecordView>, request: BeginSafeApply<'_>) -> BeginOutcome {
    begin_outcome(
        records,
        request.operation_id@,
        request.interface_id@,
        *request.desired_state,
        request.confirm_timeout_seconds,
    )
}

/// A request that is made again while its operation waits is answered with the record of that
/// operation. The same operation for another interface or another configuration is refused.
pub proof fn law_repeated_begin_is_answered_with_the_record(
    from: Seq<Step>,
    to: Seq<Step>,
    before: Seq<RecordView>,
    after: Seq<RecordView>,
    first: BeginSafeApply<'_>,
    record: PendingSafeApply,
    second: BeginSafeApply<'_>,
)
    requires
        outcome_of(before, first) is Accepted,
        accepted_by(from, to, before, after, first, Ok(record)),
        request_valid(second),
        second.operation_id@ == first.operation_id@,
    ensures
        if second.interface_id@ == first.interface_id@ && desired_hash(second.desired_state@)
            == desired_hash(first.desired_state@) {
            outcome_of(after, second) matches BeginOutcome::Repeated(at) && after[at] == record@
        } else {
            outcome_of(after, second) == BeginOutcome::Refused(
                ErrorCode::OperationConflict,
                "operation ID was reused with a different Safe Apply request"@,
            )
        },
{
    law_success_means_kept_recorded_and_in_force(
        from,
        to,
        before,
        after,
        first,
        Ok::<PendingSafeApply, NetToolError>(record),
    );
    lemma_first_record_is(before, first.operation_id@);
    lemma_first_record(after, first.operation_id@, before.len() as int);
}

/// Keeps the operations that wait for confirmation.
pub struct SafeApplyManager {
    pending: Vec<PendingSafeApply>,
}

impl View for SafeApplyManager {
    type V = Seq<RecordView>;

    closed spec fn view(&self) -> Seq<RecordView> {
        record_views(self.pending@)
    }
}

impl SafeApplyManager {
    /// Takes over the records of an earlier manager; none at the first start.
    pub fn open(records: Vec<PendingSafeApply>) -> (r: Self)
        ensures
            r@ == record_views(records@),
    {
        SafeApplyManager { pending: records }
    }

    /// Returns all records, as they are to be kept.
    pub fn records(&self) -> (r: &Vec<PendingSafeApply>)
        ensures
            record_views(r@) == self@,
    {
        &self.pending
    }

    fn find_record(&self, operation_id: &str) -> (r: usize)
        ensures
            r == first_record(self@, operation_id@),
            r <= self@.len(),
            self@.len() == self.pending@.len(),
    {
        let mut i: usize = 0;
        while i < self.pending.len()
            invariant
                i <= self.pending@.len(),
                self@ == record_views(self.pending@),
                forall|j: int| 0 <= j < i ==> (#[trigger] self@[j]).operation_id != operation_id@,
            decreases self.pending@.len() - i,
        {
            if same(self.pending[i].operation_id.as_str(), operation_id) {
                proof {
                    assert(self@[i as int].operation_id == operation_id@);
                    lemma_first_record(self@, operation_id@, i as int);
                }
                return i;
            }
            i += 1;
        }
        proof {
            lemma_first_record(self@, operation_id@, i as int);
        }
        i
    }

    fn find_active(&self, operation_id: &str) -> (r: Result<usize, NetToolError>)
        ensures
            match r {
                Ok(i) => i == first_active(self@, operation_id@) && i < self@.len() && i
                    < self.pending@.len(),
                Err(e) => first_active(self@, operation_id@) == self@.len() && e.is(
                    ErrorCode::InvalidState,
                    "Safe Apply operation is not pending"@,
                    false,
                ),
            },
    {
        let mut i: usize = 0;
        while i < self.pending.len()
            invariant
                i <= self.pending@.len(),
                self@ == record_views(self.pending@),
                forall|j: int|
                    0 <= j < i ==> (#[trigger] self@[j]).operation_id != operation_id@
                        || !pending_state(self@[j].state),
            decreases self.pending@.len() - i,
        {
            if same(self.pending[i].operation_id.as_str(), operation_id) && is_pending(
                self.pending[i].state,
            ) {
                proof {
                    assert(self@[i as int].operation_id == operation_id@);
                    lemma_first_active(self@, operation_id@, i as int);
                }
                return Ok(i);
            }
            i += 1;
        }
        proof {
            lemma_first_active(self@, operation_id@, i as int);
        }
        Err(
            NetToolError::new(
                ErrorCode::InvalidState,
                "Safe Apply operation is not pending",
                false,
            ),
        )
    }

    fn is_busy(&self, interface_id: &str) -> (r: bool)
        ensures
            r == interface_busy(self@, interface_id@),
    {
        let mut i: usize = 0;
        while i < self.pending.len()
            invariant
                i <= self.pending@.len(),
                self@ == record_views(self.pending@),
                forall|j: int|
                    0 <= j < i ==> !(pending_state((#[trigger] self@[j]).state)
                        && self@[j].target_interface == interface_id@),
            decreases self.pending@.len() - i,
        {
            if is_pending(self.pending[i].state) && same(
                self.pending[i].target_interface.as_str(),
                interface_id,
            ) {
                proof {
                    assert(pending_state(self@[i as int].state));
                }
                return true;
            }
            i += 1;
        }
        false
    }

    /// Decides what becomes of a request before anything is changed: the record of the same
    /// request where it is already pending, nothing where the request goes ahead.
    ///
    /// # Errors
    ///
    /// Fails when the request is not valid, when the operation was used for another request
    /// and when the interface already has a pending operation.
    pub fn check_begin(&self, request: &BeginSafeApply<'_>) -> (r: Result<
        Option<PendingSafeApply>,
        NetToolError,
    >)
        ensures
            ({
                let outcome = begin_outcome(
                    self@,
                    request.operation_id@,
                    request.interface_id@,
                    *request.desired_state,
                    request.confirm_timeout_seconds,
                );
                match r {
                    Ok(Some(record)) => outcome matches BeginOutcome::Repeated(at) && record@
                        == self@[at],
                    Ok(None) => outcome is Accepted,
                    Err(e) => outcome matches BeginOutcome::Refused(code, message) && e.is(
                        code,
                        message,
                        false,
                    ),
                }
            }),
    {
        if is_blank(request.operation_id) || is_blank(request.interface_id) {
            return Err(
                NetToolError::new(
                    ErrorCode::InvalidArgument,
                    "operation and interface IDs are required",
                    false,
                ),
            );
        }
        if request.confirm_timeout_seconds < 10 || request.confirm_timeout_seconds > 600 {
            return Err(
                NetToolError::new(
                    ErrorCode::InvalidArgument,
                    "confirm timeout must be between 10 and 600 seconds",
                    false,
                ),
            );
        }
        match request.desired_state.validate() {
            Ok(_) => {},
            Err(message) => {
                return Err(NetToolError::new(ErrorCode::InvalidArgument, message, false));
            },
        }
        let digest = hash_of_state(request.desired_state);
        let at: usize = self.find_record(request.operation_id);
        if at < self.pending.len() {
            let existing = &self.pending[at];
            if is_pending(existing.state) && same(
                existing.target_interface.as_str(),
                request.interface_id,
            ) && same(existing.new_state_hash.as_str(), digest.as_str()) {
                return Ok(Some(existing.duplicate()));
            }
            return Err(
                NetToolError::new(
                    ErrorCode::OperationConflict,
                    "operation ID was reused with a different Safe Apply request",
                    false,
                ),
            );
        }
        if self.is_busy(request.interface_id) {
            return Err(
                NetToolError::new(
                    ErrorCode::ResourceConflict,
                    "interface already has a pending Safe Apply",
                    false,
                ),
            );
        }
        Ok(None)
    }

    /// Records an accepted request, with the old state kept.
    ///
    /// # Errors
    ///
    /// Fails when the deadline does not fit.
    pub fn prepare(
        &mut self,
        request: &BeginSafeApply<'_>,
        snapshot_id: String,
        old_state_json: &[u8],
    ) -> (r: Result<PendingSafeApply, NetToolError>)
        ensures
            match r {
                Ok(record) => {
                    &&& request.now_unix_seconds + request.confirm_timeout_seconds <= u64::MAX
                    &&& record@ == (RecordView {
                        operation_id: request.operation_id@,
                        target_interface: request.interface_id@,
                        snapshot_id: snapshot_id@,
                        deadline: (request.now_unix_seconds
                            + request.confirm_timeout_seconds) as u64,
                        state: SafeApplyState::Prepared,
                        old_state_hash: state_hash(old_state_json@),
                        new_state_hash: desired_hash(request.desired_state@),
                    })
                    &&& final(self)@ == old(self)@.push(record@)
                },
                Err(e) => {
                    &&& request.now_unix_seconds + request.confirm_timeout_seconds > u64::MAX
                    &&& e.is(ErrorCode::InvalidArgument, "rollback deadline overflow"@, false)
                    &&& final(self)@ == old(self)@
                },
            },
    {
        let deadline: u64 = match request.now_unix_seconds.checked_add(
            request.confirm_timeout_seconds,
        ) {
            Some(n) => n,
            None => {
                return Err(
                    NetToolError::new(
                        ErrorCode::InvalidArgument,
                        "rollback deadline overflow",
                        false,
                    ),
                );
            },
        };
        let record = PendingSafeApply {
            operation_id: request.operation_id.to_owned(),
            target_interface: request.interface_id.to_owned(),
            snapshot_id,
            deadline_unix_seconds: deadline,
            state: SafeApplyState::Prepared,
            old_state_hash: hash_json(old_state_json),
            new_state_hash: hash_of_state(request.desired_state),
        };
        let ghost before = self@;
        self.pending.push(record.duplicate());
        proof {
            assert(self@ =~= before.push(record@));
        }
        Ok(record)
    }

    fn replace_record(&mut self, record: &PendingSafeApply) -> (r: Result<(), NetToolError>)
        ensures
            match r {
                Ok(_) => {
                    &&& first_record(old(self)@, record.operation_id@) < old(self)@.len()
                    &&& final(self)@ == with_record(old(self)@, record@)
                },
                Err(e) => {
                    &&& first_record(old(self)@, record.operation_id@) == old(self)@.len()
                    &&& final(self)@ == old(self)@
                    &&& e.is(ErrorCode::InvalidState, "Safe Apply record disappeared"@, false)
                },
            },
    {
        let at: usize = self.find_record(record.operation_id.as_str());
        if at >= self.pending.len() {
            return Err(
                NetToolError::new(ErrorCode::InvalidState, "Safe Apply record disappeared", false),
            );
        }
        let copy = record.duplicate();
        let ghost before = self@;
        self.pending.set(at, copy);
        proof {
            assert(self@ =~= with_record(before, record@));
        }
        Ok(())
    }

    /// Applies a configuration and waits for its confirmation. The old state and the deadline
    /// are kept before anything is applied. Where applying or verifying fails, the old state
    /// is restored.
    ///
    /// # Errors
    ///
    /// Fails when the request is refused, when the old state or the records cannot be kept,
    /// and when applying or verifying fails. What the executor and the store do is up to
    /// them. Whatever that is, a refused or repeated request changes nothing and reaches
    /// neither of them, and after success the operation waits for its confirmation.
    pub fn begin<E: NetworkExecutor, S: SafeApplyStore>(
        &mut self,
        outside: &mut Outside<E, S>,
        request: BeginSafeApply<'_>,
    ) -> (r: Result<PendingSafeApply, NetToolError>)
        ensures
            records_sound(old(self)@) ==> records_sound(final(self)@),
            ({
                let outcome = begin_outcome(
                    old(self)@,
                    request.operation_id@,
                    request.interface_id@,
                    *request.desired_state,
                    request.confirm_timeout_seconds,
                );
                match outcome {
                    BeginOutcome::Refused(code, message) => {
                        &&& r matches Err(e) && e.is(code, message, false)
                        &&& final(self)@ == old(self)@
                        &&& *final(outside) == *old(outside)
                    },
                    BeginOutcome::Repeated(at) => {
                        &&& r matches Ok(record) && record@ == old(self)@[at]
                        &&& final(self)@ == old(self)@
                        &&& *final(outside) == *old(outside)
                    },
                    BeginOutcome::Accepted => accepted_by(
                        old(outside).log(),
                        final(outside).log(),
                        old(self)@,
                        final(self)@,
                        request,
                        r,
                    ),
                }
            }),
    {
        match self.check_begin(&request) {
            Ok(Some(existing)) => {
                return Ok(existing);
            },
            Ok(None) => {},
            Err(e) => {
                return Err(e);
            },
        }
        let ghost before = self@;
        let ghost n = before.len() as int;
        let ghost l0 = outside.log();
        let kept = outside.snapshot(request.interface_id);
        let ghost l1 = outside.log();
        let ghost answer = kept;
        proof {
            assert(l1 == l0.push(Step::Snapshot(request.interface_id@, answer)));
        }
        let (snapshot_id, old_state) = match kept {
            Ok(kept) => kept,
            Err(e) => {
                return Err(e);
            },
        };
        let ghost expected = prepared_record(request, snapshot_id@, old_state@);
        let record = match self.prepare(&request, snapshot_id, old_state.as_slice()) {
            Ok(record) => record,
            Err(e) => {
                proof {
                    let r = Err::<PendingSafeApply, NetToolError>(e);
                    assert(recorded_by(l1, outside.log(), before, self@, request, expected, r));
                }
                return Err(e);
            },
        };
        let ghost prepared = self@;
        proof {
            assert(record@ == expected);
            if records_sound(before) {
                lemma_accepted_stays_sound(before, record@);
            }
            lemma_first_record_is(before, request.operation_id@);
            lemma_first_record(prepared, request.operation_id@, n);
            lemma_first_active(prepared, request.operation_id@, n);
        }
        let recorded = self.persist_with(outside);
        let ghost l2 = outside.log();
        proof {
            assert(l2 == l1.push(Step::Persist(before.push(expected), recorded)));
        }
        match recorded {
            Ok(_) => {},
            Err(e) => {
                proof {
                    let r = Err::<PendingSafeApply, NetToolError>(e);
                    assert(recorded_by(l1, l2, before, self@, request, expected, r));
                }
                return Err(e);
            },
        }
        let result = self.carry_out(outside, &request, record);
        proof {
            assert(recorded_by(l1, outside.log(), before, self@, request, expected, result));
        }
        result
    }

    fn persist_with<E: NetworkExecutor, S: SafeApplyStore>(
        &self,
        outside: &mut Outside<E, S>,
    ) -> (r: Result<(), NetToolError>)
        ensures
            final(outside).log() == old(outside).log().push(Step::Persist(self@, r)),
    {
        outside.persist(self.pending.as_slice())
    }

    fn keep_and_log<E: NetworkExecutor, S: SafeApplyStore>(
        &self,
        outside: &mut Outside<E, S>,
        record: &PendingSafeApply,
        note: &str,
    ) -> (r: Result<(), NetToolError>)
        ensures
            kept_and_logged(old(outside).log(), final(outside).log(), self@, record@, note@, r),
    {
        let ghost l0 = outside.log();
        let kept = self.persist_with(outside);
        proof {
            assert(outside.log() == l0.push(Step::Persist(self@, kept)));
        }
        match kept {
            Ok(_) => outside.audit(record, note),
            Err(e) => Err(e),
        }
    }

    fn carry_out<E: NetworkExecutor, S: SafeApplyStore>(
        &mut self,
        outside: &mut Outside<E, S>,
        request: &BeginSafeApply<'_>,
        record: PendingSafeApply,
    ) -> (r: Result<PendingSafeApply, NetToolError>)
        requires
            old(self)@.len() > 0,
            old(self)@.last() == record@,
            record.operation_id@ == request.operation_id@,
            first_record(old(self)@, request.operation_id@) == old(self)@.len() - 1,
            first_active(old(self)@, request.operation_id@) == old(self)@.len() - 1,
        ensures
            records_sound(old(self)@) ==> records_sound(final(self)@),
            carried_out(
                old(outside).log(),
                final(outside).log(),
                old(self)@,
                final(self)@,
                *request,
                r,
            ),
    {
        let ghost prepared = self@;
        let ghost l0 = outside.log();
        let first = outside.apply(request.interface_id, request.desired_state);
        let ghost tried = first;
        proof {
            assert(outside.log() == l0.push(
                Step::Apply(request.interface_id@, *request.desired_state, tried),
            ));
        }
        let applied = match first {
            Ok(_) => outside.verify(request.interface_id, request.desired_state),
            Err(e) => Err(e),
        };
        let ghost l1 = outside.log();
        let ghost outcome = applied;
        proof {
            assert(applied_and_verified(
                l0,
                l1,
                request.interface_id@,
                *request.desired_state,
                outcome,
            ));
        }
        match applied {
            Ok(_) => {},
            Err(apply_error) => {
                let undone = self.roll_back(outside, request.operation_id, "apply_failed");
                let ghost attempt = undone;
                proof {
                    assert(rolled_back_by(
                        l1,
                        outside.log(),
                        prepared,
                        self@,
                        request.operation_id@,
                        "apply_failed"@,
                        attempt,
                    ));
                }
                return match undone {
                    Ok(_) => Err(apply_error),
                    Err(rollback_error) => Err(rollback_failure(&apply_error, &rollback_error)),
                };
            },
        }
        let waiting = record.moved_to(SafeApplyState::PendingConfirmation);
        match self.replace_record(&waiting) {
            Ok(_) => {},
            Err(e) => {
                return Err(e);
            },
        }
        proof {
            if records_sound(prepared) {
                law_moving_on_keeps_records_sound(
                    prepared,
                    request.operation_id@,
                    SafeApplyState::PendingConfirmation,
                );
            }
            assert(self@ =~= prepared.update(prepared.len() - 1, waiting@));
        }
        let logged = self.keep_and_log(outside, &waiting, "pending_confirmation");
        let ghost answer = logged;
        let ghost seen = waiting@;
        let r = match logged {
            Ok(_) => Ok(waiting),
            Err(e) => Err(e),
        };
        proof {
            assert(kept_and_logged(
                l1,
                outside.log(),
                self@,
                seen,
                "pending_confirmation"@,
                answer,
            ));
            assert(waits(l1, outside.log(), prepared, self@, r));
        }
        r
    }

    /// Decides on a confirmation at a time.
    ///
    /// # Errors
    ///
    /// Fails when the operation is not pending, and when its deadline has passed.
    pub fn accept_confirmation(&mut self, operation_id: &str, now_unix_seconds: u64) -> (r: Result<
        PendingSafeApply,
        NetToolError,
    >)
        ensures
            records_sound(old(self)@) ==> records_sound(final(self)@),
            ({
                let at = first_active(old(self)@, operation_id@);
                match r {
                    Ok(record) => {
                        &&& at < old(self)@.len()
                        &&& now_unix_seconds < old(self)@[at].deadline
                        &&& final(self)@ == with_state(
                            old(self)@,
                            operation_id@,
                            SafeApplyState::Confirmed,
                        )
                        &&& record@ == (RecordView {
                            state: SafeApplyState::Confirmed,
                            ..old(self)@[at]
                        })
                    },
                    Err(e) => {
                        &&& final(self)@ == old(self)@
                        &&& at == old(self)@.len() ==> e.is(
                            ErrorCode::InvalidState,
                            "Safe Apply operation is not pending"@,
                            false,
                        )
                        &&& at < old(self)@.len() ==> now_unix_seconds >= old(self)@[at].deadline
                            && e.is(
                            ErrorCode::InvalidState,
                            "Safe Apply deadline has expired; rollback is required"@,
                            false,
                        )
                    },
                }
            }),
    {
        proof {
            lemma_first_active_is(self@, operation_id@);
            lemma_active_is_recorded(self@, operation_id@);
        }
        let at: usize = match self.find_active(operation_id) {
            Ok(at) => at,
            Err(e) => {
                return Err(e);
            },
        };
        if now_unix_seconds >= self.pending[at].deadline_unix_seconds {
            return Err(
                NetToolError::new(
                    ErrorCode::InvalidState,
                    "Safe Apply deadline has expired; rollback is required",
                    false,
                ),
            );
        }
        proof {
            if records_sound(self@) {
                law_moving_on_keeps_records_sound(self@, operation_id@, SafeApplyState::Confirmed);
            }
        }
        let record = self.pending[at].moved_to(SafeApplyState::Confirmed);
        match self.replace_record(&record) {
            Ok(_) => Ok(record),
            Err(e) => Err(e),
        }
    }

    /// Confirms an operation at a time, which cancels its rollback.
    ///
    /// # Errors
    ///
    /// Fails when the operation is not pending, when its deadline has passed and when the
    /// records or the log cannot be kept.
    pub fn confirm_at<E: NetworkExecutor, S: SafeApplyStore>(
        &mut self,
        outside: &mut Outside<E, S>,
        operation_id: &str,
        now_unix_seconds: u64,
    ) -> (r: Result<PendingSafeApply, NetToolError>)
        ensures
            records_sound(old(self)@) ==> records_sound(final(self)@),
            ({
                let at = first_active(old(self)@, operation_id@);
                if at < old(self)@.len() && now_unix_seconds < old(self)@[at].deadline {
                    &&& final(self)@ == with_state(
                        old(self)@,
                        operation_id@,
                        SafeApplyState::Confirmed,
                    )
                    &&& confirmed_by(
                        old(outside).log(),
                        final(outside).log(),
                        final(self)@,
                        RecordView { state: SafeApplyState::Confirmed, ..old(self)@[at] },
                        r,
                    )
                } else {
                    &&& final(self)@ == old(self)@
                    &&& *final(outside) == *old(outside)
                    &&& r matches Err(e) && e.is(
                        ErrorCode::InvalidState,
                        if at < old(self)@.len() {
                            "Safe Apply deadline has expired; rollback is required"@
                        } else {
                            "Safe Apply operation is not pending"@
                        },
                        false,
                    )
                }
            }),
    {
        proof {
            lemma_first_active_is(self@, operation_id@);
        }
        let record = match self.accept_confirmation(operation_id, now_unix_seconds) {
            Ok(record) => record,
            Err(e) => {
                return Err(e);
            },
        };
        let ghost l0 = outside.log();
        let logged = self.keep_and_log(outside, &record, "confirmed");
        proof {
            assert(kept_and_logged(l0, outside.log(), self@, record@, "confirmed"@, logged));
        }
        match logged {
            Ok(_) => Ok(record),
            Err(e) => Err(e),
        }
    }

    fn roll_back<E: NetworkExecutor, S: SafeApplyStore>(
        &mut self,
        outside: &mut Outside<E, S>,
        operation_id: &str,
        result: &str,
    ) -> (r: Result<(), NetToolError>)
        ensures
            records_sound(old(self)@) ==> records_sound(final(self)@),
            rolled_back(old(self)@, final(self)@, operation_id@, r is Ok),
            rolled_back_by(
                old(outside).log(),
                final(outside).log(),
                old(self)@,
                final(self)@,
                operation_id@,
                result@,
                r,
            ),
            first_active(old(self)@, operation_id@) == old(self)@.len() ==> *final(outside)
                == *old(outside),
    {
        let ghost before = self@;
        proof {
            lemma_first_active_is(before, operation_id@);
            lemma_active_is_recorded(before, operation_id@);
            lemma_first_record_is(before, operation_id@);
        }
        let found: usize = match self.find_active(operation_id) {
            Ok(at) => at,
            Err(e) => {
                return Err(e);
            },
        };
        let rolling = self.pending[found].moved_to(SafeApplyState::RollingBack);
        match self.replace_record(&rolling) {
            Ok(_) => {},
            Err(e) => {
                return Err(e);
            },
        }
        proof {
            lemma_moved_twice(before, operation_id@, rolling@, SafeApplyState::Failed);
            lemma_moved_twice(before, operation_id@, rolling@, SafeApplyState::RolledBack);
            if records_sound(before) {
                law_moving_on_keeps_records_sound(
                    before,
                    operation_id@,
                    SafeApplyState::RollingBack,
                );
                law_moving_on_keeps_records_sound(before, operation_id@, SafeApplyState::Failed);
                law_moving_on_keeps_records_sound(
                    before,
                    operation_id@,
                    SafeApplyState::RolledBack,
                );
            }
        }
        let ghost l0 = outside.log();
        let kept = self.persist_with(outside);
        let ghost l1 = outside.log();
        proof {
            assert(self@ == with_state(before, operation_id@, SafeApplyState::RollingBack));
            assert(l1 == l0.push(
                Step::Persist(
                    with_state(before, operation_id@, SafeApplyState::RollingBack),
                    kept,
                ),
            ));
        }
        match kept {
            Ok(_) => {},
            Err(e) => {
                return Err(e);
            },
        }
        let restored = outside.restore(rolling.snapshot_id.as_str());
        let ghost answer = restored;
        let ghost l2 = outside.log();
        proof {
            assert(l2 == l1.push(Step::Restore(rolling@.snapshot_id, answer)));
        }
        match restored {
            Ok(_) => {},
            Err(restore_error) => {
                let failed = rolling.moved_to(SafeApplyState::Failed);
                match self.replace_record(&failed) {
                    Ok(_) => {},
                    Err(e) => {
                        return Err(e);
                    },
                }
                let logged = self.keep_and_log(outside, &failed, "rollback_failed");
                let ghost noted = logged;
                let r = match logged {
                    Ok(_) => Err(restore_error),
                    Err(e) => Err(e),
                };
                proof {
                    assert(kept_and_logged(
                        l2,
                        outside.log(),
                        self@,
                        failed@,
                        "rollback_failed"@,
                        noted,
                    ));
                    assert(restored_by(
                        l1,
                        outside.log(),
                        before,
                        self@,
                        operation_id@,
                        result@,
                        r,
                    ));
                }
                return r;
            },
        }
        let back = rolling.moved_to(SafeApplyState::RolledBack);
        match self.replace_record(&back) {
            Ok(_) => {},
            Err(e) => {
                return Err(e);
            },
        }
        let r = self.keep_and_log(outside, &back, result);
        proof {
            assert(restored_by(l1, outside.log(), before, self@, operation_id@, result@, r));
        }
        r
    }

    /// Rolls an operation back at once.
    ///
    /// # Errors
    ///
    /// Fails when the operation is not pending, when the old state cannot be restored and
    /// when the records or the log cannot be kept. Whatever the executor and the store do, no
    /// other record is touched, and success means that the old state was restored.
    pub fn rollback<E: NetworkExecutor, S: SafeApplyStore>(
        &mut self,
        outside: &mut Outside<E, S>,
        operation_id: &str,
    ) -> (r: Result<(), NetToolError>)
        ensures
            records_sound(old(self)@) ==> records_sound(final(self)@),
            rolled_back(old(self)@, final(self)@, operation_id@, r is Ok),
            rolled_back_by(
                old(outside).log(),
                final(outside).log(),
                old(self)@,
                final(self)@,
                operation_id@,
                "explicit_rollback"@,
                r,
            ),
            first_active(old(self)@, operation_id@) == old(self)@.len() ==> *final(outside)
                == *old(outside),
    {
        self.roll_back(outside, operation_id, "explicit_rollback")
    }

    /// Returns the pending operations whose deadline has passed, in their order.
    pub fn expired(&self, now_unix_seconds: u64) -> (r: Vec<String>)
        ensures
            text::texts(r@) == expired_operations(self@, now_unix_seconds),
    {
        let mut out: Vec<String> = Vec::new();
        let mut i: usize = 0;
        proof {
            assert(text::texts(out@) =~= expired_operations(self@.take(0), now_unix_seconds));
        }
        while i < self.pending.len()
            invariant
                i <= self.pending@.len(),
                self@ == record_views(self.pending@),
                text::texts(out@) == expired_operations(self@.take(i as int), now_unix_seconds),
            decreases self.pending@.len() - i,
        {
            let ghost sofar = text::texts(out@);
            proof {
                assert(self@.take(i + 1).drop_last() == self@.take(i as int));
                assert(self@.take(i + 1).last() == self.pending@[i as int]@);
            }
            if is_pending(self.pending[i].state) && self.pending[i].deadline_unix_seconds
                <= now_unix_seconds {
                out.push(self.pending[i].operation_id.as_str().to_owned());
                proof {
                    assert(text::texts(out@) =~= sofar.push(
                        self.pending@[i as int].operation_id@,
                    ));
                }
            }
            i += 1;
        }
        proof {
            assert(self@.take(self@.len() as int) == self@);
        }
        out
    }

    /// Rolls back every operation whose deadline has passed, and returns them.
    ///
    /// # Errors
    ///
    /// Fails at the first rollback that fails; those behind it are left for the next time.
    /// Whatever the executor and the store do, success means that exactly the expired
    /// operations were rolled back.
    pub fn recover_expired<E: NetworkExecutor, S: SafeApplyStore>(
        &mut self,
        outside: &mut Outside<E, S>,
        now_unix_seconds: u64,
    ) -> (r: Result<Vec<String>, NetToolError>)
        ensures
            records_sound(old(self)@) ==> records_sound(final(self)@),
            r matches Ok(ids) ==> {
                &&& text::texts(ids@) == expired_operations(old(self)@, now_unix_seconds)
                &&& records_sound(old(self)@) ==> final(self)@ == recovered(
                    old(self)@,
                    now_unix_seconds,
                )
            },
            exists|
                path: Seq<(Seq<Step>, Seq<RecordView>)>,
                outcome: Result<(), NetToolError>,
            | #[trigger]
                recovered_by(
                    path,
                    expired_operations(old(self)@, now_unix_seconds),
                    outcome,
                ) && path[0] == (old(outside).log(), old(self)@) && path.last() == (
                    final(outside).log(),
                    final(self)@,
                ) && match outcome {
                    Ok(_) => r is Ok,
                    Err(e) => r == Err::<Vec<String>, NetToolError>(e),
                },
            expired_operations(old(self)@, now_unix_seconds).len() == 0 ==> {
                &&& r is Ok
                &&& *final(outside) == *old(outside)
            },
            records_sound(old(self)@) && all_went_well(old(outside).log(), final(outside).log())
                ==> {
                &&& r is Ok
                &&& final(outside).log() == old(outside).log() + recovery_steps(
                    old(self)@,
                    now_unix_seconds,
                    expired_operations(old(self)@, now_unix_seconds).len(),
                )
            },
    {
        let ghost before = self@;
        let expired = self.expired(now_unix_seconds);
        let ghost ids = text::texts(expired@);
        let mut i: usize = 0;
        let ghost mut path: Seq<(Seq<Step>, Seq<RecordView>)> = seq![(outside.log(), before)];
        proof {
            lemma_recovery_starts(before, now_unix_seconds);
        }
        while i < expired.len()
            invariant
                i <= expired@.len(),
                ids == text::texts(expired@),
                before == old(self)@,
                ids == expired_operations(before, now_unix_seconds),
                records_sound(before) ==> records_sound(self@),
                records_sound(before) ==> self@ == partly_recovered(
                    before,
                    now_unix_seconds,
                    ids.take(i as int),
                ),
                ids.len() == 0 ==> *outside == *old(outside),
                path.len() == i + 1,
                path[0] == (old(outside).log(), before),
                path[i as int] == (outside.log(), self@),
                forall|k: int|
                    #![trigger path[k]]
                    0 <= k < i ==> rolled_back_by(
                        path[k].0,
                        path[k + 1].0,
                        path[k].1,
                        path[k + 1].1,
                        ids[k],
                        "deadline_expired"@,
                        Ok(()),
                    ),
            decreases expired@.len() - i,
        {
            let ghost sofar = self@;
            proof {
                assert(ids[i as int] == expired@[i as int]@);
            }
            let undone = self.roll_back(outside, expired[i].as_str(), "deadline_expired");
            proof {
                path = path.push((outside.log(), self@));
            }
            match undone {
                Ok(_) => {},
                Err(e) => {
                    proof {
                        let outcome = Err::<(), NetToolError>(e);
                        assert(recovered_by(path, ids, outcome));
                        if records_sound(before) && all_went_well(
                            old(outside).log(),
                            outside.log(),
                        ) {
                            law_recovery_restores_each_expired_once(
                                path,
                                now_unix_seconds,
                                outcome,
                            );
                        }
                    }
                    return Err(e);
                },
            }
            proof {
                assert(undone->Ok_0 == ());
                assert(undone == Ok::<(), NetToolError>(()));
                if records_sound(before) {
                    lemma_recovery_step(before, now_unix_seconds, ids, i as int, sofar, self@);
                }
            }
            i += 1;
        }
        proof {
            assert(ids.take(ids.len() as int) == ids);
            lemma_recovery_ends(before, now_unix_seconds);
            assert(recovered_by(path, ids, Ok(())));
            if records_sound(before) && all_went_well(old(outside).log(), outside.log()) {
                law_recovery_restores_each_expired_once(path, now_unix_seconds, Ok(()));
            }
        }
        Ok(expired)
    }

    /// Returns the operations that are pending, in their order.
    #[must_use]
    pub fn pending(&self) -> (r: Vec<PendingSafeApply>)
        ensures
            record_views(r@) == pending_records(self@),
    {
        let mut out: Vec<PendingSafeApply> = Vec::new();
        let mut i: usize = 0;
        proof {
            assert(record_views(out@) =~= pending_records(self@.take(0)));
        }
        while i < self.pending.len()
            invariant
                i <= self.pending@.len(),
                self@ == record_views(self.pending@),
                record_views(out@) == pending_records(self@.take(i as int)),
            decreases self.pending@.len() - i,
        {
            let ghost sofar = record_views(out@);
            proof {
                assert(self@.take(i + 1).drop_last() == self@.take(i as int));
                assert(self@.take(i + 1).last() == self.pending@[i as int]@);
            }
            if is_pending(self.pending[i].state) {
                out.push(self.pending[i].duplicate());
                proof {
                    assert(record_views(out@) =~= sofar.push(self.pending@[i as int]@));
                }
            }
            i += 1;
        }
        proof {
            assert(self@.take(self@.len() as int) == self@);
        }
        out
    }
}

/// The error of a failed application whose rollback failed too: neither hides the other.
pub fn rollback_failure(apply_error: &NetToolError, rollback_error: &NetToolError) -> (r:
    NetToolError)
    ensures
        r.is(
            ErrorCode::RollbackFailed,
            "apply failed ("@ + apply_error.text() + "); rollback also failed ("@
                + rollback_error.text() + ")"@,
            false,
        ),
{
    let mut message = "apply failed (".to_owned();
    message.append(apply_error.to_text().as_str());
    message.append("); rollback also failed (");
    message.append(rollback_error.to_text().as_str());
    message.append(")");
    NetToolError::new(ErrorCode::RollbackFailed, message.as_str(), false)
}

/// What a rollback may have done to the records: nothing where the operation is not pending;
/// otherwise the operation, and no other one, was moved on, and after success its old state
/// was restored.
pub open spec fn rolled_back(
    before: Seq<RecordView>,
    after: Seq<RecordView>,
    operation_id: Seq<char>,
    success: bool,
) -> bool {
    if first_active(before, operation_id) >= before.len() {
        after == before && !success
    } else if success {
        after == with_state(before, operation_id, SafeApplyState::RolledBack)
    } else {
        ||| after == with_state(before, operation_id, SafeApplyState::RollingBack)
        ||| after == with_state(before, operation_id, SafeApplyState::RolledBack)
        ||| after == with_state(before, operation_id, SafeApplyState::Failed)
    }
}

/// Whether a record is pending and its deadline has passed.
pub open spec fn record_expired(record: RecordView, now: u64) -> bool {
    pending_state(record.state) && record.deadline <= now
}

/// The operations whose deadline has passed, in their order.
pub open spec fn expired_operations(records: Seq<RecordView>, now: u64) -> Seq<Seq<char>>
    decreases records.len(),
{
    if records.len() == 0 {
        Seq::empty()
    } else {
        let head = expired_operations(records.drop_last(), now);
        if record_expired(records.last(), now) {
            head.push(records.last().operation_id)
        } else {
            head
        }
    }
}

/// The records whose deadline has passed, in their order.
pub open spec fn expired_records(records: Seq<RecordView>, now: u64) -> Seq<RecordView>
    decreases records.len(),
{
    if records.len() == 0 {
        Seq::empty()
    } else {
        let head = expired_records(records.drop_last(), now);
        if record_expired(records.last(), now) {
            head.push(records.last())
        } else {
            head
        }
    }
}

/// Whether a call succeeded.
pub open spec fn went_well(step: Step) -> bool {
    match step {
        Step::Snapshot(_, r) => r is Ok,
        Step::Apply(_, _, r) => r is Ok,
        Step::Verify(_, _, r) => r is Ok,
        Step::Restore(_, r) => r is Ok,
        Step::Persist(_, r) => r is Ok,
        Step::Audit(_, _, r) => r is Ok,
    }
}

/// Whether every call behind the first ones succeeded.
pub open spec fn all_went_well(from: Seq<Step>, to: Seq<Step>) -> bool {
    forall|i: int| from.len() <= i < to.len() ==> went_well(#[trigger] to[i])
}

/// The calls that roll a pending operation back where each of them succeeds.
pub open spec fn rollback_steps(
    records: Seq<RecordView>,
    operation_id: Seq<char>,
    note: Seq<char>,
) -> Seq<Step> {
    let record = records[first_active(records, operation_id)];
    seq![
        Step::Persist(with_state(records, operation_id, SafeApplyState::RollingBack), Ok(())),
        Step::Restore(record.snapshot_id, Ok(())),
        Step::Persist(with_state(records, operation_id, SafeApplyState::RolledBack), Ok(())),
        Step::Audit(RecordView { state: SafeApplyState::RolledBack, ..record }, note, Ok(())),
    ]
}

/// The calls that roll the first expired operations back, as many as said, where each of them
/// succeeds.
pub open spec fn recovery_steps(records: Seq<RecordView>, now: u64, count: nat) -> Seq<Step>
    decreases count,
{
    if count == 0 {
        Seq::empty()
    } else {
        let done = (count - 1) as nat;
        let ids = expired_operations(records, now);
        recovery_steps(records, now, done) + rollback_steps(
            partly_recovered(records, now, ids.take(done as int)),
            ids[done as int],
            "deadline_expired"@,
        )
    }
}

/// The identifiers of the states that calls restore, in their order.
pub open spec fn restored_snapshots(steps: Seq<Step>) -> Seq<Seq<char>>
    decreases steps.len(),
{
    if steps.len() == 0 {
        Seq::empty()
    } else {
        let head = restored_snapshots(steps.drop_last());
        match steps.last() {
            Step::Restore(snapshot_id, _) => head.push(snapshot_id),
            _ => head,
        }
    }
}

/// The pending records, in their order.
pub open spec fn pending_records(records: Seq<RecordView>) -> Seq<RecordView>
    decreases records.len(),
{
    if records.len() == 0 {
        Seq::empty()
    } else {
        let head = pending_records(records.drop_last());
        if pending_state(records.last().state) {
            head.push(records.last())
        } else {
            head
        }
    }
}

/// The records after every expired operation was rolled back.
pub open spec fn recovered(records: Seq<RecordView>, now: u64) -> Seq<RecordView> {
    Seq::new(
        records.len(),
        |i: int|
            if record_expired(records[i], now) {
                RecordView { state: SafeApplyState::RolledBack, ..records[i] }
            } else {
                records[i]
            },
    )
}

/// The records after some of the expired operations were rolled back.
pub open spec fn partly_recovered(
    records: Seq<RecordView>,
    now: u64,
    done: Seq<Seq<char>>,
) -> Seq<RecordView> {
    Seq::new(
        records.len(),
        |i: int|
            if record_expired(records[i], now) && done.contains(records[i].operation_id) {
                RecordView { state: SafeApplyState::RolledBack, ..records[i] }
            } else {
                records[i]
            },
    )
}

// ----------------------------------------------------------------------------------- lemmas

proof fn lemma_accepted_stays_sound(records: Seq<RecordView>, record: RecordView)
    requires
        records_sound(records),
        first_record(records, record.operation_id) >= records.len(),
        !interface_busy(records, record.target_interface),
    ensures
        records_sound(records.push(record)),
{
    lemma_first_record_is(records, record.operation_id);
    let after = records.push(record);
    assert forall|i: int, j: int| 0 <= i < j < after.len() implies (
    #[trigger] after[i]).operation_id != (#[trigger] after[j]).operation_id by {
        assert(after[i] == records[i]);
        if j < records.len() {
            assert(after[j] == records[j]);
        }
    }
    assert forall|i: int, j: int|
        0 <= i < j < after.len() && pending_state((#[trigger] after[i]).state) && pending_state(
            (#[trigger] after[j]).state,
        ) implies after[i].target_interface != after[j].target_interface by {
        assert(after[i] == records[i]);
        assert(pending_state(records[i].state));
        if j < records.len() {
            assert(after[j] == records[j]);
        }
    }
}

proof fn lemma_active_is_recorded(records: Seq<RecordView>, operation_id: Seq<char>)
    ensures
        first_active(records, operation_id) < records.len() ==> first_record(records, operation_id)
            < records.len(),
{
    lemma_first_active_is(records, operation_id);
    lemma_first_record_is(records, operation_id);
    let a = first_active(records, operation_id);
    if a < records.len() && first_record(records, operation_id) == records.len() {
        assert(records[a].operation_id != operation_id);
    }
}

proof fn lemma_moved_twice(
    before: Seq<RecordView>,
    operation_id: Seq<char>,
    rolling: RecordView,
    state: SafeApplyState,
)
    requires
        first_active(before, operation_id) < before.len(),
        rolling == (RecordView {
            state: SafeApplyState::RollingBack,
            ..before[first_active(before, operation_id)]
        }),
    ensures
        with_record(with_record(before, rolling), RecordView { state, ..rolling }) == with_state(
            before,
            operation_id,
            state,
        ),
        first_record(with_record(before, rolling), operation_id) < before.len(),
{
    lemma_first_active_is(before, operation_id);
    lemma_active_is_recorded(before, operation_id);
    lemma_first_record_is(before, operation_id);
    let at = first_record(before, operation_id);
    let once = with_record(before, rolling);
    lemma_first_record(once, operation_id, at);
    assert(with_record(once, RecordView { state, ..rolling }) =~= with_state(
        before,
        operation_id,
        state,
    ));
}

/// Whether a pending operation has expired.
spec fn has_expired(records: Seq<RecordView>, now: u64, operation_id: Seq<char>) -> bool {
    exists|i: int|
        0 <= i < records.len() && record_expired(#[trigger] records[i], now)
            && records[i].operation_id == operation_id
}

proof fn lemma_expired_operations(records: Seq<RecordView>, now: u64)
    ensures
        forall|i: int|
            0 <= i < records.len() && record_expired(#[trigger] records[i], now)
                ==> expired_operations(records, now).contains(records[i].operation_id),
        forall|k: int|
            0 <= k < expired_operations(records, now).len() ==> has_expired(
                records,
                now,
                #[trigger] expired_operations(records, now)[k],
            ),
    decreases records.len(),
{
    if records.len() > 0 {
        let shorter = records.drop_last();
        let before = expired_operations(shorter, now);
        let all = expired_operations(records, now);
        lemma_expired_operations(shorter, now);
        assert forall|i: int| 0 <= i < records.len() && record_expired(
            #[trigger] records[i],
            now,
        ) implies all.contains(records[i].operation_id) by {
            if i < shorter.len() {
                assert(shorter[i] == records[i]);
                assert(before.contains(records[i].operation_id));
                let k = choose|k: int|
                    0 <= k < before.len() && before[k] == records[i].operation_id;
                assert(all[k] == before[k]);
            } else {
                assert(all[all.len() - 1] == records[i].operation_id);
            }
        }
        assert forall|k: int| 0 <= k < all.len() implies has_expired(
            records,
            now,
            #[trigger] all[k],
        ) by {
            if k < before.len() {
                assert(all[k] == before[k]);
                assert(has_expired(shorter, now, before[k]));
                let i = choose|i: int|
                    0 <= i < shorter.len() && record_expired(#[trigger] shorter[i], now)
                        && shorter[i].operation_id == before[k];
                assert(records[i] == shorter[i]);
            } else {
                assert(record_expired(records[records.len() - 1], now));
            }
        }
    }
}

proof fn lemma_expired_are_distinct(records: Seq<RecordView>, now: u64)
    requires
        records_sound(records),
    ensures
        forall|a: int, b: int|
            0 <= a < b < expired_operations(records, now).len() ==> #[trigger] expired_operations(
                records,
                now,
            )[a] != #[trigger] expired_operations(records, now)[b],
    decreases records.len(),
{
    if records.len() > 0 {
        let shorter = records.drop_last();
        let before = expired_operations(shorter, now);
        let all = expired_operations(records, now);
        assert(records_sound(shorter)) by {
            assert forall|i: int, j: int| 0 <= i < j < shorter.len() implies (
            #[trigger] shorter[i]).operation_id != (#[trigger] shorter[j]).operation_id by {
                assert(records[i].operation_id != records[j].operation_id);
            }
            assert forall|i: int, j: int|
                0 <= i < j < shorter.len() && pending_state((#[trigger] shorter[i]).state)
                    && pending_state((#[trigger] shorter[j]).state) implies
                shorter[i].target_interface != shorter[j].target_interface by {
                assert(pending_state(records[i].state));
                assert(pending_state(records[j].state));
            }
        }
        lemma_expired_are_distinct(shorter, now);
        lemma_expired_operations(shorter, now);
        assert forall|a: int, b: int| 0 <= a < b < all.len() implies #[trigger] all[a]
            != #[trigger] all[b] by {
            assert(all[a] == before[a]);
            if b < before.len() {
                assert(all[b] == before[b]);
            } else {
                assert(has_expired(shorter, now, before[a]));
                let i = choose|i: int|
                    0 <= i < shorter.len() && record_expired(#[trigger] shorter[i], now)
                        && shorter[i].operation_id == before[a];
                assert(records[i] == shorter[i]);
                assert(records[i].operation_id != records[records.len() - 1].operation_id);
            }
        }
    }
}

proof fn lemma_recovery_starts(records: Seq<RecordView>, now: u64)
    ensures
        partly_recovered(records, now, expired_operations(records, now).take(0)) == records,
{
    assert(partly_recovered(records, now, expired_operations(records, now).take(0)) =~= records);
}

proof fn lemma_recovery_ends(records: Seq<RecordView>, now: u64)
    ensures
        partly_recovered(records, now, expired_operations(records, now)) == recovered(
            records,
            now,
        ),
{
    lemma_expired_operations(records, now);
    assert(partly_recovered(records, now, expired_operations(records, now)) =~= recovered(
        records,
        now,
    ));
}

proof fn lemma_recovery_step(
    records: Seq<RecordView>,
    now: u64,
    ids: Seq<Seq<char>>,
    n: int,
    sofar: Seq<RecordView>,
    after: Seq<RecordView>,
)
    requires
        records_sound(records),
        ids == expired_operations(records, now),
        0 <= n < ids.len(),
        sofar == partly_recovered(records, now, ids.take(n)),
        rolled_back(sofar, after, ids[n], true),
    ensures
        after == partly_recovered(records, now, ids.take(n + 1)),
{
    lemma_expired_operations(records, now);
    lemma_expired_are_distinct(records, now);
    let id = ids[n];
    assert(has_expired(records, now, ids[n]));
    let at = choose|i: int|
        0 <= i < records.len() && record_expired(#[trigger] records[i], now)
            && records[i].operation_id == ids[n];
    assert(!ids.take(n).contains(id)) by {
        if ids.take(n).contains(id) {
            let k = choose|k: int| 0 <= k < n && ids.take(n)[k] == id;
            assert(ids[k] == ids[n]);
        }
    }
    assert(sofar[at] == records[at]);
    assert forall|j: int| 0 <= j < at implies (#[trigger] sofar[j]).operation_id != id by {
        assert(records[j].operation_id != records[at].operation_id);
    }
    lemma_first_record(sofar, id, at);
    lemma_first_active(sofar, id, at);
    let goal = partly_recovered(records, now, ids.take(n + 1));
    assert forall|i: int| 0 <= i < records.len() implies #[trigger] after[i] == goal[i] by {
        if i == at {
            assert(ids.take(n + 1)[n] == id);
            assert(ids.take(n + 1).contains(id));
        } else {
            assert(records[i].operation_id != id) by {
                if i < at {
                    assert(records[i].operation_id != records[at].operation_id);
                } else {
                    assert(records[at].operation_id != records[i].operation_id);
                }
            }
            assert(ids.take(n + 1).contains(records[i].operation_id) == ids.take(n).contains(
                records[i].operation_id,
            )) by {
                let longer = ids.take(n + 1);
                if longer.contains(records[i].operation_id) {
                    let k = choose|k: int|
                        0 <= k < longer.len() && longer[k] == records[i].operation_id;
                    assert(k != n);
                    assert(ids.take(n)[k] == records[i].operation_id);
                }
                if ids.take(n).contains(records[i].operation_id) {
                    let k = choose|k: int| 0 <= k < n && ids.take(n)[k] == records[i].operation_id;
                    assert(ids.take(n + 1)[k] == records[i].operation_id);
                }
            }
        }
    }
    assert(after =~= goal);
}

proof fn lemma_expired_records(records: Seq<RecordView>, now: u64)
    ensures
        expired_records(records, now).len() == expired_operations(records, now).len(),
        forall|k: int|
            0 <= k < expired_records(records, now).len() ==> {
                &&& (#[trigger] expired_records(records, now)[k]).operation_id
                    == expired_operations(records, now)[k]
                &&& records.contains(expired_records(records, now)[k])
            },
    decreases records.len(),
{
    if records.len() > 0 {
        let shorter = records.drop_last();
        lemma_expired_records(shorter, now);
        let all = expired_records(records, now);
        let before = expired_records(shorter, now);
        assert forall|k: int| 0 <= k < all.len() implies {
            &&& (#[trigger] all[k]).operation_id == expired_operations(records, now)[k]
            &&& records.contains(all[k])
        } by {
            if k < before.len() {
                assert(all[k] == before[k]);
                assert(shorter.contains(before[k]));
                let i = choose|i: int| 0 <= i < shorter.len() && shorter[i] == before[k];
                assert(records[i] == before[k]);
            } else {
                assert(records[records.len() - 1] == all[k]);
            }
        }
    }
}

/// Where the next expired operation is among the records of which some were rolled back.
proof fn lemma_next_expired(records: Seq<RecordView>, now: u64, n: int)
    requires
        records_sound(records),
        0 <= n < expired_operations(records, now).len(),
    ensures
        ({
            let ids = expired_operations(records, now);
            let sofar = partly_recovered(records, now, ids.take(n));
            let at = first_active(sofar, ids[n]);
            &&& 0 <= at < sofar.len()
            &&& sofar[at] == expired_records(records, now)[n]
        }),
{
    lemma_expired_operations(records, now);
    lemma_expired_are_distinct(records, now);
    lemma_expired_records(records, now);
    let ids = expired_operations(records, now);
    let sofar = partly_recovered(records, now, ids.take(n));
    let id = ids[n];
    assert(has_expired(records, now, ids[n]));
    let at = choose|i: int|
        0 <= i < records.len() && record_expired(#[trigger] records[i], now)
            && records[i].operation_id == ids[n];
    assert(!ids.take(n).contains(id)) by {
        if ids.take(n).contains(id) {
            let k = choose|k: int| 0 <= k < n && ids.take(n)[k] == id;
            assert(ids[k] == ids[n]);
        }
    }
    assert(sofar[at] == records[at]);
    assert forall|j: int| 0 <= j < at implies (#[trigger] sofar[j]).operation_id != id by {
        assert(records[j].operation_id != records[at].operation_id);
    }
    lemma_first_active(sofar, id, at);
    let record = expired_records(records, now)[n];
    assert(record.operation_id == id);
    let i = choose|i: int| 0 <= i < records.len() && records[i] == record;
    if i < at {
        assert(records[i].operation_id != records[at].operation_id);
    } else if i > at {
        assert(records[at].operation_id != records[i].operation_id);
    }
}

proof fn lemma_rollback_goes_on(
    from: Seq<Step>,
    to: Seq<Step>,
    before: Seq<RecordView>,
    after: Seq<RecordView>,
    operation_id: Seq<char>,
    note: Seq<char>,
    r: Result<(), NetToolError>,
)
    requires
        rolled_back_by(from, to, before, after, operation_id, note, r),
        0 <= first_active(before, operation_id) < before.len(),
    ensures
        from.is_prefix_of(to),
        all_went_well(from, to) ==> {
            &&& r == Ok::<(), NetToolError>(())
            &&& after == with_state(before, operation_id, SafeApplyState::RolledBack)
            &&& to == from + rollback_steps(before, operation_id, note)
        },
{
    let n = from.len() as int;
    let rolling = with_state(before, operation_id, SafeApplyState::RollingBack);
    let record = before[first_active(before, operation_id)];
    let kept = choose|kept: Result<(), NetToolError>|
        match kept {
            Ok(_) => restored_by(
                #[trigger] from.push(Step::Persist(rolling, kept)),
                to,
                before,
                after,
                operation_id,
                note,
                r,
            ),
            Err(_) => r == kept && after == rolling && to == from.push(
                Step::Persist(rolling, kept),
            ),
        };
    let first = from.push(Step::Persist(rolling, kept));
    if kept is Err {
        assert(to[n] == Step::Persist(rolling, kept));
        assert(!went_well(to[n]));
        return;
    }
    assert(kept->Ok_0 == ());
    let restored = choose|restored: Result<(), NetToolError>|
        {
            let behind = #[trigger] first.push(Step::Restore(record.snapshot_id, restored));
            match restored {
                Ok(_) => {
                    &&& after == with_state(before, operation_id, SafeApplyState::RolledBack)
                    &&& kept_and_logged(
                        behind,
                        to,
                        after,
                        RecordView { state: SafeApplyState::RolledBack, ..record },
                        note,
                        r,
                    )
                },
                Err(_) => {
                    &&& after == with_state(before, operation_id, SafeApplyState::Failed)
                    &&& exists|logged: Result<(), NetToolError>| #[trigger]
                        kept_and_logged(
                            behind,
                            to,
                            after,
                            RecordView { state: SafeApplyState::Failed, ..record },
                            "rollback_failed"@,
                            logged,
                        ) && r == match logged {
                            Ok(_) => restored,
                            Err(_) => logged,
                        }
                },
            }
        };
    let second = first.push(Step::Restore(record.snapshot_id, restored));
    if restored is Err {
        let failed = RecordView { state: SafeApplyState::Failed, ..record };
        let logged = choose|logged: Result<(), NetToolError>| #[trigger]
            kept_and_logged(second, to, after, failed, "rollback_failed"@, logged);
        lemma_kept_goes_on(second, to, after, failed, "rollback_failed"@, logged);
        assert(to[n + 1] == second[n + 1]);
        assert(!went_well(to[n + 1]));
        assert(from =~= to.subrange(0, n));
        return;
    }
    assert(restored->Ok_0 == ());
    let done = RecordView { state: SafeApplyState::RolledBack, ..record };
    lemma_kept_goes_on(second, to, after, done, note, r);
    assert(from =~= to.subrange(0, n)) by {
        assert(second =~= to.subrange(0, n + 2));
    }
    if all_went_well(from, to) {
        assert(all_went_well(second, to));
        assert(to =~= from + rollback_steps(before, operation_id, note));
    }
}

proof fn lemma_kept_goes_on(
    from: Seq<Step>,
    to: Seq<Step>,
    records: Seq<RecordView>,
    record: RecordView,
    note: Seq<char>,
    r: Result<(), NetToolError>,
)
    requires
        kept_and_logged(from, to, records, record, note, r),
    ensures
        from.is_prefix_of(to),
        all_went_well(from, to) ==> {
            &&& r == Ok::<(), NetToolError>(())
            &&& to == from.push(Step::Persist(records, Ok(()))).push(
                Step::Audit(record, note, Ok(())),
            )
        },
{
    let n = from.len() as int;
    let kept = choose|kept: Result<(), NetToolError>|
        match kept {
            Ok(_) => to == (#[trigger] from.push(Step::Persist(records, kept))).push(
                Step::Audit(record, note, r),
            ),
            Err(_) => r == kept && to == from.push(Step::Persist(records, kept)),
        };
    assert(from =~= to.subrange(0, n));
    assert(to[n] == Step::Persist(records, kept));
    if all_went_well(from, to) {
        assert(went_well(to[n]));
        assert(kept->Ok_0 == ());
        assert(to[n + 1] == Step::Audit(record, note, r));
        assert(went_well(to[n + 1]));
        assert(r->Ok_0 == ());
    }
}

/// A rollback only adds to the calls.
proof fn lemma_rollback_adds(
    from: Seq<Step>,
    to: Seq<Step>,
    before: Seq<RecordView>,
    after: Seq<RecordView>,
    operation_id: Seq<char>,
    note: Seq<char>,
    r: Result<(), NetToolError>,
)
    requires
        rolled_back_by(from, to, before, after, operation_id, note, r),
    ensures
        from.is_prefix_of(to),
{
    lemma_first_active_is(before, operation_id);
    if first_active(before, operation_id) < before.len() {
        lemma_rollback_goes_on(from, to, before, after, operation_id, note, r);
    } else {
        assert(from =~= to.subrange(0, from.len() as int));
    }
}

/// How far a recovery has come after some of its operations, where all calls succeed.
proof fn lemma_recovery_so_far(
    path: Seq<(Seq<Step>, Seq<RecordView>)>,
    now: u64,
    outcome: Result<(), NetToolError>,
    n: int,
)
    requires
        path.len() > 0,
        records_sound(path[0].1),
        recovered_by(path, expired_operations(path[0].1, now), outcome),
        0 <= n < path.len(),
        all_went_well(path[0].0, path[n].0),
    ensures
        path[0].0.is_prefix_of(path[n].0),
        path[n].0 == path[0].0 + recovery_steps(path[0].1, now, n as nat),
        path[n].1 == partly_recovered(
            path[0].1,
            now,
            expired_operations(path[0].1, now).take(n),
        ),
        0 < n && n == path.len() - 1 ==> outcome == Ok::<(), NetToolError>(()),
    decreases n,
{
    let records = path[0].1;
    let ids = expired_operations(records, now);
    if n == 0 {
        lemma_recovery_starts(records, now);
        assert(path[0].0 =~= path[0].0 + recovery_steps(records, now, 0));
    } else {
        let m = n - 1;
        let last: Result<(), NetToolError> = if m < path.len() - 2 {
            Ok(())
        } else {
            outcome
        };
        let sofar = path[m];
        let next = path[m + 1];
        assert(rolled_back_by(
            sofar.0,
            next.0,
            sofar.1,
            next.1,
            ids[m],
            "deadline_expired"@,
            last,
        ));
        lemma_rollback_adds(
            sofar.0,
            next.0,
            sofar.1,
            next.1,
            ids[m],
            "deadline_expired"@,
            last,
        );
        assert(all_went_well(path[0].0, sofar.0)) by {
            assert forall|i: int| path[0].0.len() <= i < sofar.0.len() implies went_well(
                #[trigger] sofar.0[i],
            ) by {
                assert(sofar.0[i] == next.0.subrange(0, sofar.0.len() as int)[i]);
                assert(went_well(next.0[i]));
            }
        }
        lemma_recovery_so_far(path, now, outcome, m);
        lemma_next_expired(records, now, m);
        assert(all_went_well(sofar.0, next.0));
        lemma_rollback_goes_on(
            sofar.0,
            next.0,
            sofar.1,
            next.1,
            ids[m],
            "deadline_expired"@,
            last,
        );
        lemma_recovery_step(records, now, ids, m, sofar.1, next.1);
        assert(next.0 =~= path[0].0 + recovery_steps(records, now, n as nat));
        assert(path[0].0 =~= next.0.subrange(0, path[0].0.len() as int));
    }
}

// ------------------------------------------------------------------------------------- laws

/// A confirmed operation is never rolled back: it is not pending any more, so no time makes
/// it expire.
pub proof fn law_confirmed_never_expires(
    records: Seq<RecordView>,
    operation_id: Seq<char>,
    now: u64,
)
    requires
        records_sound(records),
        first_active(records, operation_id) < records.len(),
    ensures
        !expired_operations(
            with_state(records, operation_id, SafeApplyState::Confirmed),
            now,
        ).contains(operation_id),
{
    let after = with_state(records, operation_id, SafeApplyState::Confirmed);
    lemma_active_is_first(records, operation_id);
    lemma_first_active_is(records, operation_id);
    lemma_expired_operations(after, now);
    let at = first_active(records, operation_id);
    let ids = expired_operations(after, now);
    if ids.contains(operation_id) {
        let k = choose|k: int| 0 <= k < ids.len() && ids[k] == operation_id;
        assert(has_expired(after, now, ids[k]));
        let i = choose|i: int|
            0 <= i < after.len() && record_expired(#[trigger] after[i], now)
                && after[i].operation_id == ids[k];
        if i < at {
            assert(records[i].operation_id != records[at].operation_id);
        } else if i > at {
            assert(records[at].operation_id != records[i].operation_id);
        }
    }
}

/// A pending operation is rolled back as soon as its deadline has passed, whoever is still
/// there to ask for it; until then it is left alone.
pub proof fn law_pending_expires_at_its_deadline(
    records: Seq<RecordView>,
    at: int,
    now: u64,
)
    requires
        records_sound(records),
        0 <= at < records.len(),
        pending_state(records[at].state),
    ensures
        expired_operations(records, now).contains(records[at].operation_id) <==> now
            >= records[at].deadline,
{
    lemma_expired_operations(records, now);
    let ids = expired_operations(records, now);
    if ids.contains(records[at].operation_id) {
        let k = choose|k: int| 0 <= k < ids.len() && ids[k] == records[at].operation_id;
        assert(has_expired(records, now, ids[k]));
        let i = choose|i: int|
            0 <= i < records.len() && record_expired(#[trigger] records[i], now)
                && records[i].operation_id == ids[k];
        if i < at {
            assert(records[i].operation_id != records[at].operation_id);
        } else if i > at {
            assert(records[at].operation_id != records[i].operation_id);
        }
    }
}

/// After a recovery nothing is left to recover at that time.
pub proof fn law_recovery_leaves_nothing_expired(records: Seq<RecordView>, now: u64)
    ensures
        expired_operations(recovered(records, now), now) == Seq::<Seq<char>>::empty(),
{
    let after = recovered(records, now);
    lemma_expired_operations(after, now);
    let ids = expired_operations(after, now);
    if ids.len() > 0 {
        assert(has_expired(after, now, ids[0]));
    }
}

/// Where every restoring, keeping and logging succeeds, a recovery succeeds, and rolls back
/// exactly the pending operations whose deadline has passed. The state of each of them is
/// restored once, in their order; each is recorded before and behind that, and logged; and
/// nothing else is called. They are pending no more, and every other record is as it was.
pub proof fn law_recovery_restores_each_expired_once(
    path: Seq<(Seq<Step>, Seq<RecordView>)>,
    now: u64,
    outcome: Result<(), NetToolError>,
)
    requires
        path.len() > 0,
        records_sound(path[0].1),
        recovered_by(path, expired_operations(path[0].1, now), outcome),
        all_went_well(path[0].0, path.last().0),
    ensures
        ({
            let (from, before) = path[0];
            let (to, after) = path.last();
            let expired = expired_records(before, now);
            &&& outcome is Ok
            &&& to == from + recovery_steps(before, now, expired.len())
            &&& restored_snapshots(to.skip(from.len() as int)) == expired.map_values(
                |record: RecordView| record.snapshot_id,
            )
            &&& expired_operations(before, now) == expired.map_values(
                |record: RecordView| record.operation_id,
            )
            &&& after == recovered(before, now)
            &&& pending_records(after) == pending_records(before).filter(
                |record: RecordView| record.deadline > now,
            )
            &&& forall|i: int|
                0 <= i < before.len() && !record_expired(before[i], now) ==> #[trigger] after[i]
                    == before[i]
        }),
{
    let (from, before) = path[0];
    let (to, after) = path.last();
    let ids = expired_operations(before, now);
    let expired = expired_records(before, now);
    lemma_recovery_so_far(path, now, outcome, path.len() - 1);
    assert(path.len() == ids.len() + 1);
    lemma_expired_records(before, now);
    lemma_recovery_ends(before, now);
    assert(ids.take(ids.len() as int) == ids);
    let steps = recovery_steps(before, now, expired.len());
    assert(to.skip(from.len() as int) =~= steps);
    lemma_restored_in_recovery(before, now, expired.len());
    assert(restored_snapshots(steps) =~= expired.map_values(
        |record: RecordView| record.snapshot_id,
    ));
    assert(ids =~= expired.map_values(|record: RecordView| record.operation_id));
    lemma_pending_after_recovery(before, now);
}

proof fn lemma_restored_in_recovery(records: Seq<RecordView>, now: u64, n: nat)
    requires
        records_sound(records),
        n <= expired_operations(records, now).len(),
    ensures
        restored_snapshots(recovery_steps(records, now, n)).len() == n,
        forall|k: int|
            0 <= k < n ==> #[trigger] restored_snapshots(recovery_steps(records, now, n))[k]
                == expired_records(records, now)[k].snapshot_id,
    decreases n,
{
    if n > 0 {
        let m = (n - 1) as nat;
        let ids = expired_operations(records, now);
        let sofar = partly_recovered(records, now, ids.take(m as int));
        lemma_restored_in_recovery(records, now, m);
        lemma_next_expired(records, now, m as int);
        let head = recovery_steps(records, now, m);
        let more = rollback_steps(sofar, ids[m as int], "deadline_expired"@);
        let s1 = head.push(more[0]);
        let s2 = s1.push(more[1]);
        let s3 = s2.push(more[2]);
        let s4 = s3.push(more[3]);
        assert(recovery_steps(records, now, n) =~= s4);
        assert(s4.drop_last() =~= s3);
        assert(s3.drop_last() =~= s2);
        assert(s2.drop_last() =~= s1);
        assert(s1.drop_last() =~= head);
        reveal_with_fuel(restored_snapshots, 5);
        assert(restored_snapshots(s4) == restored_snapshots(head).push(
            expired_records(records, now)[m as int].snapshot_id,
        ));
    }
}

proof fn lemma_pending_after_recovery(records: Seq<RecordView>, now: u64)
    ensures
        pending_records(recovered(records, now)) == pending_records(records).filter(
            |record: RecordView| record.deadline > now,
        ),
    decreases records.len(),
{
    reveal(Seq::filter);
    let later = |record: RecordView| record.deadline > now;
    if records.len() > 0 {
        let shorter = records.drop_last();
        lemma_pending_after_recovery(shorter, now);
        assert(recovered(records, now).drop_last() =~= recovered(shorter, now));
        let head = pending_records(shorter);
        if pending_state(records.last().state) {
            assert(pending_records(records).drop_last() =~= head);
        }
    } else {
        assert(pending_records(recovered(records, now)) =~= pending_records(records).filter(later));
    }
}

/// What a call does to the records.
#[verifier::ext_equal]
pub enum Change {
    /// An operation comes to wait.
    Waits(RecordView),
    /// The pending operation ends in a state.
    Ends(Seq<char>, SafeApplyState),
}

/// The records after calls.
pub open spec fn changed(records: Seq<RecordView>, changes: Seq<Change>) -> Seq<RecordView>
    decreases changes.len(),
{
    if changes.len() == 0 {
        records
    } else {
        let before = changed(records, changes.drop_last());
        match changes.last() {
            Change::Waits(record) => before.push(record),
            Change::Ends(operation_id, state) => with_state(before, operation_id, state),
        }
    }
}

/// Whether calls can do that: a new operation is of an interface without a pending one, and
/// only a pending operation ends.
pub open spec fn may_happen(records: Seq<RecordView>, changes: Seq<Change>) -> bool
    decreases changes.len(),
{
    changes.len() == 0 || {
        let before = changed(records, changes.drop_last());
        &&& may_happen(records, changes.drop_last())
        &&& match changes.last() {
            Change::Waits(record) => {
                &&& pending_state(record.state)
                &&& first_record(before, record.operation_id) == before.len()
                &&& !interface_busy(before, record.target_interface)
            },
            Change::Ends(operation_id, state) => {
                &&& !pending_state(state)
                &&& first_active(before, operation_id) < before.len()
            },
        }
    }
}

/// Records without those of an operation.
pub open spec fn without_operation(
    records: Seq<RecordView>,
    operation_id: Seq<char>,
) -> Seq<RecordView>
    decreases records.len(),
{
    if records.len() == 0 {
        Seq::empty()
    } else {
        let head = without_operation(records.drop_last(), operation_id);
        if records.last().operation_id == operation_id {
            head
        } else {
            head.push(records.last())
        }
    }
}

/// The operations that wait after calls: each one from when it came to wait until it ended.
pub open spec fn waiting_after(waiting: Seq<RecordView>, changes: Seq<Change>) -> Seq<RecordView>
    decreases changes.len(),
{
    if changes.len() == 0 {
        waiting
    } else {
        let before = waiting_after(waiting, changes.drop_last());
        match changes.last() {
            Change::Waits(record) => before.push(record),
            Change::Ends(operation_id, _) => without_operation(before, operation_id),
        }
    }
}

/// Over any sequence of calls the pending operations are those that came to wait and did not
/// end, in the order in which they came, and the records stay sound.
pub proof fn law_pending_are_those_that_did_not_end(
    records: Seq<RecordView>,
    changes: Seq<Change>,
)
    requires
        records_sound(records),
        may_happen(records, changes),
    ensures
        records_sound(changed(records, changes)),
        pending_records(changed(records, changes)) == waiting_after(
            pending_records(records),
            changes,
        ),
    decreases changes.len(),
{
    if changes.len() > 0 {
        let before = changed(records, changes.drop_last());
        law_pending_are_those_that_did_not_end(records, changes.drop_last());
        match changes.last() {
            Change::Waits(record) => {
                lemma_first_record_is(before, record.operation_id);
                lemma_accepted_stays_sound(before, record);
                assert(before.push(record).drop_last() =~= before);
            },
            Change::Ends(operation_id, state) => {
                law_moving_on_keeps_records_sound(before, operation_id, state);
                lemma_active_is_first(before, operation_id);
                lemma_first_active_is(before, operation_id);
                let at = first_active(before, operation_id);
                lemma_ended_is_not_pending(
                    before,
                    at,
                    RecordView { state, ..before[at] },
                );
            },
        }
    }
}

proof fn lemma_ended_is_not_pending(records: Seq<RecordView>, at: int, ended: RecordView)
    requires
        0 <= at < records.len(),
        forall|i: int, j: int|
            0 <= i < j < records.len() ==> (#[trigger] records[i]).operation_id != (
            #[trigger] records[j]).operation_id,
        !pending_state(ended.state),
    ensures
        pending_records(records.update(at, ended)) == without_operation(
            pending_records(records),
            records[at].operation_id,
        ),
    decreases records.len(),
{
    let id = records[at].operation_id;
    let after = records.update(at, ended);
    let shorter = records.drop_last();
    if at == records.len() - 1 {
        assert(after.drop_last() =~= shorter);
        assert forall|i: int| 0 <= i < shorter.len() implies (#[trigger] shorter[i]).operation_id
            != id by {
            assert(records[i].operation_id != records[at].operation_id);
        }
        lemma_without_a_stranger(shorter, id);
    } else {
        assert(after.drop_last() =~= shorter.update(at, ended));
        lemma_ended_is_not_pending(shorter, at, ended);
        assert(records[at].operation_id != records[records.len() - 1].operation_id);
    }
    if pending_state(records.last().state) {
        let head = pending_records(shorter);
        assert(head.push(records.last()).drop_last() =~= head);
    }
}

proof fn lemma_without_a_stranger(records: Seq<RecordView>, operation_id: Seq<char>)
    requires
        forall|i: int|
            0 <= i < records.len() ==> (#[trigger] records[i]).operation_id != operation_id,
    ensures
        without_operation(pending_records(records), operation_id) == pending_records(records),
    decreases records.len(),
{
    if records.len() > 0 {
        let shorter = records.drop_last();
        assert forall|i: int| 0 <= i < shorter.len() implies (#[trigger] shorter[i]).operation_id
            != operation_id by {
            assert(shorter[i] == records[i]);
        }
        lemma_without_a_stranger(shorter, operation_id);
        assert(records[records.len() - 1].operation_id != operation_id);
        let head = pending_records(shorter);
        assert(head.push(records.last()).drop_last() =~= head);
    }
}

} // verus!
