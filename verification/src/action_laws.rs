//! What the actions take and promise, and what errors are called.

use crate::action;
use crate::action::PermissionRequirement;
use crate::error::{ErrorCode, NetToolError};
use vstd::prelude::*;

verus! {

/// Which actions only read, which any user may take, and which the helper has to allow: those
/// that change the configuration of the system.
pub proof fn law_permissions(i: int)
    requires
        0 <= i < 42,
    ensures
        ({
            let name = action::action_row(i).0;
            match action::action_row(i).1 {
                PermissionRequirement::ReadOnly => name == "interface.list"@ || name == "interface.show"@ || name == "interface.refresh"@ || name == "system.health"@ || name == "dataplane.probe"@ || name == "profile.list"@ || name == "profile.show"@ || name == "profile.export"@ || name == "hosts.read"@ || name == "node.list"@ || name == "node.status"@ || name == "speed.history"@ || name == "packet.analyze"@ || name == "packet.stats"@ || name == "packet.connections"@ || name == "perf.topology"@ || name == "perf.backend"@ || name == "perf.profile.list"@,
                PermissionRequirement::User => name == "profile.create"@ || name == "profile.delete"@ || name == "profile.edit"@ || name == "profile.import"@ || name == "node.pair"@ || name == "node.revoke"@ || name == "speed.run"@ || name == "speed.cancel"@ || name == "packet.capture.start"@ || name == "packet.capture.stop"@ || name == "perf.benchmark"@,
                PermissionRequirement::Privileged => name == "profile.apply"@ || name == "profile.confirm"@ || name == "profile.rollback"@ || name == "ip.set"@ || name == "ip.dhcp"@ || name == "dns.set"@ || name == "hosts.replace"@ || name == "hosts.add"@ || name == "hosts.remove"@ || name == "hosts.enable"@ || name == "hosts.disable"@ || name == "hosts.backup"@ || name == "hosts.restore"@,
            }
        }),
{
}

/// Which actions must not be sent again: those that add something, start something or replace a
/// part of the configuration. All others can be repeated, those that only read among them.
pub proof fn law_repetitions(i: int)
    requires
        0 <= i < 42,
    ensures
        ({
            let name = action::action_row(i).0;
            &&& !action::action_row(i).2 ==> name == "profile.edit"@ || name == "profile.import"@ || name == "ip.set"@ || name == "ip.dhcp"@ || name == "dns.set"@ || name == "hosts.add"@ || name == "node.revoke"@ || name == "speed.run"@ || name == "packet.capture.start"@ || name == "perf.benchmark"@
            &&& action::action_row(i).2 ==> name == "interface.list"@ || name == "interface.show"@ || name == "interface.refresh"@ || name == "system.health"@ || name == "dataplane.probe"@ || name == "profile.list"@ || name == "profile.show"@ || name == "profile.create"@ || name == "profile.delete"@ || name == "profile.export"@ || name == "profile.apply"@ || name == "profile.confirm"@ || name == "profile.rollback"@ || name == "hosts.replace"@ || name == "hosts.remove"@ || name == "hosts.enable"@ || name == "hosts.disable"@ || name == "hosts.backup"@ || name == "hosts.restore"@ || name == "hosts.read"@ || name == "node.pair"@ || name == "node.list"@ || name == "node.status"@ || name == "speed.cancel"@ || name == "speed.history"@ || name == "packet.capture.stop"@ || name == "packet.analyze"@ || name == "packet.stats"@ || name == "packet.connections"@ || name == "perf.topology"@ || name == "perf.backend"@ || name == "perf.profile.list"@
            &&& action::action_row(i).1 is ReadOnly ==> action::action_row(i).2
        }),
{
}

/// An action that is found is the one that was asked for; one that is not found does not exist.
pub proof fn law_actions_are_found(name: Seq<char>, from: int, i: int)
    requires
        0 <= from <= 42,
    ensures
        action::first_row(name, from) matches Some(at) ==> from <= at < 42 && action::action_row(
            at,
        ).0 == name,
        action::first_row(name, from) is None && from <= i < 42 ==> action::action_row(i).0 != name,
    decreases 42 - from,
{
    if from < 42 && action::action_row(from).0 != name {
        law_actions_are_found(name, from + 1, i);
    }
}

/// What each error is called: the area that it comes from, a dot, and what went wrong.
pub proof fn law_names_of_errors(code: ErrorCode)
    ensures
        code.text() == match code {
            ErrorCode::InvalidArgument => "CLI.INVALID_ARGUMENT"@,
            ErrorCode::ProbeFailed => "DATAPLANE.PROBE_FAILED"@,
            ErrorCode::Unsupported => "PLATFORM.UNSUPPORTED"@,
            ErrorCode::StorageFailed => "STORAGE.DATABASE_FAILED"@,
            ErrorCode::AgentUnavailable => "AGENT.UNAVAILABLE"@,
            ErrorCode::ActionUnsupported => "ACTION.UNSUPPORTED"@,
            ErrorCode::ResourceConflict => "RESOURCE.CONFLICT"@,
            ErrorCode::InvalidState => "ACTION.INVALID_STATE"@,
            ErrorCode::RollbackFailed => "SAFE_APPLY.ROLLBACK_FAILED"@,
            ErrorCode::PersistenceFailed => "HELPER.PERSISTENCE_FAILED"@,
            ErrorCode::SpeedFailed => "SPEED.ENGINE_FAILED"@,
            ErrorCode::ProtocolInvalid => "PROTOCOL.INVALID_MESSAGE"@,
            ErrorCode::ControlFrameTooLarge => "PROTOCOL.CONTROL_FRAME_TOO_LARGE"@,
            ErrorCode::ProtocolUnsupportedFlag => "PROTOCOL.UNSUPPORTED_FLAG"@,
            ErrorCode::ProtocolIncompatible => "PROTOCOL.MAJOR_INCOMPATIBLE"@,
            ErrorCode::NodeTransportFailed => "NODE.TRANSPORT_FAILED"@,
            ErrorCode::NodeTlsFailed => "NODE.TLS_FAILED"@,
            ErrorCode::NodeNotPaired => "NODE.NOT_PAIRED"@,
            ErrorCode::AuthorizationExpired => "NODE.AUTHORIZATION_EXPIRED"@,
            ErrorCode::DataPlaneUnauthorized => "NODE.DATA_PLANE_UNAUTHORIZED"@,
            ErrorCode::OperationConflict => "OPERATION.ID_CONFLICT"@,
            ErrorCode::RandomFailed => "SECURITY.RANDOM_FAILED"@,
            ErrorCode::PreflightFailed => "DATAPLANE.PREFLIGHT_FAILED"@,
            ErrorCode::BackendNotBuilt => "DATAPLANE.BACKEND_NOT_BUILT"@,
            ErrorCode::LosslessCaptureNotCertified => "LOSSLESS_CAPTURE_NOT_CERTIFIED"@,
            ErrorCode::HelperUnauthorized => "HELPER.UNAUTHORIZED"@,
            ErrorCode::HelperNotConfigured => "HELPER.NOT_CONFIGURED"@,
            ErrorCode::HelperTransportFailed => "HELPER.TRANSPORT_FAILED"@,
            ErrorCode::HelperExecutionFailed => "HELPER.EXECUTION_FAILED"@,
            ErrorCode::CaptureFormatInvalid => "CAPTURE.FORMAT_INVALID"@,
            ErrorCode::CaptureReadFailed => "CAPTURE.READ_FAILED"@,
        },
{
}

/// An error is shown with its name, a colon and its message.
pub proof fn law_errors_are_shown(e: NetToolError)
    ensures
        e.text() == e.code.text() + ": "@ + e.message@,
{
}

} // verus!
