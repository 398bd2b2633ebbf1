//! The stable error model shared by every module.

use vstd::prelude::*;

verus! {

/// Error codes that command line users and protocol peers may rely on.
#[derive(Clone, Copy, Debug, PartialEq, Eq, Structural)]
pub enum ErrorCode {
    /// The user supplied an invalid argument.
    InvalidArgument,
    /// Probing a system resource failed.
    ProbeFailed,
    /// The feature does not exist on this platform.
    Unsupported,
    /// A metadata database operation failed.
    StorageFailed,
    /// The agent connection or its protocol failed.
    AgentUnavailable,
    /// The action is unknown or not implemented.
    ActionUnsupported,
    /// An exclusive resource belongs to another operation.
    ResourceConflict,
    /// The operation does not fit the current state.
    InvalidState,
    /// Undoing a guarded change failed.
    RollbackFailed,
    /// Helper state or its audit trail could not be stored.
    PersistenceFailed,
    /// The socket speed engine failed.
    SpeedFailed,
    /// Binary or control protocol data is invalid.
    ProtocolInvalid,
    /// A control frame is larger than the protocol allows.
    ControlFrameTooLarge,
    /// A frame carries flags that this version does not know.
    ProtocolUnsupportedFlag,
    /// Protocol versions or capabilities do not match.
    ProtocolIncompatible,
    /// The control stream of a node failed.
    NodeTransportFailed,
    /// The TLS configuration or handshake of a node failed.
    NodeTlsFailed,
    /// The node is not paired, or its trust was revoked.
    NodeNotPaired,
    /// A session authorization has expired.
    AuthorizationExpired,
    /// A data plane session, stream, endpoint or tag was rejected.
    DataPlaneUnauthorized,
    /// An operation identifier was reused for a different request.
    OperationConflict,
    /// The secure random source failed.
    RandomFailed,
    /// A data plane preflight holds a required failure.
    PreflightFailed,
    /// The requested backend is not part of this build.
    BackendNotBuilt,
    /// Storage benchmarking could not certify lossless capture.
    LosslessCaptureNotCertified,
    /// The caller of the privileged helper is not authorized.
    HelperUnauthorized,
    /// The privileged helper has no transport.
    HelperNotConfigured,
    /// The local transport of the privileged helper failed.
    HelperTransportFailed,
    /// A platform operation of the privileged helper failed.
    HelperExecutionFailed,
    /// A capture file has an invalid structure.
    CaptureFormatInvalid,
    /// Reading a capture file failed.
    CaptureReadFailed,
}

impl ErrorCode {
    /// The machine readable identifier of the code.
    pub open spec fn text(self) -> Seq<char> {
        match self {
            ErrorCode::InvalidArgument => "CLI.INVALID_ARGUMENT"@,
            ErrorCode::ProbeFailed => "DATAPLANE.PROBE_FAILED"@,
            ErrorCode::Unsupported => "PLATFORM.UNSUPPORTED"@,
            ErrorCode::StorageFailed => "STORAGE.DATABASE_FAILED"@,
            ErrorCode::AgentUnavailable => "AGENT.UNAVAILABLE"@,
            ErrorCode::ActionUnsupported => "ACTION.UNSUPPORTED"@,
            ErrorCode::ResourceConflict => "RESOURCE.CONFLICT"@,
            ErrorCode::InvalidState => "ACTION.INVALID_STATE"@,
            ErrorCode::RollbackFailed => "SAFE_APPLY.ROLLBACK_FAILED"@,
            ErrorCode::PersistenceFailed => "HELPER.PERSISTENCE_FAILED"@,
            ErrorCode::SpeedFailed => "SPEED.ENGINE_FAILED"@,
            ErrorCode::ProtocolInvalid => "PROTOCOL.INVALID_MESSAGE"@,
            ErrorCode::ControlFrameTooLarge => "PROTOCOL.CONTROL_FRAME_TOO_LARGE"@,
            ErrorCode::ProtocolUnsupportedFlag => "PROTOCOL.UNSUPPORTED_FLAG"@,
            ErrorCode::ProtocolIncompatible => "PROTOCOL.MAJOR_INCOMPATIBLE"@,
            ErrorCode::NodeTransportFailed => "NODE.TRANSPORT_FAILED"@,
            ErrorCode::NodeTlsFailed => "NODE.TLS_FAILED"@,
            ErrorCode::NodeNotPaired => "NODE.NOT_PAIRED"@,
            ErrorCode::AuthorizationExpired => "NODE.AUTHORIZATION_EXPIRED"@,
            ErrorCode::DataPlaneUnauthorized => "NODE.DATA_PLANE_UNAUTHORIZED"@,
            ErrorCode::OperationConflict => "OPERATION.ID_CONFLICT"@,
            ErrorCode::RandomFailed => "SECURITY.RANDOM_FAILED"@,
            ErrorCode::PreflightFailed => "DATAPLANE.PREFLIGHT_FAILED"@,
            ErrorCode::BackendNotBuilt => "DATAPLANE.BACKEND_NOT_BUILT"@,
            ErrorCode::LosslessCaptureNotCertified => "LOSSLESS_CAPTURE_NOT_CERTIFIED"@,
            ErrorCode::HelperUnauthorized => "HELPER.UNAUTHORIZED"@,
            ErrorCode::HelperNotConfigured => "HELPER.NOT_CONFIGURED"@,
            ErrorCode::HelperTransportFailed => "HELPER.TRANSPORT_FAILED"@,
            ErrorCode::HelperExecutionFailed => "HELPER.EXECUTION_FAILED"@,
            ErrorCode::CaptureFormatInvalid => "CAPTURE.FORMAT_INVALID"@,
            ErrorCode::CaptureReadFailed => "CAPTURE.READ_FAILED"@,
        }
    }

    /// Returns the machine readable identifier of the code.
    #[must_use]
    pub fn as_str(self) -> (r: &'static str)
        ensures
            r@ == self.text(),
    {
        match self {
            ErrorCode::InvalidArgument => "CLI.INVALID_ARGUMENT",
            ErrorCode::ProbeFailed => "DATAPLANE.PROBE_FAILED",
            ErrorCode::Unsupported => "PLATFORM.UNSUPPORTED",
            ErrorCode::StorageFailed => "STORAGE.DATABASE_FAILED",
            ErrorCode::AgentUnavailable => "AGENT.UNAVAILABLE",
            ErrorCode::ActionUnsupported => "ACTION.UNSUPPORTED",
            ErrorCode::ResourceConflict => "RESOURCE.CONFLICT",
            ErrorCode::InvalidState => "ACTION.INVALID_STATE",
            ErrorCode::RollbackFailed => "SAFE_APPLY.ROLLBACK_FAILED",
            ErrorCode::PersistenceFailed => "HELPER.PERSISTENCE_FAILED",
            ErrorCode::SpeedFailed => "SPEED.ENGINE_FAILED",
            ErrorCode::ProtocolInvalid => "PROTOCOL.INVALID_MESSAGE",
            ErrorCode::ControlFrameTooLarge => "PROTOCOL.CONTROL_FRAME_TOO_LARGE",
            ErrorCode::ProtocolUnsupportedFlag => "PROTOCOL.UNSUPPORTED_FLAG",
            ErrorCode::ProtocolIncompatible => "PROTOCOL.MAJOR_INCOMPATIBLE",
            ErrorCode::NodeTransportFailed => "NODE.TRANSPORT_FAILED",
            ErrorCode::NodeTlsFailed => "NODE.TLS_FAILED",
            ErrorCode::NodeNotPaired => "NODE.NOT_PAIRED",
            ErrorCode::AuthorizationExpired => "NODE.AUTHORIZATION_EXPIRED",
            ErrorCode::DataPlaneUnauthorized => "NODE.DATA_PLANE_UNAUTHORIZED",
            ErrorCode::OperationConflict => "OPERATION.ID_CONFLICT",
            ErrorCode::RandomFailed => "SECURITY.RANDOM_FAILED",
            ErrorCode::PreflightFailed => "DATAPLANE.PREFLIGHT_FAILED",
            ErrorCode::BackendNotBuilt => "DATAPLANE.BACKEND_NOT_BUILT",
            ErrorCode::LosslessCaptureNotCertified => "LOSSLESS_CAPTURE_NOT_CERTIFIED",
            ErrorCode::HelperUnauthorized => "HELPER.UNAUTHORIZED",
            ErrorCode::HelperNotConfigured => "HELPER.NOT_CONFIGURED",
            ErrorCode::HelperTransportFailed => "HELPER.TRANSPORT_FAILED",
            ErrorCode::HelperExecutionFailed => "HELPER.EXECUTION_FAILED",
            ErrorCode::CaptureFormatInvalid => "CAPTURE.FORMAT_INVALID",
            ErrorCode::CaptureReadFailed => "CAPTURE.READ_FAILED",
        }
    }
}

/// The error value of the toolkit. Programs decide by `code`, never by the text.
#[derive(Clone, Debug, PartialEq, Eq)]
pub struct NetToolError {
    /// The stable code.
    pub code: ErrorCode,
    /// A message for people.
    pub message: String,
    /// Whether a later retry may succeed.
    pub retryable: bool,
    /// Structured details without sensitive content: names and values, each name once, in the
    /// order of the names.
    pub details: Vec<(String, String)>,
}

impl NetToolError {
    /// Whether this is the error with the given parts and no details.
    pub open spec fn is(self, code: ErrorCode, message: Seq<char>, retryable: bool) -> bool {
        &&& self.code == code
        &&& self.message@ == message
        &&& self.retryable == retryable
        &&& self.details@.len() == 0
    }

    /// Creates an error without details.
    #[must_use]
    pub fn new(code: ErrorCode, message: &str, retryable: bool) -> (r: Self)
        ensures
            r.is(code, message@, retryable),
    {
        NetToolError { code, message: message.to_owned(), retryable, details: Vec::new() }
    }

    /// The error for people: the identifier of the code, a colon and the message.
    pub open spec fn text(self) -> Seq<char> {
        self.code.text() + ": "@ + self.message@
    }

    /// Renders the error for people.
    #[must_use]
    pub fn to_text(&self) -> (r: String)
        ensures
            r@ == self.text(),
    {
        let mut text = self.code.as_str().to_owned();
        text.append(": ");
        text.append(self.message.as_str());
        text
    }
}

} // verus!
