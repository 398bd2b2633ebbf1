//! The transport of the privileged helper: who may call, and how requests are framed.

use crate::error::{ErrorCode, NetToolError};
use crate::handled::Handled;
use crate::helper_protocol::{
    CallerIdentity, PrivilegedError, PrivilegedRequest, PrivilegedResponse, PrivilegedWireRequest,
};
use crate::octets;
use crate::octets::{push_be32, push_bytes};
use crate::text;
use crate::text::{decimal_text, is_blank, same};
use vstd::prelude::*;

verus! {

/// The largest payload of a frame.
pub const MAX_HELPER_FRAME_LENGTH: usize = 1048576;

/// Who is at the other end, as the system says.
#[derive(Clone, Debug, PartialEq, Eq)]
pub struct PeerCredentials {
    /// The identifier of the user.
    pub principal: String,
    /// The process, where the system says so.
    pub process_id: Option<u32>,
}

/// Takes what the system says of the other end: the user as a decimal number, and the process
/// where its number is not negative.
pub fn credentials_from_ids(uid: u32, pid: Option<i32>) -> (r: PeerCredentials)
    ensures
        r.principal@ == text::decimal(uid as nat),
        r.process_id == (match pid {
            Some(n) => if n >= 0 {
                Some(n as u32)
            } else {
                None
            },
            None => None,
        }),
{
    let process_id: Option<u32> = match pid {
        Some(n) => if n >= 0 {
            Some(n as u32)
        } else {
            None
        },
        None => None,
    };
    PeerCredentials { principal: decimal_text(uid as u64), process_id }
}

/// Who may call. Nobody may where no one is listed.
#[derive(Clone, Debug)]
pub struct AuthorizationPolicy {
    allowed_principals: Vec<String>,
}

impl View for AuthorizationPolicy {
    type V = Set<Seq<char>>;

    closed spec fn view(&self) -> Set<Seq<char>> {
        text::texts(self.allowed_principals@).to_set()
    }
}

impl Default for AuthorizationPolicy {
    fn default() -> (r: Self)
        ensures
            r@ == Set::<Seq<char>>::empty(),
    {
        let r = AuthorizationPolicy { allowed_principals: Vec::new() };
        proof {
            assert(r@ =~= Set::<Seq<char>>::empty());
        }
        r
    }
}

impl AuthorizationPolicy {
    /// Allows exactly the given users.
    #[must_use]
    pub fn new(principals: Vec<String>) -> (r: Self)
        ensures
            r@ == text::texts(principals@).to_set(),
    {
        AuthorizationPolicy { allowed_principals: principals }
    }

    /// Decides whether the other end may call, by what the system says of it alone.
    ///
    /// # Errors
    ///
    /// Fails when the user is not listed.
    pub fn authorize(&self, peer: &PeerCredentials) -> (r: Result<CallerIdentity, NetToolError>)
        ensures
            match r {
                Ok(identity) => {
                    &&& self@.contains(peer.principal@)
                    &&& identity.principal@ == peer.principal@
                    &&& identity.process_id == peer.process_id
                },
                Err(e) => !self@.contains(peer.principal@) && e.is(
                    ErrorCode::HelperUnauthorized,
                    "helper caller is not authorized"@,
                    false,
                ),
            },
    {
        let ghost all = text::texts(self.allowed_principals@);
        let mut i: usize = 0;
        while i < self.allowed_principals.len()
            invariant
                all == text::texts(self.allowed_principals@),
                i <= self.allowed_principals@.len(),
                forall|j: int| 0 <= j < i ==> #[trigger] all[j] != peer.principal@,
            decreases self.allowed_principals@.len() - i,
        {
            if same(self.allowed_principals[i].as_str(), peer.principal.as_str()) {
                proof {
                    assert(all[i as int] == peer.principal@);
                    assert(self@.contains(peer.principal@));
                }
                return Ok(
                    CallerIdentity {
                        principal: peer.principal.as_str().to_owned(),
                        process_id: peer.process_id,
                    },
                );
            }
            i += 1;
        }
        proof {
            if self@.contains(peer.principal@) {
                let k = choose|k: int| 0 <= k < all.len() && all[k] == peer.principal@;
                assert(all[k] != peer.principal@);
            }
        }
        Err(
            NetToolError::new(
                ErrorCode::HelperUnauthorized,
                "helper caller is not authorized",
                false,
            ),
        )
    }
}

/// Without a list of users nobody is allowed.
pub proof fn law_empty_policy_allows_nobody(policy: AuthorizationPolicy, principal: Seq<char>)
    requires
        policy@ == Set::<Seq<char>>::empty(),
    ensures
        !policy@.contains(principal),
{
}

/// Something that handles requests whose caller is known.
pub trait PrivilegedRequestHandler {
    /// Handles a request.
    fn handle(&mut self, request: PrivilegedRequest) -> PrivilegedResponse;
}

/// Whether a frame may have a length.
pub open spec fn length_allowed(length: u32) -> bool {
    0 < length <= MAX_HELPER_FRAME_LENGTH
}

/// Checks the length of a frame before room is made for it.
///
/// # Errors
///
/// Fails when the frame is empty or too long.
pub fn check_frame_length(length: u32) -> (r: Result<usize, NetToolError>)
    ensures
        match r {
            Ok(n) => length_allowed(length) && n == length,
            Err(e) => !length_allowed(length) && e.is(
                ErrorCode::ControlFrameTooLarge,
                "helper frame length is invalid"@,
                false,
            ),
        },
{
    if length == 0 || length as usize > MAX_HELPER_FRAME_LENGTH {
        return Err(
            NetToolError::new(
                ErrorCode::ControlFrameTooLarge,
                "helper frame length is invalid",
                false,
            ),
        );
    }
    Ok(length as usize)
}

/// Frames a response: its length in four bytes, the highest first, and the response.
///
/// # Errors
///
/// Fails when the response is too long.
pub fn frame_response(payload: &[u8]) -> (r: Result<Vec<u8>, NetToolError>)
    ensures
        match r {
            Ok(frame) => payload@.len() <= MAX_HELPER_FRAME_LENGTH && frame@ == octets::be32(
                payload@.len() as u32,
            ) + payload@,
            Err(e) => payload@.len() > MAX_HELPER_FRAME_LENGTH && e.is(
                ErrorCode::ControlFrameTooLarge,
                "helper response exceeds frame limit"@,
                false,
            ),
        },
{
    if payload.len() > MAX_HELPER_FRAME_LENGTH {
        return Err(
            NetToolError::new(
                ErrorCode::ControlFrameTooLarge,
                "helper response exceeds frame limit",
                false,
            ),
        );
    }
    let mut out: Vec<u8> = Vec::new();
    push_be32(&mut out, payload.len() as u32);
    push_bytes(&mut out, payload);
    proof {
        assert(out@ =~= octets::be32(payload@.len() as u32) + payload@);
    }
    Ok(out)
}

/// The frame of a response that is not empty is one that a reader of frames accepts, with
/// the length of the response in front.
pub proof fn law_frame_announces_its_length(payload: Seq<u8>)
    requires
        0 < payload.len() <= MAX_HELPER_FRAME_LENGTH,
    ensures
        ({
            let frame = octets::be32(payload.len() as u32) + payload;
            &&& octets::be_value(frame.take(4)) == payload.len()
            &&& length_allowed(octets::be_value(frame.take(4)) as u32)
            &&& frame.skip(4) == payload
        }),
{
    let frame = octets::be32(payload.len() as u32) + payload;
    octets::lemma_be32_round_trip(payload.len() as u32);
    assert(frame.take(4) =~= octets::be32(payload.len() as u32));
    assert(frame.skip(4) =~= payload);
}

/// Why a request is refused before it is handled, if it is.
pub open spec fn request_fault(wire: PrivilegedWireRequest) -> Option<Seq<char>> {
    if text::blank(wire.request_id@) || text::blank(wire.operation_id@) {
        Some("helper request and operation IDs are required"@)
    } else {
        wire.operation.fault()
    }
}

/// Checks a request and adds who calls.
///
/// # Errors
///
/// Fails when an identifier is blank, and with what is wrong with the operation.
pub fn accept_request(wire: PrivilegedWireRequest, identity: CallerIdentity) -> (r: Result<
    PrivilegedRequest,
    NetToolError,
>)
    ensures
        match r {
            Ok(request) => {
                &&& request_fault(wire) is None
                &&& request.request_id == wire.request_id
                &&& request.operation_id == wire.operation_id
                &&& request.caller_identity == identity
                &&& request.operation == wire.operation
                &&& request.dry_run == wire.dry_run
            },
            Err(e) => request_fault(wire) is Some && e.is(
                ErrorCode::InvalidArgument,
                request_fault(wire)->0,
                false,
            ),
        },
{
    if is_blank(wire.request_id.as_str()) || is_blank(wire.operation_id.as_str()) {
        return Err(
            NetToolError::new(
                ErrorCode::InvalidArgument,
                "helper request and operation IDs are required",
                false,
            ),
        );
    }
    match wire.operation.validate() {
        Ok(_) => {},
        Err(message) => {
            return Err(NetToolError::new(ErrorCode::InvalidArgument, message, false));
        },
    }
    Ok(wire.authenticate(identity))
}

/// Handles one request of an authorized caller, once. One that is refused does not reach the
/// handler.
///
/// # Errors
///
/// Fails when the request is refused.
pub fn serve_request<H: PrivilegedRequestHandler>(
    identity: CallerIdentity,
    wire: PrivilegedWireRequest,
    handler: &mut Handled<H>,
) -> (r: Result<PrivilegedResponse, NetToolError>)
    ensures
        match request_fault(wire) {
            Some(fault) => {
                &&& r matches Err(e) && e.is(ErrorCode::InvalidArgument, fault, false)
                &&& *final(handler) == *old(handler)
            },
            None => r matches Ok(response) && final(handler).log() == old(handler).log().push(
                (
                    PrivilegedRequest {
                        request_id: wire.request_id,
                        operation_id: wire.operation_id,
                        caller_identity: identity,
                        operation: wire.operation,
                        dry_run: wire.dry_run,
                    },
                    response,
                ),
            ),
        },
{
    match accept_request(wire, identity) {
        Ok(request) => Ok(handler.handle(request)),
        Err(e) => Err(e),
    }
}

/// Answers a request with an error, without its details.
#[must_use]
pub fn error_response(request_id: &str, error: &NetToolError) -> (r: PrivilegedResponse)
    ensures
        r.request_id@ == request_id@,
        r.result is None,
        r.error matches Some(e) && e.code@ == error.code.text() && e.message@ == error.message@
            && e.retryable == error.retryable,
{
    PrivilegedResponse {
        request_id: request_id.to_owned(),
        result: None,
        error: Some(
            PrivilegedError {
                code: error.code.as_str().to_owned(),
                message: error.message.as_str().to_owned(),
                retryable: error.retryable,
            },
        ),
    }
}

/// The error of the transport: what was tried and what the system says. It can be repeated
/// where the system was interrupted.
pub fn transport_error(context: &str, detail: &str, interrupted: bool) -> (r: NetToolError)
    ensures
        r.is(ErrorCode::HelperTransportFailed, context@ + ": "@ + detail@, interrupted),
{
    let mut message = context.to_owned();
    message.append(": ");
    message.append(detail);
    NetToolError::new(ErrorCode::HelperTransportFailed, message.as_str(), interrupted)
}

} // verus!
