//! What a client of the agent decides: where the socket is, and which replies it takes.

use crate::agent_protocol::MAX_FRAME_BYTES;
use crate::error::{ErrorCode, NetToolError};
use crate::text;
use crate::text::{alphanumeric, chars_of, concat, ends_with, string_of};
use vstd::prelude::*;

verus! {

/// What the environment says of where the socket is.
#[derive(Clone, Debug)]
pub struct SocketEnvironment {
    /// The path that was set for the socket.
    pub socket: Option<String>,
    /// The runtime directory of the user.
    pub runtime_directory: Option<String>,
    /// The directory for temporary files.
    pub temporary_directory: String,
    /// The name of the user.
    pub user: Option<String>,
    /// Whether the platform has named pipes in place of sockets.
    pub named_pipes: bool,
}

/// A text with an underscore for each character that is not an ASCII letter or digit.
pub open spec fn scoped(user: Seq<char>) -> Seq<char> {
    Seq::new(
        user.len(),
        |i: int|
            if text::is_alphanumeric(user[i]) {
                user[i]
            } else {
                '_'
            },
    )
}

/// A path below a directory.
pub open spec fn in_directory(directory: Seq<char>, rest: Seq<char>) -> Seq<char> {
    if directory.len() == 0 || text::has_suffix(directory, "/"@) {
        directory + rest
    } else {
        directory + "/"@ + rest
    }
}

/// Where the socket of the agent is: where the environment says, else in the runtime
/// directory, else in a directory of the user among the temporary files.
pub open spec fn socket_path(e: SocketEnvironment) -> Seq<char> {
    match e.socket {
        Some(path) => path@,
        None => if e.named_pipes {
            "\\\\.\\pipe\\nettool-agent"@
        } else {
            match e.runtime_directory {
                Some(directory) => in_directory(directory@, "nettool/agent.sock"@),
                None => {
                    let user = match e.user {
                        Some(name) => name@,
                        None => "user"@,
                    };
                    in_directory(
                        in_directory(e.temporary_directory@, "nettool-"@ + scoped(user)),
                        "agent.sock"@,
                    )
                },
            }
        },
    }
}

/// Replaces each character that is not an ASCII letter or digit by an underscore.
pub fn user_scope(user: &str) -> (r: String)
    ensures
        r@ == scoped(user@),
{
    let v = chars_of(user);
    let mut out: Vec<char> = Vec::new();
    let mut i: usize = 0;
    while i < v.len()
        invariant
            v@ == user@,
            i <= v@.len(),
            out@ == scoped(user@).take(i as int),
        decreases v@.len() - i,
    {
        let c: char = if alphanumeric(v[i]) {
            v[i]
        } else {
            '_'
        };
        out.push(c);
        i += 1;
        proof {
            assert(out@ =~= scoped(user@).take(i as int));
        }
    }
    proof {
        assert(out@ =~= scoped(user@));
    }
    string_of(out.as_slice())
}

fn join_directory(directory: &str, rest: &str) -> (r: String)
    ensures
        r@ == in_directory(directory@, rest@),
{
    let mut out = directory.to_owned();
    if !directory.is_empty() && !ends_with(directory, "/") {
        out.append("/");
    }
    out.append(rest);
    out
}

/// Returns where the socket of the agent is.
#[must_use]
pub fn default_socket_path(environment: &SocketEnvironment) -> (r: String)
    ensures
        r@ == socket_path(*environment),
{
    if let Some(path) = &environment.socket {
        return path.as_str().to_owned();
    }
    if environment.named_pipes {
        return "\\\\.\\pipe\\nettool-agent".to_owned();
    }
    if let Some(directory) = &environment.runtime_directory {
        return join_directory(directory.as_str(), "nettool/agent.sock");
    }
    let user = match &environment.user {
        Some(name) => name.as_str(),
        None => "user",
    };
    let own = concat("nettool-", user_scope(user).as_str());
    let directory = join_directory(environment.temporary_directory.as_str(), own.as_str());
    join_directory(directory.as_str(), "agent.sock")
}

/// Checks the length of a reply before room is made for it.
///
/// # Errors
///
/// Fails when the reply is too long.
pub fn check_reply_length(length: u32) -> (r: Result<usize, NetToolError>)
    ensures
        match r {
            Ok(n) => length <= MAX_FRAME_BYTES && n == length,
            Err(e) => length > MAX_FRAME_BYTES && e.is(
                ErrorCode::AgentUnavailable,
                "agent response exceeds maximum size"@,
                false,
            ),
        },
{
    if length as usize > MAX_FRAME_BYTES {
        return Err(protocol_error("agent response exceeds maximum size"));
    }
    Ok(length as usize)
}

/// The error of a lost connection; trying again may help.
pub fn agent_error(detail: &str) -> (r: NetToolError)
    ensures
        r.is(ErrorCode::AgentUnavailable, "agent IPC failed: "@ + detail@, true),
{
    NetToolError::new(
        ErrorCode::AgentUnavailable,
        concat("agent IPC failed: ", detail).as_str(),
        true,
    )
}

/// The error of a reply that breaks the protocol.
pub fn protocol_error(message: &str) -> (r: NetToolError)
    ensures
        r.is(ErrorCode::AgentUnavailable, message@, false),
{
    NetToolError::new(ErrorCode::AgentUnavailable, message, false)
}

} // verus!
