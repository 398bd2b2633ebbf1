//! The variants of an agent envelope.

use crate::agent_protocol::{ActionRequest, ActionResponse};
use vstd::prelude::*;

verus! {

/// What an envelope carries.
#[derive(Clone, Debug, PartialEq)]
pub enum Payload {
    /// A request.
    Request(ActionRequest),
    /// A response.
    Response(ActionResponse),
}

} // verus!
