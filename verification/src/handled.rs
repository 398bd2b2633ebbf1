//! The requests that were handled, written down one behind the other.

use crate::helper_protocol::{PrivilegedRequest, PrivilegedResponse};
use crate::helper_server::PrivilegedRequestHandler;
use vstd::prelude::*;

verus! {

/// Something that handles requests, with the requests that it was given.
pub struct Handled<H> {
    handler: H,
    log: Ghost<Seq<(PrivilegedRequest, PrivilegedResponse)>>,
}

impl<H: PrivilegedRequestHandler> Handled<H> {
    /// The requests that were handled, in their order, each with its response.
    pub closed spec fn log(self) -> Seq<(PrivilegedRequest, PrivilegedResponse)> {
        self.log@
    }

    /// Nothing was handled yet.
    pub fn new(handler: H) -> (r: Self)
        ensures
            r.log() == Seq::<(PrivilegedRequest, PrivilegedResponse)>::empty(),
    {
        Handled { handler, log: Ghost(Seq::empty()) }
    }

    /// The handler.
    pub closed spec fn handler_view(self) -> H {
        self.handler
    }

    /// What handles the requests.
    pub fn handler(&self) -> (r: &H)
        ensures
            *r == self.handler_view(),
    {
        &self.handler
    }

    /// Handles a request.
    pub fn handle(&mut self, request: PrivilegedRequest) -> (r: PrivilegedResponse)
        ensures
            final(self).log() == old(self).log().push((request, r)),
    {
        let ghost given = request;
        let r = self.handler.handle(request);
        self.log = Ghost(self.log@.push((given, r)));
        r
    }
}

} // verus!
