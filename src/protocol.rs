//! The envelopes that head every request and response on the wire.
use vstd::prelude::*;

use crate::error::RpcError;

verus! {

/// The first line of a request: which operation, and the id of the call.
#[derive(Debug)]
pub struct RequestEnvelope {
    pub method_name: String,
    pub request_id: u64,
}

/// The first line of a response.
///
/// `stream_end` marks the terminal frame of a streaming call; a unary
/// response always has it false.
#[derive(Debug)]
pub struct ResponseEnvelope {
    pub request_id: u64,
    pub error: Option<RpcError>,
    pub stream_end: bool,
}

impl ResponseEnvelope {
    /// A payload line follows the envelope exactly when it carries no error
    /// and does not end a stream.
    pub open spec fn spec_has_payload(&self) -> bool {
        self.error is None && !self.stream_end
    }

    #[verifier::when_used_as_spec(spec_has_payload)]
    pub fn has_payload(&self) -> (r: bool)
        ensures
            r == self.spec_has_payload(),
    {
        self.error.is_none() && !self.stream_end
    }
}

/// One response as the receiving side sees it: the envelope, and the
/// payload line that followed it, if any.
#[derive(Debug)]
pub struct ResponseFrame {
    pub envelope: ResponseEnvelope,
    pub payload: Option<Vec<u8>>,
}

impl ResponseFrame {
    /// The payload is present exactly when the envelope calls for one.
    pub open spec fn wf(&self) -> bool {
        self.payload is Some <==> self.envelope.spec_has_payload()
    }
}

} // verus!
