//! Server-side dispatch by method name, and the responses a handler's
//! outcome becomes.
use vstd::prelude::*;

use crate::error::RpcError;
use crate::protocol::{ResponseEnvelope, ResponseFrame};

verus! {

/// The operations a server serves: a closed set, so that dispatch is
/// exhaustive and an unknown name is an ordinary error.
#[derive(Debug, Clone, Copy, PartialEq, Eq)]
pub enum Method {
    /// Unary: hands one event to the handler.
    SendEvent,
    /// Streaming: the handler answers with a sequence of events.
    Subscribe,
}

impl Method {
    /// The name of the method on the wire.
    pub open spec fn spec_name(self) -> Seq<char> {
        match self {
            Method::SendEvent => "send_event"@,
            Method::Subscribe => "subscribe"@,
        }
    }

    /// Whether the method answers with a stream of responses.
    pub open spec fn spec_is_streaming(self) -> bool {
        self is Subscribe
    }

    pub fn name(self) -> (r: &'static str)
        ensures
            r@ == self.spec_name(),
    {
        match self {
            Method::SendEvent => "send_event",
            Method::Subscribe => "subscribe",
        }
    }

    #[verifier::when_used_as_spec(spec_is_streaming)]
    pub fn is_streaming(self) -> (r: bool)
        ensures
            r == self.spec_is_streaming(),
    {
        match self {
            Method::SendEvent => false,
            Method::Subscribe => true,
        }
    }

    /// The method of this name; `UnknownMethod` for a name the server does
    /// not serve, which ends the connection it came on.
    pub fn parse(name: &str) -> (r: Result<Method, RpcError>)
        ensures
            name@ == "send_event"@ ==> r == Ok::<Method, RpcError>(Method::SendEvent),
            name@ == "subscribe"@ ==> r == Ok::<Method, RpcError>(Method::Subscribe),
            name@ != "send_event"@ && name@ != "subscribe"@ ==> (r matches Err(
                RpcError::UnknownMethod(n),
            ) && n@ == name@),
    {
        proof {
            reveal_strlit("send_event");
            reveal_strlit("subscribe");
            assert("send_event"@.len() != "subscribe"@.len());
        }
        let given = name.to_owned();
        if given == "send_event".to_owned() {
            Ok(Method::SendEvent)
        } else if given == "subscribe".to_owned() {
            Ok(Method::Subscribe)
        } else {
            Err(RpcError::UnknownMethod(given))
        }
    }
}

/// The response frame of a unary call or of one stream item: the error
/// travels in the envelope, a success value as the payload line.
pub open spec fn item_frame(request_id: u64, result: Result<Vec<u8>, RpcError>) -> ResponseFrame {
    ResponseFrame {
        envelope: ResponseEnvelope {
            request_id,
            error: match result {
                Ok(_) => None,
                Err(e) => Some(e),
            },
            stream_end: false,
        },
        payload: match result {
            Ok(p) => Some(p),
            Err(_) => None,
        },
    }
}

/// The terminal frame of a stream, with the error of a call that failed
/// before producing any item.
pub open spec fn end_frame(request_id: u64, error: Option<RpcError>) -> ResponseFrame {
    ResponseFrame {
        envelope: ResponseEnvelope { request_id, error, stream_end: true },
        payload: None,
    }
}

/// All the frames a streaming call is answered with: one per item, then
/// the terminal frame.
pub open spec fn stream_frames(
    request_id: u64,
    result: Result<Seq<Result<Vec<u8>, RpcError>>, RpcError>,
) -> Seq<ResponseFrame> {
    match result {
        Ok(items) => items.map_values(|item: Result<Vec<u8>, RpcError>| item_frame(request_id, item)).push(
            end_frame(request_id, None),
        ),
        Err(e) => seq![end_frame(request_id, Some(e))],
    }
}

/// The response to a unary call, from the handler's result.
pub fn unary_response(request_id: u64, result: Result<Vec<u8>, RpcError>) -> (r: ResponseFrame)
    ensures
        r == item_frame(request_id, result),
        r.wf(),
{
    match result {
        Ok(p) => ResponseFrame {
            envelope: ResponseEnvelope { request_id, error: None, stream_end: false },
            payload: Some(p),
        },
        Err(e) => ResponseFrame {
            envelope: ResponseEnvelope { request_id, error: Some(e), stream_end: false },
            payload: None,
        },
    }
}

/// The response frame of one item that a streaming handler produced.
pub fn stream_item_response(request_id: u64, item: Result<Vec<u8>, RpcError>) -> (r: ResponseFrame)
    ensures
        r == item_frame(request_id, item),
        r.wf(),
{
    unary_response(request_id, item)
}

/// The terminal frame of a stream.
pub fn stream_end_response(request_id: u64, error: Option<RpcError>) -> (r: ResponseFrame)
    ensures
        r == end_frame(request_id, error),
        r.wf(),
{
    ResponseFrame { envelope: ResponseEnvelope { request_id, error, stream_end: true }, payload: None }
}

/// The frames that answer a streaming call: each item in order, then the
/// terminal frame, which comes whatever the handler did and is the only
/// one that ends the stream.
pub fn stream_responses(
    request_id: u64,
    result: Result<Vec<Result<Vec<u8>, RpcError>>, RpcError>,
) -> (r: Vec<ResponseFrame>)
    ensures
        r@ == stream_frames(
            request_id,
            match result {
                Ok(items) => Ok(items@),
                Err(e) => Err(e),
            },
        ),
        r@.len() >= 1,
        r@.last().envelope.stream_end,
        forall|i: int| 0 <= i < r@.len() - 1 ==> !(#[trigger] r@[i]).envelope.stream_end,
        forall|i: int| 0 <= i < r@.len() ==> (#[trigger] r@[i]).wf() && r@[i].envelope.request_id
            == request_id,
{
    match result {
        Err(e) => {
            let mut out: Vec<ResponseFrame> = Vec::new();
            out.push(stream_end_response(request_id, Some(e)));
            assert(out@ =~= seq![end_frame(request_id, Some(e))]);
            out
        },
        Ok(items) => {
            let ghost all = items@;
            let mut rest = items;
            let mut out: Vec<ResponseFrame> = Vec::new();
            let n = rest.len();
            let mut i: usize = 0;
            while i < n
                invariant
                    n == all.len(),
                    i <= n,
                    rest@ == all.subrange(i as int, n as int),
                    out@ == all.subrange(0, i as int).map_values(
                        |item: Result<Vec<u8>, RpcError>| item_frame(request_id, item),
                    ),
                decreases n - i,
            {
                let item = rest.remove(0);
                assert(rest@ =~= all.subrange(i + 1, n as int));
                out.push(stream_item_response(request_id, item));
                assert(all.subrange(0, i + 1) =~= all.subrange(0, i as int).push(item));
                assert(out@ =~= all.subrange(0, i + 1).map_values(
                    |item: Result<Vec<u8>, RpcError>| item_frame(request_id, item),
                ));
                i = i + 1;
            }
            assert(all.subrange(0, n as int) =~= all);
            out.push(stream_end_response(request_id, None));
            out
        },
    }
}

} // verus!
