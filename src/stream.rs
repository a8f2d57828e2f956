//! The consumer side of a streaming call.
//!
//! Frames reach the consumer in the order they were received. Each
//! non-terminal frame yields one item; an item that is an error is the last
//! one; the terminal frame ends the sequence without being yielded.
use vstd::prelude::*;

use crate::error::RpcError;
use crate::protocol::ResponseFrame;

verus! {

/// What one frame means to the consumer.
#[derive(Debug)]
pub enum StreamStep {
    /// The next item of the sequence.
    Yield(Result<Vec<u8>, RpcError>),
    /// The sequence is over.
    End,
}

/// The item a non-terminal frame yields: its error, else its payload.
pub open spec fn frame_item(frame: ResponseFrame) -> Result<Vec<u8>, RpcError> {
    match frame.envelope.error {
        Some(e) => Err(e),
        None => match frame.payload {
            Some(p) => Ok(p),
            None => Err(RpcError::MissingPayload(frame.envelope.request_id)),
        },
    }
}

/// After this frame nothing more is yielded.
pub open spec fn closes(frame: ResponseFrame) -> bool {
    frame.envelope.stream_end || frame_item(frame) is Err
}

/// Some frame of `frames` has closed the sequence.
pub open spec fn closed(frames: Seq<ResponseFrame>) -> bool {
    exists|i: int| 0 <= i < frames.len() && #[trigger] closes(frames[i])
}

/// The items that the frames received so far have yielded, in order.
pub open spec fn stream_items(frames: Seq<ResponseFrame>) -> Seq<Result<Vec<u8>, RpcError>>
    decreases frames.len(),
{
    if frames.len() == 0 {
        Seq::empty()
    } else {
        let before = frames.drop_last();
        let frame = frames.last();
        if closed(before) || frame.envelope.stream_end {
            stream_items(before)
        } else {
            stream_items(before).push(frame_item(frame))
        }
    }
}

/// The state of one stream's consumer.
pub struct StreamConsumer {
    finished: bool,
}

impl StreamConsumer {
    /// Whether the sequence is over.
    pub closed spec fn spec_finished(&self) -> bool {
        self.finished
    }

    pub fn new() -> (r: StreamConsumer)
        ensures
            !r.spec_finished(),
    {
        StreamConsumer { finished: false }
    }

    #[verifier::when_used_as_spec(spec_finished)]
    pub fn is_finished(&self) -> (r: bool)
        ensures
            r == self.spec_finished(),
    {
        self.finished
    }

    /// Takes the next received frame of the stream.
    pub fn accept(&mut self, frame: ResponseFrame) -> (r: StreamStep)
        ensures
            final(self).spec_finished() == (old(self).spec_finished() || closes(frame)),
            r == (if old(self).spec_finished() || frame.envelope.stream_end {
                StreamStep::End
            } else {
                StreamStep::Yield(frame_item(frame))
            }),
    {
        if self.finished {
            return StreamStep::End;
        }
        if frame.envelope.stream_end {
            self.finished = true;
            return StreamStep::End;
        }
        let item = match frame.envelope.error {
            Some(e) => Err(e),
            None => match frame.payload {
                Some(p) => Ok(p),
                None => Err(RpcError::MissingPayload(frame.envelope.request_id)),
            },
        };
        if item.is_err() {
            self.finished = true;
        }
        StreamStep::Yield(item)
    }
}

/// The whole sequence that a stream's frames yield, in receipt order.
pub fn collect_stream(frames: Vec<ResponseFrame>) -> (r: Vec<Result<Vec<u8>, RpcError>>)
    ensures
        r@ == stream_items(frames@),
{
    let ghost all = frames@;
    let mut rest = frames;
    let mut consumer = StreamConsumer::new();
    let mut out: Vec<Result<Vec<u8>, RpcError>> = Vec::new();
    let n = rest.len();
    let mut i: usize = 0;
    while i < n
        invariant
            n == all.len(),
            i <= n,
            rest@ == all.subrange(i as int, n as int),
            out@ == stream_items(all.subrange(0, i as int)),
            consumer.spec_finished() == closed(all.subrange(0, i as int)),
        decreases n - i,
    {
        let frame = rest.remove(0);
        let ghost before = all.subrange(0, i as int);
        let ghost upto = all.subrange(0, i + 1);
        assert(upto.drop_last() =~= before);
        assert(upto.last() == frame);
        assert(rest@ =~= all.subrange(i + 1, n as int));
        proof {
            if closed(before) {
                let j = choose|j: int| 0 <= j < before.len() && #[trigger] closes(before[j]);
                assert(upto[j] == before[j]);
            }
            if closes(frame) {
                assert(closes(upto[i as int]));
            }
            if closed(upto) && !closes(frame) {
                let j = choose|j: int| 0 <= j < upto.len() && #[trigger] closes(upto[j]);
                assert(j != i);
                assert(before[j] == upto[j]);
            }
        }
        match consumer.accept(frame) {
            StreamStep::Yield(item) => {
                out.push(item);
            },
            StreamStep::End => {},
        }
        i = i + 1;
    }
    assert(all.subrange(0, n as int) =~= all);
    out
}

/// A frame that yields its payload and leaves the stream open.
pub open spec fn is_item_frame(frame: ResponseFrame) -> bool {
    &&& !frame.envelope.stream_end
    &&& frame.envelope.error is None
    &&& frame.payload is Some
}

/// A stream whose first `k` frames carry items and whose next frame is the
/// terminal one yields exactly those `k` payloads, in the order received;
/// the terminal frame is not yielded and nothing after it is.
pub proof fn lemma_items_in_receipt_order(frames: Seq<ResponseFrame>, k: int)
    requires
        0 <= k < frames.len(),
        forall|i: int| 0 <= i < k ==> #[trigger] is_item_frame(frames[i]),
        frames[k].envelope.stream_end,
    ensures
        stream_items(frames) == Seq::new(k as nat, |i: int| Ok::<Vec<u8>, RpcError>(frames[i].payload->0)),
{
    lemma_prefix_items(frames, k, frames.len() as int);
    assert(frames.subrange(0, frames.len() as int) =~= frames);
}

proof fn lemma_prefix_items(frames: Seq<ResponseFrame>, k: int, j: int)
    requires
        0 <= k < frames.len(),
        0 <= j <= frames.len(),
        forall|i: int| 0 <= i < k ==> #[trigger] is_item_frame(frames[i]),
        frames[k].envelope.stream_end,
    ensures
        j <= k ==> !closed(frames.subrange(0, j)),
        j > k ==> closed(frames.subrange(0, j)),
        stream_items(frames.subrange(0, j)) == Seq::new(
            (if j <= k { j } else { k }) as nat,
            |i: int| Ok::<Vec<u8>, RpcError>(frames[i].payload->0),
        ),
    decreases j,
{
    let items = |i: int| Ok::<Vec<u8>, RpcError>(frames[i].payload->0);
    let upto = frames.subrange(0, j);
    if j == 0 {
        assert(stream_items(upto) =~= Seq::new(0, items));
    } else {
        lemma_prefix_items(frames, k, j - 1);
        let before = frames.subrange(0, j - 1);
        assert(upto.drop_last() =~= before);
        assert(upto.last() == frames[j - 1]);
        if j <= k {
            assert(is_item_frame(frames[j - 1]));
            assert(stream_items(upto) =~= Seq::new(j as nat, items));
            assert forall|i: int| 0 <= i < upto.len() implies !#[trigger] closes(upto[i]) by {
                assert(upto[i] == frames[i]);
                assert(is_item_frame(frames[i]));
            }
        } else {
            assert(closes(upto[k]));
            if j - 1 > k {
                assert(stream_items(upto) == stream_items(before));
            } else {
                assert(stream_items(upto) == stream_items(before));
            }
        }
    }
}

} // verus!
