//! Client-side correlation of responses to outstanding calls.
//!
//! Every outstanding call owns its id in one of two tables: the unary
//! table, whose entry receives one response and is then removed, and the
//! stream table, whose entry receives every frame of a stream and is
//! removed with the terminal frame. The slot type `S` is whatever delivers
//! a response to the waiting caller.
use vstd::prelude::*;

use std::collections::HashMap;

use crate::error::RpcError;
use crate::protocol::{ResponseEnvelope, ResponseFrame};
use crate::stream::frame_item;

verus! {

broadcast use vstd::std_specs::hash::group_hash_axioms;

/// Where a response goes.
#[derive(Debug)]
pub enum Delivery<S> {
    /// The one response of a unary call, whose entry has been removed.
    Unary(S),
    /// A non-terminal frame of the stream with this id, whose entry stays.
    StreamItem(u64),
    /// The terminal frame of a stream, whose entry has been removed.
    StreamEnd(S),
    /// No outstanding call owns this id: the response is discarded.
    Orphan(u64),
}

/// What the receive task does with an envelope line it has read.
#[derive(Debug)]
pub enum ReceiveStep<S> {
    /// Read the payload line that follows, then route the frame.
    ReadPayload,
    /// The frame has no payload line and goes here.
    Deliver(Delivery<S>),
    /// The line could not be decoded: the task stops.
    Stop,
}

/// No id is owned by a unary call and a stream at once.
pub open spec fn tables_wf<S>(unary: Map<u64, S>, streams: Map<u64, S>) -> bool {
    forall|id: u64| !(#[trigger] unary.contains_key(id) && #[trigger] streams.contains_key(id))
}

/// The tables after routing `envelope`, and where it goes.
///
/// A unary entry takes the response and leaves its table; a stream entry
/// takes every frame and leaves its table with the terminal one.
pub open spec fn route_spec<S>(unary: Map<u64, S>, streams: Map<u64, S>, envelope: ResponseEnvelope) -> (
    Map<u64, S>,
    Map<u64, S>,
    Delivery<S>,
) {
    let id = envelope.request_id;
    if unary.contains_key(id) {
        (unary.remove(id), streams, Delivery::Unary(unary[id]))
    } else if streams.contains_key(id) {
        if envelope.stream_end {
            (unary, streams.remove(id), Delivery::StreamEnd(streams[id]))
        } else {
            (unary, streams, Delivery::StreamItem(id))
        }
    } else {
        (unary, streams, Delivery::Orphan(id))
    }
}

/// A unary call's entry exists from its registration until its response,
/// which removes it exactly once: the response reaches the registered
/// slot, the tables return to what they were before the call, and a
/// second response with the same id is an orphan.
pub proof fn lemma_unary_entry_removed_once<S>(
    unary: Map<u64, S>,
    streams: Map<u64, S>,
    id: u64,
    slot: S,
    response: ResponseEnvelope,
    duplicate: ResponseEnvelope,
)
    requires
        tables_wf(unary, streams),
        !unary.contains_key(id),
        !streams.contains_key(id),
        response.request_id == id,
        duplicate.request_id == id,
    ensures
        unary.insert(id, slot).contains_key(id),
        route_spec(unary.insert(id, slot), streams, response) == (
            unary,
            streams,
            Delivery::Unary(slot),
        ),
        route_spec(unary, streams, duplicate).2 == Delivery::<S>::Orphan(id),
{
    assert(unary.insert(id, slot).remove(id) =~= unary);
}

/// Responses to two outstanding unary calls reach their own slots in
/// whichever order they arrive, and leave the same tables behind.
pub proof fn lemma_unary_responses_commute<S>(
    unary: Map<u64, S>,
    streams: Map<u64, S>,
    first: ResponseEnvelope,
    second: ResponseEnvelope,
)
    requires
        tables_wf(unary, streams),
        unary.contains_key(first.request_id),
        unary.contains_key(second.request_id),
        first.request_id != second.request_id,
    ensures
        ({
            let (u1, s1, d1) = route_spec(unary, streams, first);
            let (u2, s2, d2) = route_spec(u1, s1, second);
            let (v1, t1, e1) = route_spec(unary, streams, second);
            let (v2, t2, e2) = route_spec(v1, t1, first);
            &&& d1 == Delivery::Unary(unary[first.request_id])
            &&& d2 == Delivery::Unary(unary[second.request_id])
            &&& e1 == Delivery::Unary(unary[second.request_id])
            &&& e2 == Delivery::Unary(unary[first.request_id])
            &&& u2 == v2
            &&& s2 == t2
        }),
{
    let a = first.request_id;
    let b = second.request_id;
    assert(unary.remove(a).remove(b) =~= unary.remove(b).remove(a));
}

/// The correlation tables of one client connection.
pub struct CallTables<S> {
    unary: HashMap<u64, S>,
    streams: HashMap<u64, S>,
}

impl<S> CallTables<S> {
    /// The outstanding unary calls, by id.
    pub closed spec fn unary_calls(&self) -> Map<u64, S> {
        self.unary@
    }

    /// The outstanding streaming calls, by id.
    pub closed spec fn stream_calls(&self) -> Map<u64, S> {
        self.streams@
    }

    pub open spec fn wf(&self) -> bool {
        tables_wf(self.unary_calls(), self.stream_calls())
    }

    /// Whether an outstanding call owns `id`.
    pub open spec fn spec_owns(&self, id: u64) -> bool {
        self.unary_calls().contains_key(id) || self.stream_calls().contains_key(id)
    }

    pub fn new() -> (r: CallTables<S>)
        ensures
            r.wf(),
            r.unary_calls() == Map::<u64, S>::empty(),
            r.stream_calls() == Map::<u64, S>::empty(),
    {
        CallTables { unary: HashMap::new(), streams: HashMap::new() }
    }

    #[verifier::when_used_as_spec(spec_owns)]
    pub fn owns(&self, id: u64) -> (r: bool)
        ensures
            r == self.spec_owns(id),
    {
        self.unary.contains_key(&id) || self.streams.contains_key(&id)
    }

    /// Registers the single-use slot of a unary call; refused while
    /// another outstanding call owns the id.
    pub fn register_unary(&mut self, id: u64, slot: S) -> (r: Result<(), RpcError>)
        requires
            old(self).wf(),
        ensures
            final(self).wf(),
            final(self).stream_calls() == old(self).stream_calls(),
            old(self).spec_owns(id) ==> r == Err::<(), RpcError>(RpcError::CallIdInUse(id))
                && final(self).unary_calls() == old(self).unary_calls(),
            !old(self).spec_owns(id) ==> r is Ok && final(self).unary_calls() == old(
                self,
            ).unary_calls().insert(id, slot),
    {
        if self.owns(id) {
            return Err(RpcError::CallIdInUse(id));
        }
        self.unary.insert(id, slot);
        Ok(())
    }

    /// Registers the slot of a streaming call; refused while another
    /// outstanding call owns the id.
    pub fn register_stream(&mut self, id: u64, slot: S) -> (r: Result<(), RpcError>)
        requires
            old(self).wf(),
        ensures
            final(self).wf(),
            final(self).unary_calls() == old(self).unary_calls(),
            old(self).spec_owns(id) ==> r == Err::<(), RpcError>(RpcError::CallIdInUse(id))
                && final(self).stream_calls() == old(self).stream_calls(),
            !old(self).spec_owns(id) ==> r is Ok && final(self).stream_calls() == old(
                self,
            ).stream_calls().insert(id, slot),
    {
        if self.owns(id) {
            return Err(RpcError::CallIdInUse(id));
        }
        self.streams.insert(id, slot);
        Ok(())
    }

    /// Removes the entry that owns `id`, from whichever table holds it: a
    /// call whose request could not be sent, or a stream that its consumer
    /// abandoned.
    pub fn release(&mut self, id: u64) -> (r: Option<S>)
        requires
            old(self).wf(),
        ensures
            final(self).wf(),
            final(self).unary_calls() == old(self).unary_calls().remove(id),
            final(self).stream_calls() == old(self).stream_calls().remove(id),
            r == (if old(self).unary_calls().contains_key(id) {
                Some(old(self).unary_calls()[id])
            } else if old(self).stream_calls().contains_key(id) {
                Some(old(self).stream_calls()[id])
            } else {
                None
            }),
    {
        let u = self.unary.remove(&id);
        let s = self.streams.remove(&id);
        match u {
            Some(slot) => Some(slot),
            None => s,
        }
    }

    /// Routes a response by the id in its envelope, never by its position
    /// among other responses.
    pub fn route(&mut self, envelope: &ResponseEnvelope) -> (r: Delivery<S>)
        requires
            old(self).wf(),
        ensures
            final(self).wf(),
            (final(self).unary_calls(), final(self).stream_calls(), r) == route_spec(
                old(self).unary_calls(),
                old(self).stream_calls(),
                *envelope,
            ),
    {
        let id = envelope.request_id;
        if let Some(slot) = self.unary.remove(&id) {
            return Delivery::Unary(slot);
        }
        if envelope.stream_end {
            match self.streams.remove(&id) {
                Some(slot) => Delivery::StreamEnd(slot),
                None => Delivery::Orphan(id),
            }
        } else if self.streams.contains_key(&id) {
            Delivery::StreamItem(id)
        } else {
            Delivery::Orphan(id)
        }
    }

    /// The slot of the stream with this id, if it is outstanding.
    pub fn stream_slot(&self, id: u64) -> (r: Option<&S>)
        ensures
            match r {
                Some(slot) => self.stream_calls().contains_key(id) && *slot == self.stream_calls()[id],
                None => !self.stream_calls().contains_key(id),
            },
    {
        self.streams.get(&id)
    }

    /// The receive task's decision on an envelope line: stop on a line that
    /// did not decode, read on where a payload line follows, and route
    /// the frame otherwise.
    pub fn on_envelope(&mut self, decoded: &Result<ResponseEnvelope, RpcError>) -> (r: ReceiveStep<S>)
        requires
            old(self).wf(),
        ensures
            final(self).wf(),
            match decoded {
                Err(_) => r is Stop && *final(self) == *old(self),
                Ok(envelope) => if envelope.spec_has_payload() {
                    r is ReadPayload && *final(self) == *old(self)
                } else {
                    r matches ReceiveStep::Deliver(d) && (
                        final(self).unary_calls(),
                        final(self).stream_calls(),
                        d,
                    ) == route_spec(old(self).unary_calls(), old(self).stream_calls(), *envelope)
                },
            },
    {
        match decoded {
            Err(_) => ReceiveStep::Stop,
            Ok(envelope) => {
                if envelope.has_payload() {
                    ReceiveStep::ReadPayload
                } else {
                    ReceiveStep::Deliver(self.route(envelope))
                }
            },
        }
    }
}

/// What a unary call resolves to on its response: the error the envelope
/// carries, else the payload line, which the caller decodes.
pub fn unary_result(frame: ResponseFrame) -> (r: Result<Vec<u8>, RpcError>)
    ensures
        r == frame_item(frame),
{
    match frame.envelope.error {
        Some(e) => Err(e),
        None => match frame.payload {
            Some(p) => Ok(p),
            None => Err(RpcError::MissingPayload(frame.envelope.request_id)),
        },
    }
}

/// Hands out call ids: each call takes the next value of a counter.
pub struct CallIds {
    next: u64,
}

impl CallIds {
    /// The id the next call will take.
    pub closed spec fn spec_next(&self) -> u64 {
        self.next
    }

    pub fn new() -> (r: CallIds)
        ensures
            r.spec_next() == 0,
    {
        CallIds { next: 0 }
    }

    /// Takes the next id and advances the counter, wrapping at the top of
    /// the range as an atomic fetch-and-add does; a wrapped id that is
    /// still outstanding is refused when its call registers.
    pub fn issue(&mut self) -> (r: u64)
        ensures
            r == old(self).spec_next(),
            final(self).spec_next() == (if r == u64::MAX {
                0
            } else {
                (r + 1) as u64
            }),
    {
        let id = self.next;
        self.next = if id == u64::MAX {
            0
        } else {
            id + 1
        };
        id
    }
}

} // verus!
