use events_rpc::client::{unary_result, CallIds, CallTables, Delivery, ReceiveStep};
use events_rpc::error::RpcError;
use events_rpc::protocol::{ResponseEnvelope, ResponseFrame};
use events_rpc::server::{stream_responses, unary_response, Method};
use events_rpc::stream::{StreamConsumer, StreamStep};
use events_rpc::wire::{request_unit, response_unit, LineBuffer};

fn request_envelope_line(method: &str, id: u64) -> Vec<u8> {
    format!("{{\"method_name\":\"{}\",\"request_id\":{}}}", method, id).into_bytes()
}

fn response_envelope_line(envelope: &ResponseEnvelope) -> Vec<u8> {
    let error = match &envelope.error {
        Some(RpcError::Custom(m)) => format!("{{\"Custom\":\"{}\"}}", m),
        Some(other) => panic!("unexpected {:?}", other),
        None => "null".to_string(),
    };
    format!(
        "{{\"request_id\":{},\"error\":{},\"stream_end\":{}}}",
        envelope.request_id, error, envelope.stream_end
    )
    .into_bytes()
}

fn encode(frame: &ResponseFrame) -> Vec<u8> {
    response_unit(&response_envelope_line(&frame.envelope), frame.payload.as_deref()).unwrap()
}

/// Server side: reads one request from the bytes and parses its method.
fn serve_request(bytes: &[u8], method_name: &str) -> (Result<Method, RpcError>, Vec<u8>) {
    let mut buffer = LineBuffer::new();
    buffer.push(bytes);
    let _envelope = buffer.next_line().unwrap();
    let _metadata = buffer.next_line().unwrap();
    let payload = buffer.next_line().unwrap();
    (Method::parse(method_name), payload)
}

/// Client side: reads the response lines back and routes each frame.
fn receive(tables: &mut CallTables<u64>, wire: &[u8], frames: Vec<ResponseFrame>) -> Vec<(Delivery<u64>, ResponseFrame)> {
    let mut buffer = LineBuffer::new();
    buffer.push(wire);
    let mut out = Vec::new();
    for frame in frames {
        let line = buffer.next_line().unwrap();
        assert_eq!(line, response_envelope_line(&frame.envelope));
        let envelope = frame.envelope;
        let step = tables.on_envelope(&Ok(ResponseEnvelope {
            request_id: envelope.request_id,
            error: envelope.error.clone(),
            stream_end: envelope.stream_end,
        }));
        match step {
            ReceiveStep::ReadPayload => {
                let payload = buffer.next_line().unwrap();
                assert_eq!(Some(&payload), frame.payload.as_ref());
                let delivery = tables.route(&envelope);
                out.push((delivery, ResponseFrame { envelope, payload: Some(payload) }));
            }
            ReceiveStep::Deliver(delivery) => {
                out.push((delivery, ResponseFrame { envelope, payload: None }));
            }
            ReceiveStep::Stop => panic!("stopped"),
        }
    }
    assert_eq!(buffer.next_line(), None);
    out
}

#[test]
fn unary_send_event_succeeds() {
    let mut ids = CallIds::new();
    let mut tables: CallTables<u64> = CallTables::new();
    let id = ids.issue();
    tables.register_unary(id, 100).unwrap();
    let unit = request_unit(&request_envelope_line("send_event", id), b"{}", b"{\"path\":\"/a\"}").unwrap();
    let (method, payload) = serve_request(&unit, "send_event");
    assert_eq!(method, Ok(Method::SendEvent));
    assert_eq!(payload, b"{\"path\":\"/a\"}".to_vec());
    let frame = unary_response(id, Ok(b"null".to_vec()));
    let wire = encode(&frame);
    let mut delivered = receive(&mut tables, &wire, vec![frame]);
    let (delivery, frame) = delivered.remove(0);
    assert!(matches!(delivery, Delivery::Unary(100)));
    assert_eq!(unary_result(frame), Ok(b"null".to_vec()));
    assert!(!tables.owns(id));
}

#[test]
fn streaming_subscribe_yields_three_items() {
    let mut tables: CallTables<u64> = CallTables::new();
    tables.register_stream(0, 7).unwrap();
    let unit = request_unit(&request_envelope_line("subscribe", 0), b"{}", b"{}").unwrap();
    let (method, _) = serve_request(&unit, "subscribe");
    assert_eq!(method, Ok(Method::Subscribe));
    let frames = stream_responses(0, Ok(vec![Ok(b"1".to_vec()), Ok(b"2".to_vec()), Ok(b"3".to_vec())]));
    let mut wire = Vec::new();
    for frame in &frames {
        wire.extend(encode(frame));
    }
    let delivered = receive(&mut tables, &wire, frames);
    let mut consumer = StreamConsumer::new();
    let mut items = Vec::new();
    let mut ended = false;
    for (delivery, frame) in delivered {
        assert!(matches!(delivery, Delivery::StreamItem(0) | Delivery::StreamEnd(7)));
        match consumer.accept(frame) {
            StreamStep::Yield(item) => items.push(item),
            StreamStep::End => ended = true,
        }
    }
    assert!(ended);
    assert_eq!(items, vec![Ok(b"1".to_vec()), Ok(b"2".to_vec()), Ok(b"3".to_vec())]);
    assert!(!tables.owns(0));
}

#[test]
fn handler_error_reaches_the_caller_without_payload_line() {
    let mut tables: CallTables<u64> = CallTables::new();
    tables.register_unary(3, 30).unwrap();
    let frame = unary_response(3, Err(RpcError::Custom("rejected".to_string())));
    let wire = encode(&frame);
    assert_eq!(wire.iter().filter(|b| **b == b'\n').count(), 1);
    let mut delivered = receive(&mut tables, &wire, vec![frame]);
    let (delivery, frame) = delivered.remove(0);
    assert!(matches!(delivery, Delivery::Unary(30)));
    assert_eq!(unary_result(frame), Err(RpcError::Custom("rejected".to_string())));
}

#[test]
fn unknown_method_ends_only_its_connection() {
    let bad = request_unit(&request_envelope_line("frobnicate", 0), b"{}", b"{}").unwrap();
    let good = request_unit(&request_envelope_line("send_event", 0), b"{}", b"{}").unwrap();
    let (bad_method, _) = serve_request(&bad, "frobnicate");
    assert_eq!(bad_method, Err(RpcError::UnknownMethod("frobnicate".to_string())));
    let (good_method, _) = serve_request(&good, "send_event");
    assert_eq!(good_method, Ok(Method::SendEvent));
    let mut tables: CallTables<u64> = CallTables::new();
    tables.register_unary(0, 1).unwrap();
    let frame = unary_response(0, Ok(b"null".to_vec()));
    let wire = encode(&frame);
    let mut delivered = receive(&mut tables, &wire, vec![frame]);
    assert_eq!(unary_result(delivered.remove(0).1), Ok(b"null".to_vec()));
}
