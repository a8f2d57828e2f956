use events_rpc::client::{unary_result, CallIds, CallTables, Delivery, ReceiveStep};
use events_rpc::error::RpcError;
use events_rpc::protocol::{ResponseEnvelope, ResponseFrame};

fn envelope(request_id: u64, error: Option<RpcError>, stream_end: bool) -> ResponseEnvelope {
    ResponseEnvelope { request_id, error, stream_end }
}

#[test]
fn unary_entry_is_removed_once() {
    let mut tables: CallTables<&str> = CallTables::new();
    tables.register_unary(4, "caller four").unwrap();
    assert!(tables.owns(4));
    match tables.route(&envelope(4, None, false)) {
        Delivery::Unary(slot) => assert_eq!(slot, "caller four"),
        other => panic!("unexpected {:?}", other),
    }
    assert!(!tables.owns(4));
    match tables.route(&envelope(4, None, false)) {
        Delivery::Orphan(id) => assert_eq!(id, 4),
        other => panic!("unexpected {:?}", other),
    }
}

#[test]
fn an_owned_id_is_refused() {
    let mut tables: CallTables<u8> = CallTables::new();
    tables.register_unary(1, 10).unwrap();
    assert_eq!(tables.register_unary(1, 11), Err(RpcError::CallIdInUse(1)));
    assert_eq!(tables.register_stream(1, 12), Err(RpcError::CallIdInUse(1)));
    tables.register_stream(2, 20).unwrap();
    assert_eq!(tables.register_unary(2, 21), Err(RpcError::CallIdInUse(2)));
}

#[test]
fn out_of_order_responses_reach_their_own_callers() {
    let mut tables: CallTables<&str> = CallTables::new();
    tables.register_unary(0, "first").unwrap();
    tables.register_unary(1, "second").unwrap();
    tables.register_unary(2, "third").unwrap();
    let mut got = Vec::new();
    for id in [2u64, 0, 1] {
        match tables.route(&envelope(id, None, false)) {
            Delivery::Unary(slot) => got.push(slot),
            other => panic!("unexpected {:?}", other),
        }
    }
    assert_eq!(got, vec!["third", "first", "second"]);
    assert!(!tables.owns(0) && !tables.owns(1) && !tables.owns(2));
}

#[test]
fn stream_entry_stays_until_terminal_frame() {
    let mut tables: CallTables<&str> = CallTables::new();
    tables.register_stream(9, "stream").unwrap();
    match tables.route(&envelope(9, None, false)) {
        Delivery::StreamItem(id) => assert_eq!(id, 9),
        other => panic!("unexpected {:?}", other),
    }
    assert_eq!(tables.stream_slot(9), Some(&"stream"));
    match tables.route(&envelope(9, None, true)) {
        Delivery::StreamEnd(slot) => assert_eq!(slot, "stream"),
        other => panic!("unexpected {:?}", other),
    }
    assert_eq!(tables.stream_slot(9), None);
    assert!(matches!(tables.route(&envelope(9, None, true)), Delivery::Orphan(9)));
}

#[test]
fn release_removes_an_abandoned_stream() {
    let mut tables: CallTables<u8> = CallTables::new();
    tables.register_stream(3, 30).unwrap();
    tables.register_unary(4, 40).unwrap();
    assert_eq!(tables.release(3), Some(30));
    assert_eq!(tables.release(3), None);
    assert_eq!(tables.release(4), Some(40));
    assert!(!tables.owns(3) && !tables.owns(4));
}

#[test]
fn receive_step_reads_payload_only_when_one_follows() {
    let mut tables: CallTables<u8> = CallTables::new();
    tables.register_unary(1, 1).unwrap();
    tables.register_unary(2, 2).unwrap();
    assert!(matches!(tables.on_envelope(&Ok(envelope(1, None, false))), ReceiveStep::ReadPayload));
    assert!(tables.owns(1));
    let failed = envelope(2, Some(RpcError::Custom("bad".to_string())), false);
    assert!(matches!(tables.on_envelope(&Ok(failed)), ReceiveStep::Deliver(Delivery::Unary(2))));
    assert!(!tables.owns(2));
    assert!(matches!(
        tables.on_envelope(&Ok(envelope(5, Some(RpcError::Custom("x".to_string())), false))),
        ReceiveStep::Deliver(Delivery::Orphan(5))
    ));
}

#[test]
fn corrupt_envelope_stops_only_its_own_task() {
    let mut broken: CallTables<u8> = CallTables::new();
    let mut healthy: CallTables<u8> = CallTables::new();
    broken.register_unary(0, 1).unwrap();
    healthy.register_unary(0, 2).unwrap();
    let decoded: Result<ResponseEnvelope, RpcError> =
        Err(RpcError::Serde("expected value at line 1 column 1".to_string()));
    assert!(matches!(broken.on_envelope(&decoded), ReceiveStep::Stop));
    assert!(broken.owns(0));
    assert!(matches!(healthy.on_envelope(&Ok(envelope(0, None, false))), ReceiveStep::ReadPayload));
    assert!(matches!(healthy.route(&envelope(0, None, false)), Delivery::Unary(2)));
}

#[test]
fn unary_result_of_each_frame_kind() {
    let ok = ResponseFrame { envelope: envelope(1, None, false), payload: Some(b"null".to_vec()) };
    assert_eq!(unary_result(ok), Ok(b"null".to_vec()));
    let failed = ResponseFrame {
        envelope: envelope(1, Some(RpcError::Custom("denied".to_string())), false),
        payload: None,
    };
    assert_eq!(unary_result(failed), Err(RpcError::Custom("denied".to_string())));
    let missing = ResponseFrame { envelope: envelope(6, None, false), payload: None };
    assert_eq!(unary_result(missing), Err(RpcError::MissingPayload(6)));
}

#[test]
fn call_ids_count_up() {
    let mut ids = CallIds::new();
    assert_eq!(ids.issue(), 0);
    assert_eq!(ids.issue(), 1);
    assert_eq!(ids.issue(), 2);
}
