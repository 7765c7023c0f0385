use turbocharger::client::ClientManager;
use turbocharger::errors::{ClientError, DecodeError};
use turbocharger::registry::Registry;
use turbocharger::server::ServerConn;
use turbocharger::wire::{encode_result, Outcome, ResultEnvelope};

fn reply(txid: u64, outcome: Outcome) -> Vec<u8> {
    encode_result(&ResultEnvelope { txid, outcome })
}

#[test]
fn registry_register_and_lookup() {
    let mut reg = Registry::new();
    assert_eq!(reg.len(), 0);
    let add = reg.register(b"add".to_vec()).unwrap();
    let hello = reg.register(b"hello".to_vec()).unwrap();
    assert_eq!(add, 0);
    assert_eq!(hello, 1);
    assert_eq!(reg.lookup(b"add"), Some(add));
    assert_eq!(reg.lookup(b"hello"), Some(hello));
    assert_eq!(reg.lookup(b"absent"), None);
}

#[test]
fn registry_duplicate_tag_is_fatal() {
    let mut reg = Registry::new();
    reg.register(b"add".to_vec()).unwrap();
    assert!(reg.register(b"add".to_vec()).is_err());
    // The refused registration changed nothing.
    assert_eq!(reg.len(), 1);
    assert_eq!(reg.lookup(b"add"), Some(0));
}

#[test]
fn txid_uniqueness_across_concurrent_calls() {
    let mut client = ClientManager::new();
    let (t1, _) = client.start_call(b"slow", b"").unwrap();
    let (t2, _) = client.start_call(b"fast", b"").unwrap();
    assert_ne!(t1, t2);
    assert_eq!(client.pending_count(), 2);
}

#[test]
fn txids_are_monotonic_from_zero() {
    let mut client = ClientManager::new();
    let (t1, _) = client.start_call(b"a", b"").unwrap();
    let (t2, _) = client.start_call(b"b", b"").unwrap();
    let (t3, _) = client.start_call(b"c", b"").unwrap();
    assert_eq!((t1, t2, t3), (0, 1, 2));
    assert!(client.can_start());
}

#[test]
fn add_call_through_server_and_back() {
    // The server exposes `add`; the client calls add(2, 3) and receives 5
    // under the transaction id of its own call.
    let mut reg = Registry::new();
    let add_handle = reg.register(b"add".to_vec()).unwrap();
    let conn = ServerConn::new();
    let mut client = ClientManager::new();

    let mut params = Vec::new();
    params.extend_from_slice(&2u64.to_le_bytes());
    params.extend_from_slice(&3u64.to_le_bytes());
    let (txid, frame) = client.start_call(b"add", params.as_slice()).unwrap();

    let job = conn.handle_frame(&reg, frame.as_slice()).unwrap();
    assert_eq!(job.handle, add_handle);
    assert_eq!(job.txid, txid);
    let a = u64::from_le_bytes(job.params[0..8].try_into().unwrap());
    let b = u64::from_le_bytes(job.params[8..16].try_into().unwrap());
    let sum = a + b;
    let out = conn.reply_frame(job.txid, Outcome::Success(sum.to_le_bytes().to_vec()));

    assert_eq!(client.deliver_result(out.as_slice()), Ok(txid));
    let outcome = client.take_result(txid).unwrap().unwrap();
    assert_eq!(outcome, Outcome::Success(5u64.to_le_bytes().to_vec()));
    assert_eq!(client.pending_count(), 0);
}

#[test]
fn out_of_order_results_reach_their_own_callers() {
    // Two concurrent calls; the later call's result arrives first and each
    // pending handle still receives its own outcome.
    let mut client = ClientManager::new();
    let (slow, _) = client.start_call(b"slow", b"").unwrap();
    let (fast, _) = client.start_call(b"fast", b"").unwrap();

    // Neither result has arrived: both callers keep waiting.
    assert_eq!(client.take_result(slow), Ok(None));
    assert_eq!(client.take_result(fast), Ok(None));

    client.deliver_result(reply(fast, Outcome::Success(b"fast".to_vec())).as_slice()).unwrap();
    assert_eq!(
        client.take_result(fast),
        Ok(Some(Outcome::Success(b"fast".to_vec())))
    );
    // `slow` is still pending and untouched by `fast`'s delivery.
    assert_eq!(client.take_result(slow), Ok(None));

    client.deliver_result(reply(slow, Outcome::Success(b"slow".to_vec())).as_slice()).unwrap();
    assert_eq!(
        client.take_result(slow),
        Ok(Some(Outcome::Success(b"slow".to_vec())))
    );
}

#[test]
fn unknown_tag_keeps_connection_open() {
    let mut reg = Registry::new();
    reg.register(b"add".to_vec()).unwrap();
    let conn = ServerConn::new();
    let mut client = ClientManager::new();

    let (_, bad_frame) = client.start_call(b"absent", b"").unwrap();
    assert_eq!(
        conn.handle_frame(&reg, bad_frame.as_slice()),
        Err(DecodeError::UnknownTag)
    );
    assert!(conn.open());

    // The connection still dispatches well-formed calls afterwards.
    let (txid, good_frame) = client.start_call(b"add", b"").unwrap();
    let job = conn.handle_frame(&reg, good_frame.as_slice()).unwrap();
    assert_eq!(job.txid, txid);
}

#[test]
fn malformed_frame_keeps_connection_open() {
    let reg = Registry::new();
    let conn = ServerConn::new();
    assert_eq!(
        conn.handle_frame(&reg, &[1, 2, 3]),
        Err(DecodeError::Malformed)
    );
    assert!(conn.open());
}

#[test]
fn unknown_txid_is_protocol_violation_and_harmless() {
    let mut client = ClientManager::new();
    let (t1, _) = client.start_call(b"a", b"").unwrap();
    let (t2, _) = client.start_call(b"b", b"").unwrap();

    assert_eq!(
        client.deliver_result(reply(99, Outcome::Success(vec![])).as_slice()),
        Err(ClientError::ProtocolViolation)
    );
    // The two pending calls are unaffected and still deliverable.
    assert_eq!(client.pending_count(), 2);
    client.deliver_result(reply(t1, Outcome::Success(vec![1])).as_slice()).unwrap();
    client.deliver_result(reply(t2, Outcome::Success(vec![2])).as_slice()).unwrap();
    assert_eq!(client.take_result(t1), Ok(Some(Outcome::Success(vec![1]))));
    assert_eq!(client.take_result(t2), Ok(Some(Outcome::Success(vec![2]))));
}

#[test]
fn duplicate_result_is_protocol_violation() {
    let mut client = ClientManager::new();
    let (txid, _) = client.start_call(b"a", b"").unwrap();
    client.deliver_result(reply(txid, Outcome::Success(vec![1])).as_slice()).unwrap();
    assert_eq!(
        client.deliver_result(reply(txid, Outcome::Success(vec![2])).as_slice()),
        Err(ClientError::ProtocolViolation)
    );
    // The first delivery stands.
    assert_eq!(client.take_result(txid), Ok(Some(Outcome::Success(vec![1]))));
}

#[test]
fn garbage_result_frame_is_decode_error() {
    let mut client = ClientManager::new();
    let (txid, _) = client.start_call(b"a", b"").unwrap();
    assert_eq!(client.deliver_result(&[0; 5]), Err(ClientError::Decode));
    assert_eq!(client.pending_count(), 1);
    assert_eq!(client.take_result(txid), Ok(None));
}

#[test]
fn connection_closed_fails_all_pending_calls() {
    let mut client = ClientManager::new();
    let (t1, _) = client.start_call(b"a", b"").unwrap();
    let (t2, _) = client.start_call(b"b", b"").unwrap();
    let (t3, _) = client.start_call(b"c", b"").unwrap();

    assert!(!client.is_closed());
    client.connection_closed();
    assert!(client.is_closed());
    assert_eq!(client.take_result(t1), Err(ClientError::ConnectionClosed));
    assert_eq!(client.take_result(t2), Err(ClientError::ConnectionClosed));
    assert_eq!(client.take_result(t3), Err(ClientError::ConnectionClosed));
    assert_eq!(client.pending_count(), 0);
}

#[test]
fn delivered_result_survives_connection_close() {
    let mut client = ClientManager::new();
    let (txid, _) = client.start_call(b"a", b"").unwrap();
    client.deliver_result(reply(txid, Outcome::Success(vec![9])).as_slice()).unwrap();
    client.connection_closed();
    assert_eq!(client.take_result(txid), Ok(Some(Outcome::Success(vec![9]))));
}

#[test]
fn start_call_on_closed_connection_fails_fast() {
    let mut client = ClientManager::new();
    client.connection_closed();
    assert_eq!(
        client.start_call(b"a", b""),
        Err(ClientError::ConnectionClosed)
    );
    assert_eq!(client.pending_count(), 0);
}

#[test]
fn abandoned_call_discards_late_result() {
    let mut client = ClientManager::new();
    let (txid, _) = client.start_call(b"a", b"").unwrap();
    assert!(client.abandon(txid));
    assert!(!client.abandon(txid));
    assert_eq!(
        client.deliver_result(reply(txid, Outcome::Success(vec![])).as_slice()),
        Err(ClientError::ProtocolViolation)
    );
    assert_eq!(client.take_result(txid), Err(ClientError::ProtocolViolation));
}

#[test]
fn dispatch_error_travels_as_failure_outcome() {
    // A failing procedure is reported inside the Result envelope, scoped to
    // its own transaction.
    let mut client = ClientManager::new();
    let (t1, _) = client.start_call(b"bad", b"").unwrap();
    let (t2, _) = client.start_call(b"good", b"").unwrap();
    let conn = ServerConn::new();
    let out = conn.reply_frame(t1, Outcome::Failure(b"boom".to_vec()));
    client.deliver_result(out.as_slice()).unwrap();
    assert_eq!(
        client.take_result(t1),
        Ok(Some(Outcome::Failure(b"boom".to_vec())))
    );
    // The other call is still cleanly pending.
    assert_eq!(client.take_result(t2), Ok(None));
}
