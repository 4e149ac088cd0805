use rust_socket::dispatch::{
    plan_dispatch, tally_broadcast, Address, DispatchError, Message,
};
use rust_socket::ids::allocate_session_id;
use rust_socket::registry::{Registry, RegistryError};
use rust_socket::session::{Session, SessionState, Transport};

fn filled_registry(ids: &[u128]) -> Registry {
    let mut r = Registry::new();
    for &id in ids {
        r.accept(id, String::from("127.0.0.1:9"), Transport::RawSocket)
            .expect("fresh id");
    }
    r
}

#[test]
fn session_lifecycle_is_monotonic() {
    let mut s = Session::new(5, String::from("127.0.0.1:1000"), Transport::RawSocket);
    assert_eq!(s.state, SessionState::Connecting);
    s.mark_open();
    assert_eq!(s.state, SessionState::Open);
    s.mark_closing();
    assert_eq!(s.state, SessionState::Closing);
    s.mark_closed();
    assert_eq!(s.state, SessionState::Closed);
    s.mark_closed();
    assert_eq!(s.state, SessionState::Closed);
    assert_eq!(s.id, 5);
}

#[test]
fn registry_insert_lookup_remove() {
    let mut r = Registry::new();
    assert_eq!(r.len(), 0);
    r.accept(42, String::from("10.0.0.1:5555"), Transport::WebSocket)
        .expect("fresh id");
    assert_eq!(r.len(), 1);
    assert!(r.contains(42));
    let s = r.get(42).expect("registered");
    assert_eq!(s.id, 42);
    assert_eq!(s.state, SessionState::Open);
    assert_eq!(s.remote_address, "10.0.0.1:5555");
    assert_eq!(s.transport, Transport::WebSocket);
    let gone = r.remove(42).expect("was registered");
    assert_eq!(gone.id, 42);
    assert!(!r.contains(42));
    assert!(r.get(42).is_none());
    assert_eq!(r.len(), 0);
}

#[test]
fn registry_rejects_duplicate_id() {
    let mut r = filled_registry(&[7]);
    let dup = r.accept(7, String::from("10.0.0.2:6"), Transport::WebSocket);
    assert_eq!(dup, Err(RegistryError::DuplicateId));
    // The live session under the id is untouched.
    assert_eq!(r.len(), 1);
    assert_eq!(r.get(7).expect("still there").transport, Transport::RawSocket);
}

#[test]
fn registry_remove_absent_is_noop() {
    let mut r = filled_registry(&[1, 2]);
    assert!(r.remove(3).is_none());
    assert_eq!(r.len(), 2);
}

#[test]
fn close_unknown_id_is_noop_not_error() {
    let r = filled_registry(&[1]);
    assert!(r.close(99).is_none());
    assert_eq!(r.len(), 1);
}

#[test]
fn close_twice_removes_exactly_once() {
    let mut r = filled_registry(&[8]);
    // First close finds the session; its read loop then removes it once.
    assert!(r.close(8).is_some());
    assert!(r.remove(8).is_some());
    // The racing second close finds nothing and removes nothing.
    assert!(r.close(8).is_none());
    assert!(r.remove(8).is_none());
    assert_eq!(r.len(), 0);
}

#[test]
fn snapshot_lists_every_registered_id() {
    let r = filled_registry(&[3, 1, 2]);
    let ids = r.snapshot_ids();
    assert_eq!(ids.len(), 3);
    assert!(ids.contains(&1));
    assert!(ids.contains(&2));
    assert!(ids.contains(&3));
}

#[test]
fn unicast_targets_exactly_the_session() {
    let r = filled_registry(&[10, 11]);
    let plan = plan_dispatch(
        &r,
        Message { address: Address::Unicast(10), payload: b"hi".to_vec() },
    )
    .expect("registered target");
    assert_eq!(plan.targets, vec![10]);
    assert_eq!(plan.payload, b"hi".to_vec());
}

#[test]
fn unicast_unknown_id_is_session_not_found() {
    let r = filled_registry(&[10]);
    let err = plan_dispatch(
        &r,
        Message { address: Address::Unicast(11), payload: b"hi".to_vec() },
    )
    .unwrap_err();
    assert_eq!(err, DispatchError::SessionNotFound);
}

#[test]
fn unicast_right_after_removal_is_session_not_found() {
    let mut r = filled_registry(&[77]);
    r.remove(77).expect("was registered");
    let err = plan_dispatch(
        &r,
        Message { address: Address::Unicast(77), payload: b"late".to_vec() },
    )
    .unwrap_err();
    assert_eq!(err, DispatchError::SessionNotFound);
}

#[test]
fn broadcast_targets_every_session_once() {
    let r = filled_registry(&[5, 6, 7]);
    let plan = plan_dispatch(
        &r,
        Message { address: Address::Broadcast, payload: b"all".to_vec() },
    )
    .expect("broadcast cannot fail");
    let mut targets = plan.targets.clone();
    targets.sort_unstable();
    assert_eq!(targets, vec![5, 6, 7]);
    assert_eq!(plan.payload, b"all".to_vec());
}

#[test]
fn broadcast_on_empty_registry_has_no_targets() {
    let r = Registry::new();
    let plan = plan_dispatch(
        &r,
        Message { address: Address::Broadcast, payload: b"void".to_vec() },
    )
    .expect("broadcast cannot fail");
    assert!(plan.targets.is_empty());
}

#[test]
fn one_failed_write_does_not_stop_the_others() {
    let targets: Vec<u128> = vec![5, 6, 7];
    // The write to session 6 failed; 5 and 7 still got the payload.
    let report = tally_broadcast(&targets, &vec![true, false, true]);
    assert_eq!(report.delivered, vec![5, 7]);
    assert_eq!(report.failed, vec![6]);
}

#[test]
fn all_writes_ok_delivers_to_all_in_order() {
    let targets: Vec<u128> = vec![9, 4, 2];
    let report = tally_broadcast(&targets, &vec![true, true, true]);
    assert_eq!(report.delivered, vec![9, 4, 2]);
    assert!(report.failed.is_empty());
}

#[test]
fn raw_socket_id_fits_in_64_bits() {
    for _ in 0..16 {
        let id = allocate_session_id(Transport::RawSocket);
        assert!(id <= u64::MAX as u128);
    }
}

#[test]
fn websocket_id_is_a_version_4_uuid_value() {
    for _ in 0..16 {
        let id = allocate_session_id(Transport::WebSocket);
        assert_eq!((id >> 76) & 0xf, 4);
        assert!(id > u64::MAX as u128);
    }
}
