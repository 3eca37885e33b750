use enclave_proxy::mux::{next_request_id, MuxState};

#[test]
fn request_ids_count_up_from_one() {
    let mut counter: u64 = 0;
    assert_eq!(next_request_id(&mut counter), "req-1");
    assert_eq!(next_request_id(&mut counter), "req-2");
    assert_eq!(next_request_id(&mut counter), "req-3");
    assert_eq!(counter, 3);
}

#[test]
fn many_ids_are_distinct() {
    let mut counter: u64 = 0;
    let mut seen: Vec<String> = Vec::new();
    for _ in 0..100 {
        let id = next_request_id(&mut counter);
        assert!(!seen.contains(&id));
        seen.push(id);
    }
}

#[test]
fn begin_request_registers_the_new_id() {
    let mut mux = MuxState::new();
    let id = mux.begin_request();
    assert_eq!(id, "req-1");
    assert!(mux.is_pending(&id));
    let id2 = mux.begin_request();
    assert_eq!(id2, "req-2");
    assert!(mux.is_pending(&id));
    assert!(mux.is_pending(&id2));
}

#[test]
fn a_response_claims_its_waiter_exactly_once() {
    let mut mux = MuxState::new();
    let id = mux.begin_request();
    assert!(mux.remove_waiter(&id), "the registered waiter is notified");
    assert!(
        !mux.remove_waiter(&id),
        "a second response with the same id finds no waiter"
    );
    assert!(!mux.is_pending(&id));
}

#[test]
fn an_unknown_id_is_dropped_silently() {
    let mut mux = MuxState::new();
    let _ = mux.begin_request();
    let stranger = "req-999".to_string();
    assert!(!mux.remove_waiter(&stranger));
    assert!(mux.is_pending(&"req-1".to_string()), "other waiters are untouched");
}

#[test]
fn a_timed_out_request_removes_its_entry() {
    let mut mux = MuxState::new();
    let id = mux.begin_request();
    let id2 = mux.begin_request();
    assert!(mux.remove_waiter(&id), "timeout cleanup removes the entry");
    assert!(!mux.is_pending(&id));
    assert!(mux.is_pending(&id2));
}

#[test]
fn lookalike_ids_do_not_match() {
    let mut mux = MuxState::new();
    let id = mux.begin_request();
    assert_eq!(id, "req-1");
    assert!(!mux.remove_waiter(&"req-01".to_string()));
    assert!(!mux.remove_waiter(&"req-10".to_string()));
    assert!(mux.is_pending(&id));
}
