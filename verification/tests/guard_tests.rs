use jwxt_client::guard::{GuardError, SessionSlot};

#[test]
fn fresh_slot_is_empty() {
    let slot: SessionSlot<u32> = SessionSlot::new();
    assert!(!slot.is_logged_in());
    assert_eq!(slot.get().unwrap_err(), GuardError::NotLoggedIn);
}

#[test]
fn successful_login_installs_the_session() {
    let mut slot: SessionSlot<u32> = SessionSlot::new();
    assert!(slot.commit_login(Ok(7)).is_ok());
    assert!(slot.is_logged_in());
    assert_eq!(*slot.get().unwrap(), 7);
}

#[test]
fn failed_login_leaves_the_slot_untouched() {
    let mut slot: SessionSlot<u32> = SessionSlot::new();
    let err = slot.commit_login(Err("rejected".to_string())).unwrap_err();
    assert_eq!(err, "rejected");
    assert!(!slot.is_logged_in());

    slot.install(3);
    let err = slot.commit_login(Err("rejected again".to_string())).unwrap_err();
    assert_eq!(err, "rejected again");
    assert_eq!(*slot.get().unwrap(), 3);
}

#[test]
fn serialized_valid_and_invalid_logins() {
    // Two attempts run one after the other under the lock: the slot ends
    // with the session of whichever succeeded, in either order.
    let mut slot: SessionSlot<u32> = SessionSlot::new();
    let _ = slot.commit_login(Ok(1));
    let _ = slot.commit_login(Err("bad credentials".to_string()));
    assert_eq!(*slot.get().unwrap(), 1);

    let mut slot: SessionSlot<u32> = SessionSlot::new();
    let _ = slot.commit_login(Err("bad credentials".to_string()));
    let _ = slot.commit_login(Ok(2));
    assert_eq!(*slot.get().unwrap(), 2);

    // Both failing leaves the slot empty.
    let mut slot: SessionSlot<u32> = SessionSlot::new();
    let _ = slot.commit_login(Err("first".to_string()));
    let _ = slot.commit_login(Err("second".to_string()));
    assert!(!slot.is_logged_in());
}

#[test]
fn a_later_success_replaces_the_session() {
    let mut slot: SessionSlot<u32> = SessionSlot::new();
    let _ = slot.commit_login(Ok(1));
    let _ = slot.commit_login(Ok(2));
    assert_eq!(*slot.get().unwrap(), 2);
}
