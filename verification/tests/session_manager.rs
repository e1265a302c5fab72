use capture_session::{CaptureSource, Session, SessionManager};

#[test]
fn new_manager_has_created_nothing() {
    assert_eq!(SessionManager::new().created(), 0);
    assert_eq!(SessionManager::with_limit(3).created(), 0);
}

#[test]
fn manager_numbers_sessions_in_order() {
    let mut manager = SessionManager::new();
    let first = manager.create_session(CaptureSource::Toplevel(8), Some(2));
    let second = manager.create_session(CaptureSource::Workspace(1, 2), None);
    let third = manager.create_session(CaptureSource::Toplevel(8), Some(2));
    assert_eq!(
        first,
        Some(Session { id: 0, source: CaptureSource::Toplevel(8), owner: Some(2) })
    );
    assert_eq!(
        second,
        Some(Session { id: 1, source: CaptureSource::Workspace(1, 2), owner: None })
    );
    assert_eq!(
        third,
        Some(Session { id: 2, source: CaptureSource::Toplevel(8), owner: Some(2) })
    );
    assert_eq!(manager.created(), 3);
}

#[test]
fn sessions_on_one_target_for_one_owner_still_differ() {
    let mut manager = SessionManager::new();
    let first = manager.create_session(CaptureSource::Toplevel(8), Some(2)).unwrap();
    let second = manager.create_session(CaptureSource::Toplevel(8), Some(2)).unwrap();
    assert_ne!(first, second);
    assert_ne!(first.id, second.id);
}

#[test]
fn manager_refuses_at_its_limit() {
    let mut manager = SessionManager::with_limit(2);
    assert!(manager.create_session(CaptureSource::Toplevel(1), None).is_some());
    assert!(manager.create_session(CaptureSource::Toplevel(1), None).is_some());
    assert_eq!(manager.create_session(CaptureSource::Toplevel(1), None), None);
    assert_eq!(manager.create_session(CaptureSource::Toplevel(2), Some(0)), None);
    assert_eq!(manager.created(), 2);
}

#[test]
fn manager_with_limit_zero_never_creates() {
    let mut manager = SessionManager::with_limit(0);
    assert_eq!(manager.create_session(CaptureSource::Workspace(4, 5), Some(9)), None);
    assert_eq!(manager.created(), 0);
}

#[test]
fn session_handle_is_a_plain_copy() {
    let mut manager = SessionManager::new();
    let session = manager.create_session(CaptureSource::Toplevel(3), Some(1)).unwrap();
    let copy = session;
    assert_eq!(copy, session);
    assert_eq!(copy.id, 0);
    assert_eq!(copy.source, CaptureSource::Toplevel(3));
    assert_eq!(copy.owner, Some(1));
}
