use session_auth::session::SessionStore;

#[test]
fn new_store_reads_absent() {
    let s = SessionStore::new(Some(1800));
    assert_eq!(s.get_is_login(7, 0), None);
    assert!(s.get_login_username(7, 0).is_none());
    assert!(!s.contains_token(7));
    assert!(!s.is_live(7, 0));
}

#[test]
fn set_then_get_round_trip() {
    let mut s = SessionStore::new(Some(1800));
    s.set_is_login(9, true, 100);
    assert_eq!(s.get_is_login(9, 100), Some(true));
    assert!(s.get_login_username(9, 100).is_none());
    s.set_login_username(9, String::from("alice"), 100);
    assert_eq!(s.get_login_username(9, 100), Some(String::from("alice")));
    assert_eq!(s.get_is_login(9, 100), Some(true));
}

#[test]
fn set_overwrites() {
    let mut s = SessionStore::new(None);
    s.set_login_username(3, String::from("alice"), 10);
    s.set_login_username(3, String::from("bob"), 20);
    assert_eq!(s.get_login_username(3, 20), Some(String::from("bob")));
}

#[test]
fn expiry_window_elapses() {
    let mut s = SessionStore::new(Some(10));
    s.set_is_login(1, true, 100);
    s.set_login_username(1, String::from("alice"), 100);
    // within the window, boundary included
    assert_eq!(s.get_is_login(1, 110), Some(true));
    assert!(s.is_live(1, 110));
    // one past the window: the session reads as if it never existed
    assert_eq!(s.get_is_login(1, 111), None);
    assert_eq!(s.get_login_username(1, 111), None);
    assert!(!s.is_live(1, 111));
}

#[test]
fn touch_slides_the_window() {
    let mut s = SessionStore::new(Some(10));
    s.set_is_login(1, true, 100);
    s.touch(1, 105);
    // without the touch this read would be past the window
    assert_eq!(s.get_is_login(1, 112), Some(true));
    // the touch kept the stored values
    s.set_login_username(1, String::from("alice"), 100);
    s.touch(1, 105);
    assert_eq!(s.get_login_username(1, 112), Some(String::from("alice")));
}

#[test]
fn touch_of_expired_session_does_nothing() {
    let mut s = SessionStore::new(Some(10));
    s.set_is_login(1, true, 100);
    s.touch(1, 200);
    assert_eq!(s.get_is_login(1, 200), None);
}

#[test]
fn write_through_expired_token_starts_fresh() {
    let mut s = SessionStore::new(Some(10));
    s.set_is_login(1, true, 100);
    s.set_login_username(1, String::from("alice"), 100);
    // the session expires; a later flag write recreates it without the username
    s.set_is_login(1, true, 200);
    assert_eq!(s.get_is_login(1, 200), Some(true));
    assert_eq!(s.get_login_username(1, 200), None);
}

#[test]
fn expiry_disabled_keeps_sessions() {
    let mut s = SessionStore::new(None);
    s.set_is_login(1, true, 0);
    assert_eq!(s.get_is_login(1, u64::MAX), Some(true));
}

#[test]
fn fresh_token_prefers_entropy() {
    let s = SessionStore::new(Some(1800));
    assert_eq!(s.fresh_token(12345), 12345);
}

#[test]
fn fresh_token_avoids_collisions() {
    let mut s = SessionStore::new(Some(1800));
    s.set_is_login(12345, true, 0);
    let t = s.fresh_token(12345);
    assert_ne!(t, 12345);
    assert!(!s.contains_token(t));
}

#[test]
fn fresh_token_avoids_expired_tokens_too() {
    let mut s = SessionStore::new(Some(10));
    s.set_is_login(5, true, 0);
    // long expired, but still stored: a fresh token must avoid it
    assert!(!s.is_live(5, 1000));
    let t = s.fresh_token(5);
    assert_ne!(t, 5);
}
