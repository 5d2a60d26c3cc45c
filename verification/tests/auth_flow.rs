use session_auth::auth::render_index;
use session_auth::auth::render_login_page;
use session_auth::auth::submit_login;
use session_auth::auth::LoginForm;
use session_auth::session::SessionStore;

fn form(username: &str, password: &str) -> LoginForm {
    LoginForm { username: String::from(username), password: String::from(password) }
}

#[test]
fn anonymous_until_login() {
    let mut s = SessionStore::new(Some(1800));
    // no session at all
    let page = render_index(&s, Some(7), 0);
    assert!(!page.is_login);
    assert_eq!(page.name, "");
    // no cookie at all
    let page = render_index(&s, None, 0);
    assert!(!page.is_login);
    assert_eq!(page.name, "");
    // a username write alone does not authenticate
    s.set_login_username(7, String::from("mallory"), 0);
    let page = render_index(&s, Some(7), 0);
    assert!(!page.is_login);
}

#[test]
fn login_then_index_regardless_of_password() {
    let mut s = SessionStore::new(Some(1800));
    let out = submit_login(&mut s, Some(7), 99, &form("alice", "anything"), 10);
    let page = render_index(&s, Some(out.token), 20);
    assert!(page.is_login);
    assert_eq!(page.name, "alice");

    let mut s2 = SessionStore::new(Some(1800));
    let out2 = submit_login(&mut s2, Some(7), 99, &form("alice", ""), 10);
    let page2 = render_index(&s2, Some(out2.token), 20);
    assert!(page2.is_login);
    assert_eq!(page2.name, "alice");
}

#[test]
fn login_without_cookie_issues_token_that_works() {
    let mut s = SessionStore::new(Some(1800));
    // first request carries no cookie; the outcome carries the new token
    let out = submit_login(&mut s, None, 424242, &form("alice", "pw"), 10);
    assert_eq!(out.redirect, "/");
    // a second request reusing that exact token sees the authenticated state
    let page = render_index(&s, Some(out.token), 11);
    assert!(page.is_login);
    assert_eq!(page.name, "alice");
}

#[test]
fn login_with_live_cookie_keeps_its_token() {
    let mut s = SessionStore::new(Some(1800));
    let out = submit_login(&mut s, None, 5, &form("alice", "pw"), 10);
    let again = submit_login(&mut s, Some(out.token), 6, &form("carol", "pw"), 20);
    assert_eq!(again.token, out.token);
    let page = render_index(&s, Some(out.token), 21);
    assert_eq!(page.name, "carol");
}

#[test]
fn login_with_expired_cookie_gets_fresh_token() {
    let mut s = SessionStore::new(Some(10));
    let out = submit_login(&mut s, None, 5, &form("alice", "pw"), 10);
    // the window elapses; the old cookie no longer names a live session
    let out2 = submit_login(&mut s, Some(out.token), 7777, &form("bob", "pw"), 100);
    assert_ne!(out2.token, out.token);
    let page = render_index(&s, Some(out2.token), 101);
    assert!(page.is_login);
    assert_eq!(page.name, "bob");
}

#[test]
fn expired_session_renders_anonymous() {
    let mut s = SessionStore::new(Some(10));
    let out = submit_login(&mut s, None, 5, &form("alice", "pw"), 100);
    let page = render_index(&s, Some(out.token), 110);
    assert!(page.is_login);
    let page = render_index(&s, Some(out.token), 111);
    assert!(!page.is_login);
    assert_eq!(page.name, "");
}

#[test]
fn logins_under_different_tokens_are_isolated() {
    let mut s = SessionStore::new(Some(1800));
    let a = submit_login(&mut s, None, 1, &form("alice", "pw1"), 10);
    let b = submit_login(&mut s, None, 2, &form("bob", "pw2"), 11);
    assert_ne!(a.token, b.token);
    let pa = render_index(&s, Some(a.token), 12);
    let pb = render_index(&s, Some(b.token), 12);
    assert_eq!(pa.name, "alice");
    assert_eq!(pb.name, "bob");

    // the other order of the same two logins reads the same
    let mut s2 = SessionStore::new(Some(1800));
    let b2 = submit_login(&mut s2, Some(b.token), 2, &form("bob", "pw2"), 11);
    let a2 = submit_login(&mut s2, Some(a.token), 1, &form("alice", "pw1"), 10);
    assert_eq!(render_index(&s2, Some(a2.token), 12).name, "alice");
    assert_eq!(render_index(&s2, Some(b2.token), 12).name, "bob");
}

#[test]
fn login_page_is_stateless() {
    let page = render_login_page();
    assert_eq!(page.title, "用户登录");
}
