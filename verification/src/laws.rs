//! Laws of the session-backed authentication state machine, stated over the
//! store's mathematical contents and proved once and for all.
//!
//! Per session the states are Anonymous (no `is_login` value, or `false`)
//! and Authenticated (`is_login = true` with a stored username).  The only
//! transition into Authenticated is a login submission for that session's
//! own token; expiry is the only way back, and it drops the whole session.

use vstd::prelude::*;

use crate::auth::login_post;
use crate::session::expired_at;
use crate::session::SessionStore;
use crate::session::SessionView;

verus! {

/// Expiry is monotone: a session expired at some time is still expired at
/// every later time, as long as it is not touched in between.
pub proof fn lemma_expired_monotone(last_access: u64, now: u64, later: u64, window: Option<u64>)
    requires
        now <= later,
        expired_at(last_access, now, window),
    ensures
        expired_at(last_access, later, window),
{
}

/// Law: a store that holds no sessions reads every token as anonymous — no
/// login flag and no username, at any time.
pub proof fn lemma_new_store_anonymous(s: SessionStore, token: u64, now: u64)
    requires
        s.contents() == Map::<u64, SessionView>::empty(),
    ensures
        s.spec_is_login(token, now) is None,
        s.spec_login_username(token, now) is None,
{
}

/// Law: touching a session (the sliding-expiry refresh) never authenticates
/// it.  If a token did not read as logged in at `now`, then after a touch of
/// any token `t2` at `tnow` it still does not read as logged in at `later`.
/// Time moves forward: `now <= tnow <= later`.
pub proof fn lemma_touch_keeps_anonymous(
    pre: SessionStore,
    post: SessionStore,
    t2: u64,
    tnow: u64,
    token: u64,
    now: u64,
    later: u64,
)
    requires
        pre.spec_is_login(token, now) != Some(true),
        now <= tnow <= later,
        post.window() == pre.window(),
        post.contents() == (if pre.live_at(t2, tnow) {
            pre.contents().insert(
                t2,
                (SessionView {
                    is_login: pre.contents()[t2].is_login,
                    login_username: pre.contents()[t2].login_username,
                    last_access: tnow,
                }),
            )
        } else {
            pre.contents()
        }),
    ensures
        post.spec_is_login(token, later) != Some(true),
{
    if post.spec_is_login(token, later) == Some(true) {
        assert(post.live_at(token, later));
        if t2 == token && pre.live_at(t2, tnow) {
            assert(pre.contents()[token].is_login == Some(true));
            assert(!expired_at(pre.contents()[token].last_access, tnow, pre.window()));
            assert(!expired_at(pre.contents()[token].last_access, now, pre.window()));
            assert(pre.spec_is_login(token, now) == Some(true));
        } else {
            assert(post.contents()[token] == pre.contents()[token]);
            if expired_at(pre.contents()[token].last_access, now, pre.window()) {
                lemma_expired_monotone(pre.contents()[token].last_access, now, later, pre.window());
            } else {
                assert(pre.spec_is_login(token, now) == Some(true));
            }
        }
    }
}

/// Law: storing a username never authenticates a session.  If a token did
/// not read as logged in at `now`, then after a username write under any
/// token `t2` at `tnow` it still does not read as logged in at `later`.
/// Time moves forward: `now <= tnow <= later`.
pub proof fn lemma_username_write_keeps_anonymous(
    pre: SessionStore,
    post: SessionStore,
    t2: u64,
    username: Seq<char>,
    tnow: u64,
    token: u64,
    now: u64,
    later: u64,
)
    requires
        pre.spec_is_login(token, now) != Some(true),
        now <= tnow <= later,
        post.window() == pre.window(),
        post.contents() == pre.contents().insert(
            t2,
            (SessionView {
                is_login: if pre.live_at(t2, tnow) {
                    pre.contents()[t2].is_login
                } else {
                    None
                },
                login_username: Some(username),
                last_access: tnow,
            }),
        ),
    ensures
        post.spec_is_login(token, later) != Some(true),
{
    if post.spec_is_login(token, later) == Some(true) {
        if t2 == token {
            assert(pre.live_at(token, tnow));
            assert(!expired_at(pre.contents()[token].last_access, now, pre.window()));
            assert(pre.spec_is_login(token, now) == Some(true));
        } else {
            assert(post.contents()[token] == pre.contents()[token]);
            if expired_at(pre.contents()[token].last_access, now, pre.window()) {
                lemma_expired_monotone(pre.contents()[token].last_access, now, later, pre.window());
            } else {
                assert(pre.spec_is_login(token, now) == Some(true));
            }
        }
    }
}

/// Law: writing `false` to the login flag never authenticates a token.  If
/// a token did not read as logged in at `now`, then after such a write under
/// any token `t2` at `tnow` it still does not read as logged in at `later`.
/// Time moves forward: `now <= tnow <= later`.
pub proof fn lemma_flag_clear_keeps_anonymous(
    pre: SessionStore,
    post: SessionStore,
    t2: u64,
    tnow: u64,
    token: u64,
    now: u64,
    later: u64,
)
    requires
        pre.spec_is_login(token, now) != Some(true),
        now <= tnow <= later,
        post.window() == pre.window(),
        post.contents() == pre.contents().insert(
            t2,
            (SessionView {
                is_login: Some(false),
                login_username: if pre.live_at(t2, tnow) {
                    pre.contents()[t2].login_username
                } else {
                    None
                },
                last_access: tnow,
            }),
        ),
    ensures
        post.spec_is_login(token, later) != Some(true),
{
    if post.spec_is_login(token, later) == Some(true) {
        assert(t2 != token);
        assert(post.contents()[token] == pre.contents()[token]);
        if expired_at(pre.contents()[token].last_access, now, pre.window()) {
            lemma_expired_monotone(pre.contents()[token].last_access, now, later, pre.window());
        } else {
            assert(pre.spec_is_login(token, now) == Some(true));
        }
    }
}

/// Law: a login submission authenticates only its own token.  A different
/// token that did not read as logged in at `now` still does not read as
/// logged in at `later`, whatever username the submission stored.  Time
/// moves forward: `now <= tnow <= later`.
pub proof fn lemma_other_login_keeps_anonymous(
    pre: SessionStore,
    post: SessionStore,
    t2: u64,
    username: Seq<char>,
    tnow: u64,
    token: u64,
    now: u64,
    later: u64,
)
    requires
        pre.spec_is_login(token, now) != Some(true),
        now <= tnow <= later,
        t2 != token,
        post.window() == pre.window(),
        post.contents() == login_post(pre.contents(), t2, username, tnow),
    ensures
        post.spec_is_login(token, later) != Some(true),
{
    if post.spec_is_login(token, later) == Some(true) {
        assert(post.contents()[token] == pre.contents()[token]);
        if expired_at(pre.contents()[token].last_access, now, pre.window()) {
            lemma_expired_monotone(pre.contents()[token].last_access, now, later, pre.window());
        } else {
            assert(pre.spec_is_login(token, now) == Some(true));
        }
    }
}

/// Law: after a login submission stored its state at `now`, a request with
/// the same token at any `later` time within the inactivity window reads
/// the authenticated state with the submitted username — and nothing about
/// it depends on the submitted password, which never enters the stored
/// state at all.
pub proof fn lemma_login_then_index(
    s: SessionStore,
    m: Map<u64, SessionView>,
    token: u64,
    username: Seq<char>,
    now: u64,
    later: u64,
)
    requires
        s.contents() == login_post(m, token, username, now),
        now <= later,
        !expired_at(now, later, s.window()),
    ensures
        s.spec_is_login(token, later) == Some(true),
        s.spec_login_username(token, later) == Some(username),
{
}

/// Law: logins under two different tokens are independent.  After both, each
/// token holds its own username, and the result does not depend on the order
/// of the two submissions: neither can contaminate the other's session.
pub proof fn lemma_login_isolation(
    m: Map<u64, SessionView>,
    t1: u64,
    t2: u64,
    u1: Seq<char>,
    u2: Seq<char>,
    n1: u64,
    n2: u64,
)
    requires
        t1 != t2,
    ensures
        login_post(login_post(m, t1, u1, n1), t2, u2, n2)[t1] == (SessionView {
            is_login: Some(true),
            login_username: Some(u1),
            last_access: n1,
        }),
        login_post(login_post(m, t1, u1, n1), t2, u2, n2)[t2] == (SessionView {
            is_login: Some(true),
            login_username: Some(u2),
            last_access: n2,
        }),
        login_post(login_post(m, t1, u1, n1), t2, u2, n2) == login_post(
            login_post(m, t2, u2, n2),
            t1,
            u1,
            n1,
        ),
{
    assert(login_post(login_post(m, t1, u1, n1), t2, u2, n2) =~= login_post(
        login_post(m, t2, u2, n2),
        t1,
        u1,
        n1,
    ));
}

/// Law: expiry destroys the whole session, not just a flag.  Once the
/// inactivity window has elapsed since a session's last touch, a request
/// with its token reads no login flag and no username, so the index renders
/// the anonymous state.
pub proof fn lemma_expired_session_reads_absent(s: SessionStore, token: u64, now: u64)
    requires
        s.contents().contains_key(token) ==> expired_at(
            s.contents()[token].last_access,
            now,
            s.window(),
        ),
    ensures
        s.spec_is_login(token, now) is None,
        s.spec_login_username(token, now) is None,
{
}

} // verus!
