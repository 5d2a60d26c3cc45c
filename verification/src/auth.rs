//! The auth flow: the handler decisions behind the three pages.
//!
//! `render_index` reads the session to build the index view model,
//! `render_login_page` is stateless, and `submit_login` records a login on
//! the caller's session — creating one under a fresh token when the request
//! carried no usable cookie — and redirects to the index path.
//!
//! No credential verification is performed anywhere: the submitted password
//! is carried in the form and deliberately never checked or stored.  This is
//! a documented policy point of the design, not an accident; a real check
//! would slot in front of `submit_login` without changing the state machine.

use vstd::prelude::*;

use crate::session::SessionStore;
use crate::session::SessionView;

verus! {

/// The login form as submitted: transient request data, never persisted.
pub struct LoginForm {
    pub username: String,
    pub password: String,
}

/// View model of the index page.
pub struct IndexTemplate {
    pub is_login: bool,
    pub name: String,
}

/// View model of the login page.
pub struct LoginTemplate {
    pub title: String,
}

/// What `submit_login` leaves under the chosen token: logged in, with the
/// submitted username, and the inactivity clock restarted at `now`.
pub open spec fn login_post(
    m: Map<u64, SessionView>,
    token: u64,
    username: Seq<char>,
    now: u64,
) -> Map<u64, SessionView> {
    m.insert(
        token,
        (SessionView { is_login: Some(true), login_username: Some(username), last_access: now }),
    )
}

/// The outcome of a login submission: the token the response cookie must
/// carry, and the path the client is redirected to.
pub struct LoginOutcome {
    pub token: u64,
    pub redirect: String,
}

/// Build the index view model from the visitor's session: logged in exactly
/// when the session is live and stores `is_login = true`, and showing the
/// stored username (empty when absent).  Never mutates the store.
pub fn render_index(store: &SessionStore, token: Option<u64>, now: u64) -> (t: IndexTemplate)
    requires
        store.wf(),
    ensures
        t.is_login == (token matches Some(tk) && store.spec_is_login(tk, now) == Some(true)),
        t.name@ == (match token {
            Some(tk) => match store.spec_login_username(tk, now) {
                Some(u) => u,
                None => Seq::<char>::empty(),
            },
            None => Seq::<char>::empty(),
        }),
{
    match token {
        None => IndexTemplate { is_login: false, name: String::new() },
        Some(tk) => {
            let is_login = match store.get_is_login(tk, now) {
                Some(b) => b,
                None => false,
            };
            let name = match store.get_login_username(tk, now) {
                Some(u) => u,
                None => String::new(),
            };
            IndexTemplate { is_login, name }
        },
    }
}

/// Build the login page view model: a fixed title, no session interaction.
pub fn render_login_page() -> (t: LoginTemplate)
    ensures
        t.title@ == "用户登录"@,
{
    LoginTemplate { title: "用户登录".to_owned() }
}

/// Record a login on the visitor's session and redirect to the index path.
///
/// The session lives under the request's token when that token is live;
/// otherwise under a token the store has nothing stored for, built from
/// caller-supplied entropy.  The form's username is stored and the login
/// flag set, unconditionally: the password plays no part in the result.
pub fn submit_login(
    store: &mut SessionStore,
    token: Option<u64>,
    entropy: u64,
    form: &LoginForm,
    now: u64,
) -> (r: LoginOutcome)
    requires
        old(store).wf(),
        old(store).contents().dom().len() < usize::MAX,
    ensures
        final(store).wf(),
        final(store).window() == old(store).window(),
        r.redirect@ == "/"@,
        final(store).contents() == login_post(old(store).contents(), r.token, form.username@, now),
        final(store).spec_is_login(r.token, now) == Some(true),
        final(store).spec_login_username(r.token, now) == Some(form.username@),
        match token {
            Some(tk) => old(store).live_at(tk, now) ==> r.token == tk,
            None => true,
        },
        (match token {
            Some(tk) => old(store).live_at(tk, now),
            None => false,
        }) || !old(store).contents().contains_key(r.token),
{
    let tk: u64 = match token {
        Some(t) => {
            if store.is_live(t, now) {
                t
            } else {
                store.fresh_token(entropy)
            }
        },
        None => store.fresh_token(entropy),
    };
    store.set_is_login(tk, true, now);
    store.set_login_username(tk, form.username.clone(), now);
    proof {
        assert(store.contents() =~= login_post(old(store).contents(), tk, form.username@, now));
    }
    LoginOutcome { token: tk, redirect: "/".to_owned() }
}

} // verus!
