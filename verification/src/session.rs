//! The session store: a process-lifetime mapping from an opaque session
//! token to per-visitor key/value state, with inactivity-based (sliding)
//! expiry.
//!
//! Each session holds two typed values — the `is_login` flag and the
//! `login_username` text — plus the time of its last touch.  A session whose
//! time since last touch exceeds the configured inactivity window behaves,
//! on every read, as if it never existed.  Writing through an absent or
//! expired token creates the session afresh.  Time enters every operation
//! as a plain `now` argument, so expiry is decided by the caller's clock and
//! never read from the machine here.

use vstd::prelude::*;

verus! {

/// The mathematical image of one session's stored state.
pub struct SessionView {
    pub is_login: Option<bool>,
    pub login_username: Option<Seq<char>>,
    pub last_access: u64,
}

/// One stored session: the typed key/value state and the inactivity clock.
struct SessionEntry {
    token: u64,
    is_login: Option<bool>,
    login_username: Option<String>,
    last_access: u64,
}

impl SessionEntry {
    spec fn view_of(self) -> SessionView {
        SessionView {
            is_login: self.is_login,
            login_username: match self.login_username {
                Some(u) => Some(u@),
                None => None,
            },
            last_access: self.last_access,
        }
    }
}

/// True when a session last touched at `last_access` is expired at `now`
/// under the inactivity window `window` (`None` disables expiry).
pub open spec fn expired_at(last_access: u64, now: u64, window: Option<u64>) -> bool {
    match window {
        Some(w) => now > last_access + w,
        None => false,
    }
}

spec fn no_dup_tokens(s: Seq<SessionEntry>) -> bool {
    forall|i: int, j: int|
        0 <= i < j < s.len() ==> (#[trigger] s[i].token) != (#[trigger] s[j].token)
}

spec fn map_of(s: Seq<SessionEntry>) -> Map<u64, SessionView>
    decreases s.len(),
{
    if s.len() == 0 {
        Map::empty()
    } else {
        map_of(s.drop_last()).insert(s.last().token, s.last().view_of())
    }
}

/// The session store: every visitor's state, keyed by token.
pub struct SessionStore {
    entries: Vec<SessionEntry>,
    window: Option<u64>,
}

impl SessionStore {
    /// What the store holds, as a map from token to session state.
    pub closed spec fn contents(self) -> Map<u64, SessionView> {
        map_of(self.entries@)
    }

    /// The configured inactivity window, in seconds (`None`: expiry disabled).
    pub closed spec fn window(self) -> Option<u64> {
        self.window
    }

    /// Internal invariant: one stored session per token.
    pub closed spec fn wf(self) -> bool {
        no_dup_tokens(self.entries@)
    }

    /// A token's session exists and is not expired at `now`.
    pub open spec fn live_at(self, token: u64, now: u64) -> bool {
        &&& self.contents().contains_key(token)
        &&& !expired_at(self.contents()[token].last_access, now, self.window())
    }

    /// The value a read of the `is_login` key yields at `now`.
    pub open spec fn spec_is_login(self, token: u64, now: u64) -> Option<bool> {
        if self.live_at(token, now) {
            self.contents()[token].is_login
        } else {
            None
        }
    }

    /// The value a read of the `login_username` key yields at `now`.
    pub open spec fn spec_login_username(self, token: u64, now: u64) -> Option<Seq<char>> {
        if self.live_at(token, now) {
            self.contents()[token].login_username
        } else {
            None
        }
    }

    /// An empty store with the given inactivity window.
    pub fn new(window: Option<u64>) -> (s: SessionStore)
        ensures
            s.wf(),
            s.contents() == Map::<u64, SessionView>::empty(),
            s.window() == window,
    {
        SessionStore { entries: Vec::new(), window }
    }

    fn find_entry(&self, token: u64) -> (r: Option<usize>)
        ensures
            match r {
                Some(i) => i < self.entries@.len() && self.entries@[i as int].token == token,
                None => forall|i: int|
                    0 <= i < self.entries@.len() ==> (#[trigger] self.entries@[i].token) != token,
            },
    {
        let n = self.entries.len();
        let mut i: usize = 0;
        while i < n
            invariant
                n == self.entries@.len(),
                i <= n,
                forall|j: int| 0 <= j < i ==> (#[trigger] self.entries@[j].token) != token,
            decreases n - i,
        {
            if self.entries[i].token == token {
                return Some(i);
            }
            i += 1;
        }
        None
    }

    /// Whether the store holds a session under this token, expired or not.
    pub fn contains_token(&self, token: u64) -> (r: bool)
        ensures
            r == self.contents().contains_key(token),
    {
        proof {
            lemma_map_of_keys(self.entries@);
        }
        match self.find_entry(token) {
            Some(_) => true,
            None => false,
        }
    }

    fn is_expired(&self, last_access: u64, now: u64) -> (r: bool)
        ensures
            r == expired_at(last_access, now, self.window()),
    {
        match self.window {
            Some(w) => now > last_access && now - last_access > w,
            None => false,
        }
    }

    /// Whether the token's session exists and is not expired at `now`.
    pub fn is_live(&self, token: u64, now: u64) -> (r: bool)
        requires
            self.wf(),
        ensures
            r == self.live_at(token, now),
    {
        proof {
            lemma_map_of_keys(self.entries@);
            lemma_map_of_index(self.entries@);
        }
        match self.find_entry(token) {
            None => false,
            Some(i) => {
                let last = self.entries[i].last_access;
                !self.is_expired(last, now)
            },
        }
    }

    /// Read the `is_login` key: its stored value if the session is live at
    /// `now`, absent otherwise.  Reads never mutate the store.
    pub fn get_is_login(&self, token: u64, now: u64) -> (r: Option<bool>)
        requires
            self.wf(),
        ensures
            r == self.spec_is_login(token, now),
    {
        proof {
            lemma_map_of_keys(self.entries@);
            lemma_map_of_index(self.entries@);
        }
        match self.find_entry(token) {
            None => None,
            Some(i) => {
                let last = self.entries[i].last_access;
                if self.is_expired(last, now) {
                    None
                } else {
                    self.entries[i].is_login
                }
            },
        }
    }

    /// Read the `login_username` key: its stored value if the session is
    /// live at `now`, absent otherwise.  Reads never mutate the store.
    pub fn get_login_username(&self, token: u64, now: u64) -> (r: Option<String>)
        requires
            self.wf(),
        ensures
            match r {
                Some(u) => self.spec_login_username(token, now) == Some(u@),
                None => self.spec_login_username(token, now) is None,
            },
    {
        proof {
            lemma_map_of_keys(self.entries@);
            lemma_map_of_index(self.entries@);
        }
        match self.find_entry(token) {
            None => None,
            Some(i) => {
                let last = self.entries[i].last_access;
                if self.is_expired(last, now) {
                    None
                } else {
                    match &self.entries[i].login_username {
                        Some(u) => Some(u.clone()),
                        None => None,
                    }
                }
            },
        }
    }
}

impl SessionStore {
    /// Store `value` under the `is_login` key.  An absent or expired token
    /// gets a fresh session (older state under that token is discarded); a
    /// live one keeps its stored username.  Either way the inactivity clock
    /// restarts at `now`.
    pub fn set_is_login(&mut self, token: u64, value: bool, now: u64)
        requires
            old(self).wf(),
        ensures
            final(self).wf(),
            final(self).window() == old(self).window(),
            final(self).contents() == old(self).contents().insert(
                token,
                (SessionView {
                    is_login: Some(value),
                    login_username: if old(self).live_at(token, now) {
                        old(self).contents()[token].login_username
                    } else {
                        None
                    },
                    last_access: now,
                }),
            ),
    {
        proof {
            lemma_map_of_keys(self.entries@);
            lemma_map_of_index(self.entries@);
        }
        match self.find_entry(token) {
            Some(i) => {
                let last = self.entries[i].last_access;
                let live = !self.is_expired(last, now);
                let kept: Option<String> = if live {
                    match &self.entries[i].login_username {
                        Some(u) => Some(u.clone()),
                        None => None,
                    }
                } else {
                    None
                };
                let e = SessionEntry { token, is_login: Some(value), login_username: kept, last_access: now };
                proof {
                    lemma_map_of_update(self.entries@, i as int, e);
                }
                self.entries[i] = e;
            },
            None => {
                let e = SessionEntry { token, is_login: Some(value), login_username: None, last_access: now };
                proof {
                    lemma_map_of_push(self.entries@, e);
                }
                self.entries.push(e);
            },
        }
    }

    /// Store `value` under the `login_username` key.  An absent or expired
    /// token gets a fresh session (older state under that token is
    /// discarded); a live one keeps its stored login flag.  Either way the
    /// inactivity clock restarts at `now`.
    pub fn set_login_username(&mut self, token: u64, value: String, now: u64)
        requires
            old(self).wf(),
        ensures
            final(self).wf(),
            final(self).window() == old(self).window(),
            final(self).contents() == old(self).contents().insert(
                token,
                (SessionView {
                    is_login: if old(self).live_at(token, now) {
                        old(self).contents()[token].is_login
                    } else {
                        None
                    },
                    login_username: Some(value@),
                    last_access: now,
                }),
            ),
    {
        proof {
            lemma_map_of_keys(self.entries@);
            lemma_map_of_index(self.entries@);
        }
        match self.find_entry(token) {
            Some(i) => {
                let last = self.entries[i].last_access;
                let live = !self.is_expired(last, now);
                let kept: Option<bool> = if live {
                    self.entries[i].is_login
                } else {
                    None
                };
                let e = SessionEntry { token, is_login: kept, login_username: Some(value), last_access: now };
                proof {
                    lemma_map_of_update(self.entries@, i as int, e);
                }
                self.entries[i] = e;
            },
            None => {
                let e = SessionEntry { token, is_login: None, login_username: Some(value), last_access: now };
                proof {
                    lemma_map_of_push(self.entries@, e);
                }
                self.entries.push(e);
            },
        }
    }

    /// Restart a live session's inactivity clock at `now` (the sliding
    /// expiry on each request).  An absent or expired token is left alone.
    pub fn touch(&mut self, token: u64, now: u64)
        requires
            old(self).wf(),
        ensures
            final(self).wf(),
            final(self).window() == old(self).window(),
            final(self).contents() == (if old(self).live_at(token, now) {
                old(self).contents().insert(
                    token,
                    (SessionView {
                        is_login: old(self).contents()[token].is_login,
                        login_username: old(self).contents()[token].login_username,
                        last_access: now,
                    }),
                )
            } else {
                old(self).contents()
            }),
    {
        proof {
            lemma_map_of_keys(self.entries@);
            lemma_map_of_index(self.entries@);
        }
        match self.find_entry(token) {
            Some(i) => {
                let last = self.entries[i].last_access;
                if !self.is_expired(last, now) {
                    let flag = self.entries[i].is_login;
                    let name: Option<String> = match &self.entries[i].login_username {
                        Some(u) => Some(u.clone()),
                        None => None,
                    };
                    let e = SessionEntry { token, is_login: flag, login_username: name, last_access: now };
                    proof {
                        lemma_map_of_update(self.entries@, i as int, e);
                    }
                    self.entries[i] = e;
                    proof {
                        assert(self.contents() =~= old(self).contents().insert(
                            token,
                            (SessionView {
                                is_login: old(self).contents()[token].is_login,
                                login_username: old(self).contents()[token].login_username,
                                last_access: now,
                            }),
                        ));
                    }
                }
            },
            None => {
            },
        }
    }

    /// A token under which the store holds nothing, expired or not.  The
    /// caller supplies entropy (an unguessable value drawn outside); it is
    /// used whenever it is free, so issued tokens are no easier to guess
    /// than the entropy itself.  On a collision the store falls back to the
    /// smallest unused token.
    pub fn fresh_token(&self, entropy: u64) -> (t: u64)
        requires
            self.wf(),
            self.contents().dom().len() < usize::MAX,
        ensures
            !self.contents().contains_key(t),
    {
        proof {
            lemma_map_of_keys(self.entries@);
            lemma_map_of_index(self.entries@);
        }
        if !self.contains_token(entropy) {
            return entropy;
        }
        let n = self.entries.len();
        let mut c: usize = 0;
        while c <= n
            invariant
                self.wf(),
                n == self.entries@.len(),
                n < usize::MAX,
                c <= n + 1,
                forall|j: int| 0 <= j < c ==> self.contents().contains_key(#[trigger] (j as u64)),
            decreases n + 1 - c,
        {
            if !self.contains_token(c as u64) {
                return c as u64;
            }
            c += 1;
        }
        proof {
            lemma_map_of_keys(self.entries@);
            lemma_map_of_index(self.entries@);
            let m = self.contents();
            let cands = Seq::new((n + 1) as nat, |j: int| j as u64);
            assert(cands.no_duplicates()) by {
                assert forall|i: int, j: int|
                    0 <= i < cands.len() && 0 <= j < cands.len() && i != j implies cands[i]
                    != cands[j] by {
                    assert(cands[i] == i as u64 && cands[j] == j as u64);
                }
            }
            cands.unique_seq_to_set();
            assert(cands.to_set().subset_of(m.dom())) by {
                assert forall|x: u64| cands.to_set().contains(x) implies m.dom().contains(x) by {
                    let j = choose|j: int| 0 <= j < cands.len() && cands[j] == x;
                    assert(m.contains_key(j as u64));
                }
            }
            vstd::set_lib::lemma_len_subset(cands.to_set(), m.dom());
            assert(false);
        }
        entropy
    }
}

proof fn lemma_map_of_update(s: Seq<SessionEntry>, i: int, e: SessionEntry)
    requires
        no_dup_tokens(s),
        0 <= i < s.len(),
        e.token == s[i].token,
    ensures
        no_dup_tokens(s.update(i, e)),
        map_of(s.update(i, e)) == map_of(s).insert(e.token, e.view_of()),
    decreases s.len(),
{
    let s2 = s.update(i, e);
    assert forall|a: int, b: int|
        0 <= a < b < s2.len() implies (#[trigger] s2[a].token) != (#[trigger] s2[b].token) by {
        assert(s2[a].token == s[a].token && s2[b].token == s[b].token);
    }
    if i == s.len() - 1 {
        assert(s2.drop_last() =~= s.drop_last());
        assert(s2.last() == e);
        assert(map_of(s2) =~= map_of(s).insert(e.token, e.view_of()));
    } else {
        assert(s2.drop_last() =~= s.drop_last().update(i, e));
        assert(s2.last() == s.last());
        assert(s.drop_last()[i] == s[i]);
        lemma_map_of_update(s.drop_last(), i, e);
        assert(s[i].token != s.last().token);
        assert(map_of(s2) =~= map_of(s).insert(e.token, e.view_of()));
    }
}

proof fn lemma_map_of_push(s: Seq<SessionEntry>, e: SessionEntry)
    requires
        no_dup_tokens(s),
        forall|i: int| 0 <= i < s.len() ==> (#[trigger] s[i].token) != e.token,
    ensures
        no_dup_tokens(s.push(e)),
        map_of(s.push(e)) == map_of(s).insert(e.token, e.view_of()),
{
    let s2 = s.push(e);
    assert forall|a: int, b: int|
        0 <= a < b < s2.len() implies (#[trigger] s2[a].token) != (#[trigger] s2[b].token) by {
        assert(s2[a] == s[a]);
        if b < s2.len() - 1 {
            assert(s2[b] == s[b]);
        } else {
            assert(s2[b] == e);
        }
    }
    assert(s2.drop_last() =~= s);
    assert(s2.last() == e);
}

proof fn lemma_map_of_keys(s: Seq<SessionEntry>)
    ensures
        map_of(s).dom().finite(),
        forall|t: u64|
            #[trigger] map_of(s).contains_key(t) <==> exists|i: int|
                0 <= i < s.len() && (#[trigger] s[i].token) == t,
    decreases s.len(),
{
    if s.len() > 0 {
        lemma_map_of_keys(s.drop_last());
        assert forall|t: u64| #[trigger] map_of(s).contains_key(t) implies exists|i: int|
            0 <= i < s.len() && (#[trigger] s[i].token) == t by {
            if t == s.last().token {
                assert(s[s.len() - 1].token == t);
            } else {
                let i = choose|i: int| 0 <= i < s.drop_last().len() && (#[trigger] s.drop_last()[i].token) == t;
                assert(s[i].token == t);
            }
        }
        assert forall|t: u64|
            (exists|i: int| 0 <= i < s.len() && (#[trigger] s[i].token) == t) implies #[trigger] map_of(
            s,
        ).contains_key(t) by {
            let i = choose|i: int| 0 <= i < s.len() && (#[trigger] s[i].token) == t;
            if i < s.len() - 1 {
                assert(s.drop_last()[i].token == t);
            }
        }
    }
}

proof fn lemma_map_of_index(s: Seq<SessionEntry>)
    requires
        no_dup_tokens(s),
    ensures
        forall|i: int|
            0 <= i < s.len() ==> map_of(s).contains_key(#[trigger] s[i].token) && map_of(s)[s[i].token]
                == s[i].view_of(),
        map_of(s).dom().len() == s.len(),
    decreases s.len(),
{
    lemma_map_of_keys(s);
    if s.len() > 0 {
        let rest = s.drop_last();
        lemma_map_of_index(rest);
        lemma_map_of_keys(rest);
        assert forall|i: int|
            0 <= i < s.len() implies map_of(s).contains_key(#[trigger] s[i].token) && map_of(s)[s[i].token]
            == s[i].view_of() by {
            if i < s.len() - 1 {
                assert(rest[i] == s[i]);
                assert(s[i].token != s.last().token);
            }
        }
        assert(!map_of(rest).contains_key(s.last().token));
        assert(map_of(s).dom() =~= map_of(rest).dom().insert(s.last().token));
    }
}

} // verus!
