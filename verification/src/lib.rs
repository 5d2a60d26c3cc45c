//! A session-backed authentication library for a small web front end.
//!
//! The core is a session store: a process-lifetime mapping from an opaque
//! session token to per-visitor key/value state with inactivity-based
//! (sliding) expiry.  On top of it sit the handler decisions: rendering the
//! index view model from the session state, and recording a login
//! submission.  Static-asset lookup and listen-address configuration round
//! out the library.  All I/O, routing and template rendering live outside.

pub mod assets;
pub mod auth;
pub mod laws;
pub mod session;
pub mod settings;

use vstd::prelude::*;

verus! {

/// Number of seconds of inactivity after which a session expires by default.
pub const DEFAULT_INACTIVITY_SECONDS: u64 = 1800;

} // verus!
