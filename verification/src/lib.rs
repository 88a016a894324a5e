//! A session-authenticated task-list core.
//!
//! The crate binds opaque session tokens to authenticated identities and
//! authorizes every task mutation against the owning identity before the
//! stored task records are touched. Three components compose per request:
//! a session store ([`session::SessionStore`]), a task repository
//! ([`db::UserTasksDB`]), and the access-controlled service operations
//! ([`service`]) that turn a request plus an optional session token into a
//! response envelope holding the caller's full current state.

pub mod model;

pub mod db;

pub mod session;

pub mod service;

pub mod laws;
