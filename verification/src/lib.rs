//! Verified core of an email-relay service: rate-limit parsing and
//! reservation decisions, the application-settings store, request
//! validation, message building and the SMTP proxy's dialogue.

use vstd::prelude::*;

pub mod text;
pub mod rate_limit;
pub mod encoding;
pub mod smtp;
pub mod assoc;
pub mod appdata;
pub mod access;
pub mod reply;
pub mod auth;
pub mod registry;
pub mod send;
pub mod mime;
pub mod sendgrid;
pub mod clock;

verus! {

} // verus!
