//! Authentication and session core of a medication-schedule tracker:
//! password policy and hashing, session records, signed bearer tokens and
//! the per-request authentication step.

pub mod text;
pub mod utils;
pub mod credential;
pub mod session;
pub mod claims;
pub mod token_utils;
pub mod middleware;
pub mod user;
pub mod service;
