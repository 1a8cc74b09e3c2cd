//! A minimal user-account service: a user table with create / find /
//! update / delete, input validation, and email/password sign-in that
//! issues a time-bounded claim.

pub mod auth;
pub mod handlers;
pub mod laws;
pub mod models;
pub mod repo;
pub mod validate;
