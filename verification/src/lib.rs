//! An embeddable authentication and session engine: user registration,
//! credential verification, password and email changes, invite-based
//! onboarding and administrative user management, over an in-memory
//! relational store whose operations are verified.  The host supplies
//! transport, persistence of its own data, email delivery and the
//! extension hooks; the dispatchers in `endpoints` map every inbound
//! request to a response value and the store change it implies.

pub mod crypto;
pub mod data;
pub mod dbfun;
pub mod endpoints;
pub mod error;
pub mod laws;
pub mod store;
pub mod util;
