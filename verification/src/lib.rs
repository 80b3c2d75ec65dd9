//! Dynamic DNS service core: account management with password and
//! signature based authentication, zone resolution by longest suffix,
//! and idempotent A-record upsert planning.

pub mod account;
pub mod client_response;
pub mod crypto;
pub mod ip;
pub mod route53;
pub mod routes;
pub mod signature;
pub mod text;
pub mod utils;
pub mod zone;
