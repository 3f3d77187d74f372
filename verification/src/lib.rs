//! Turns an address-change notification received over HTTP into the signed
//! zone-file mail that a DNS provider expects.

pub mod addr;
pub mod auth;
pub mod clock;
pub mod config;
pub mod dns;
pub mod envvars;
pub mod openpgp;
pub mod preservation;
pub mod request;
pub mod resolve;
pub mod server;
pub mod template;
pub mod text;
