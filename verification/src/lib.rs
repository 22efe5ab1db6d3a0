//! One-time authentication codes (HOTP and TOTP) from provisioning URLs.

pub mod error;
pub mod text;
pub mod base32;
pub mod credential;
pub mod engine;
pub mod url_parts;
pub mod parser;
pub mod batch;
