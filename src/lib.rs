//! Authentication backend: sign-up by pin-confirmed tokens, login, password
//! reset by one-time tokens, and the user, key-binding and post tables that
//! these act on.

mod clock;
pub mod error;
pub mod laws;
pub mod password;
pub mod post;
pub mod service;
pub mod text;
pub mod token;
pub mod user;
