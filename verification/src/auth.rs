//! Authentication building blocks: password hashing, the token codec, and
//! the confirmation-token manager.

pub mod codec;

pub mod hash;

pub mod tokens;
