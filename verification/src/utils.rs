//! Helpers around the library's core: composing the confirmation email.

pub mod emails;
