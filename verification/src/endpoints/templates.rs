//! The values each page template is rendered from. Rendering itself is
//! the web layer's business; these are plain data.

use vstd::prelude::*;

use crate::endpoints::school::Grade;

verus! {

/// The landing page.
pub struct Index<'a> {
    pub title: &'a str,
}

/// The login page.
pub struct LoginPage<'a> {
    pub title: &'a str,
}

/// The registration page.
pub struct RegisterPage<'a> {
    pub title: &'a str,
}

/// An error page.
pub struct ErrorPage<'a> {
    pub title: &'a str,
    pub code: u16,
    pub error: &'a str,
    pub message: &'a str,
}

/// The account-confirmation email.
pub struct EmailPage {
    pub title: String,
    pub confirmation_link: String,
    pub domain: String,
    pub expiration_time: String,
    pub exact_time: String,
}

/// One child's landing page.
pub struct AdrianLanding {
    pub title: String,
    pub name: String,
    pub age: u8,
    pub grade: Grade,
}

/// The other child's landing page.
pub struct CorbinLanding {
    pub title: String,
    pub name: String,
    pub age: u8,
    pub grade: Grade,
}

} // verus!
