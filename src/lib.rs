//! Validated text types: e-mail addresses, URLs with their protocol, passwords
//! of a declared strength, and bcrypt digests of passwords.
//!
//! Each type is built only through a fallible constructor that checks its
//! input, so a value of the type is always well formed.
use vstd::prelude::*;

pub mod email;
pub mod error;
pub mod password;
pub mod text;
pub mod url;

pub use email::Email;
pub use error::TypeMoreError;
pub use password::{
    Argon2, Bcrypt, HashAlgorithm, HashedPassword, PasswordStrength, RawPassword,
};
pub use url::{Proto, Url};

verus! {

} // verus!
