//! Passwords of a declared strength, and bcrypt digests of them.
use vstd::prelude::*;
use vstd::utf8::encode_utf8;

use core::marker::PhantomData;

use bcrypt::BcryptError;

use crate::error::{is_parse_error, TypeMoreError};
use crate::text::{chars_of, digit, is_digit};

verus! {

/// The strength tiers a password may be declared with, weakest first.
#[derive(Debug, Clone, Copy, PartialEq, Eq, Structural)]
pub enum PasswordStrength {
    Weak,
    Moderate,
    Strong,
    Extreme,
}

/// The lowercase label of a strength tier.
pub open spec fn strength_label(t: PasswordStrength) -> Seq<char> {
    match t {
        PasswordStrength::Weak => "weak"@,
        PasswordStrength::Moderate => "moderate"@,
        PasswordStrength::Strong => "strong"@,
        PasswordStrength::Extreme => "extreme"@,
    }
}

/// Whether `c` has the Unicode `Uppercase` property.
pub uninterp spec fn uppercase(c: char) -> bool;

/// Relies on `char::is_uppercase`: whether `c` has the Unicode `Uppercase`
/// property; ASCII capitals have it, ASCII small letters and digits do not.
#[verifier::external_body]
fn char_is_uppercase(c: char) -> (r: bool)
    ensures
        r == uppercase(c),
        'A' <= c <= 'Z' ==> r,
        ('a' <= c <= 'z') || is_digit(c) ==> !r,
{
    c.is_uppercase()
}

/// The number of bytes of the UTF-8 encoding of `s`.
pub open spec fn byte_len(s: Seq<char>) -> nat {
    encode_utf8(s).len()
}

/// One of the symbols `` ~`@#$%^&*()_+ ``.
pub open spec fn is_symbol(c: char) -> bool {
    c == '~' || c == '`' || c == '@' || c == '#' || c == '$' || c == '%' || c == '^' || c == '&'
        || c == '*' || c == '(' || c == ')' || c == '_' || c == '+'
}

/// `s` holds an ASCII digit.
pub open spec fn has_digit(s: Seq<char>) -> bool {
    exists|i: int| 0 <= i < s.len() && is_digit(#[trigger] s[i])
}

/// `s` holds an uppercase character.
pub open spec fn has_uppercase(s: Seq<char>) -> bool {
    exists|i: int| 0 <= i < s.len() && uppercase(#[trigger] s[i])
}

/// `s` holds one of the symbols.
pub open spec fn has_symbol(s: Seq<char>) -> bool {
    exists|i: int| 0 <= i < s.len() && is_symbol(#[trigger] s[i])
}

/// The weak tier refuses a password shorter than 8 bytes.
pub open spec fn weak_refuses(s: Seq<char>) -> bool {
    byte_len(s) < 8
}

/// The moderate tier refuses a password only when it is shorter than 8 bytes
/// and holds no digit.
pub open spec fn moderate_refuses(s: Seq<char>) -> bool {
    byte_len(s) < 8 && !has_digit(s)
}

/// The strong tier refuses a password only when it is shorter than 8 bytes,
/// holds no digit and holds no uppercase character.
pub open spec fn strong_refuses(s: Seq<char>) -> bool {
    byte_len(s) < 8 && !has_digit(s) && !has_uppercase(s)
}

/// The extreme tier refuses a password only when it is shorter than 10 bytes,
/// holds no digit, no uppercase character and no symbol.
pub open spec fn extreme_refuses(s: Seq<char>) -> bool {
    byte_len(s) < 10 && !has_digit(s) && !has_uppercase(s) && !has_symbol(s)
}

fn symbol(c: char) -> (r: bool)
    ensures
        r == is_symbol(c),
{
    c == '~' || c == '`' || c == '@' || c == '#' || c == '$' || c == '%' || c == '^' || c == '&'
        || c == '*' || c == '(' || c == ')' || c == '_' || c == '+'
}

fn contains_digit(v: &Vec<char>) -> (r: bool)
    ensures
        r == has_digit(v@),
{
    let mut i: usize = 0;
    while i < v.len()
        invariant
            i <= v.len(),
            forall|j: int| 0 <= j < i ==> !is_digit(#[trigger] v@[j]),
        decreases v.len() - i,
    {
        if digit(v[i]) {
            return true;
        }
        i = i + 1;
    }
    false
}

fn contains_uppercase(v: &Vec<char>) -> (r: bool)
    ensures
        r == has_uppercase(v@),
{
    let mut i: usize = 0;
    while i < v.len()
        invariant
            i <= v.len(),
            forall|j: int| 0 <= j < i ==> !uppercase(#[trigger] v@[j]),
        decreases v.len() - i,
    {
        if char_is_uppercase(v[i]) {
            return true;
        }
        i = i + 1;
    }
    false
}

fn contains_symbol(v: &Vec<char>) -> (r: bool)
    ensures
        r == has_symbol(v@),
{
    let mut i: usize = 0;
    while i < v.len()
        invariant
            i <= v.len(),
            forall|j: int| 0 <= j < i ==> !is_symbol(#[trigger] v@[j]),
        decreases v.len() - i,
    {
        if symbol(v[i]) {
            return true;
        }
        i = i + 1;
    }
    false
}

fn byte_count(s: &str) -> (r: usize)
    ensures
        r == byte_len(s@),
{
    s.as_bytes().len()
}

/// A plaintext password together with the strength tier it was accepted at.
///
/// Each tier's check refuses a password only when it fails every one of the
/// tier's requirements, and an accepted password is recorded as weak whatever
/// tier was asked for; callers that need stricter rules check for themselves.
pub struct RawPassword {
    strength: PasswordStrength,
    password: String,
}

impl View for RawPassword {
    type V = (PasswordStrength, Seq<char>);

    closed spec fn view(&self) -> (PasswordStrength, Seq<char>) {
        (self.strength, self.password@)
    }
}

impl RawPassword {
    /// A password of the weak tier: refused when shorter than 8 bytes.
    pub fn new_weak(password: &str) -> (r: Result<RawPassword, TypeMoreError>)
        ensures
            weak_refuses(password@) ==> r is Err && is_parse_error(
                r->Err_0,
                "invalid weak password"@,
            ),
            !weak_refuses(password@) ==> r is Ok && r->Ok_0@ == (
                PasswordStrength::Weak,
                password@,
            ),
    {
        if byte_count(password) < 8 {
            Err(TypeMoreError::parse_error("invalid weak password"))
        } else {
            Ok(RawPassword { password: password.to_owned(), strength: PasswordStrength::Weak })
        }
    }

    /// A password of the moderate tier: refused only when shorter than 8 bytes
    /// and without a digit.
    pub fn new_moderate(password: &str) -> (r: Result<RawPassword, TypeMoreError>)
        ensures
            moderate_refuses(password@) ==> r is Err && is_parse_error(
                r->Err_0,
                "invalid moderate password"@,
            ),
            !moderate_refuses(password@) ==> r is Ok && r->Ok_0@ == (
                PasswordStrength::Weak,
                password@,
            ),
    {
        let v = chars_of(password);
        if byte_count(password) < 8 && !contains_digit(&v) {
            Err(TypeMoreError::parse_error("invalid moderate password"))
        } else {
            Ok(RawPassword { password: password.to_owned(), strength: PasswordStrength::Weak })
        }
    }

    /// A password of the strong tier: refused only when shorter than 8 bytes,
    /// without a digit and without an uppercase character.
    pub fn new_strong(password: &str) -> (r: Result<RawPassword, TypeMoreError>)
        ensures
            strong_refuses(password@) ==> r is Err && is_parse_error(
                r->Err_0,
                "invalid strong password"@,
            ),
            !strong_refuses(password@) ==> r is Ok && r->Ok_0@ == (
                PasswordStrength::Weak,
                password@,
            ),
    {
        let v = chars_of(password);
        if byte_count(password) < 8 && !contains_digit(&v) && !contains_uppercase(&v) {
            Err(TypeMoreError::parse_error("invalid strong password"))
        } else {
            Ok(RawPassword { password: password.to_owned(), strength: PasswordStrength::Weak })
        }
    }

    /// A password of the extreme tier: refused only when shorter than 10
    /// bytes, without a digit, without an uppercase character and without a
    /// symbol.
    pub fn new_extreme(password: &str) -> (r: Result<RawPassword, TypeMoreError>)
        ensures
            extreme_refuses(password@) ==> r is Err && is_parse_error(
                r->Err_0,
                "invalid extreme password"@,
            ),
            !extreme_refuses(password@) ==> r is Ok && r->Ok_0@ == (
                PasswordStrength::Weak,
                password@,
            ),
    {
        let v = chars_of(password);
        if byte_count(password) < 10 && !contains_digit(&v) && !contains_uppercase(&v)
            && !contains_symbol(&v) {
            Err(TypeMoreError::parse_error("invalid extreme password"))
        } else {
            Ok(RawPassword { password: password.to_owned(), strength: PasswordStrength::Weak })
        }
    }

    /// The label of the recorded strength tier.
    pub fn get_strength(&self) -> (r: String)
        ensures
            r@ == strength_label(self@.0),
    {
        let label: &str = match self.strength {
            PasswordStrength::Weak => "weak",
            PasswordStrength::Moderate => "moderate",
            PasswordStrength::Strong => "strong",
            PasswordStrength::Extreme => "extreme",
        };
        label.to_owned()
    }
}

#[verifier::external_type_specification]
#[verifier::external_body]
pub struct ExBcryptError(BcryptError);

/// What bcrypt's verification of `password` against `digest` gives: whether
/// they match, or `None` where the digest is refused.
pub uninterp spec fn bcrypt_verify_of(password: Seq<char>, digest: Seq<char>) -> Option<bool>;

/// The decimal digit for `d`, from 0 to 9.
pub open spec fn digit_char(d: int) -> char {
    if d == 0 {
        '0'
    } else if d == 1 {
        '1'
    } else if d == 2 {
        '2'
    } else if d == 3 {
        '3'
    } else if d == 4 {
        '4'
    } else if d == 5 {
        '5'
    } else if d == 6 {
        '6'
    } else if d == 7 {
        '7'
    } else if d == 8 {
        '8'
    } else {
        '9'
    }
}

/// The start of a bcrypt digest made at `cost`: `$2b$`, the cost in two
/// decimal digits, and `$`.
pub open spec fn digest_prefix(cost: u32) -> Seq<char> {
    "$2b$"@ + seq![digit_char(cost as int / 10), digit_char(cost as int % 10)] + "$"@
}

/// Relies on `bcrypt::DEFAULT_COST`, the work factor used when none is given.
#[verifier::external_body]
fn bcrypt_default_cost() -> (r: u32)
    ensures
        r == 12,
{
    bcrypt::DEFAULT_COST
}

/// Relies on `bcrypt::hash`: a cost outside 4 to 31 is refused; otherwise a
/// random salt is drawn (which may fail) and the 60-character digest that
/// is returned starts with `$2b$`, the cost in two digits and `$`, and
/// verifies the password it was made from.
#[verifier::external_body]
fn bcrypt_hash(password: &str, cost: u32) -> (r: Result<String, BcryptError>)
    ensures
        !(4 <= cost <= 31) ==> r is Err,
        r is Ok ==> r->Ok_0@.len() == 60,
        r is Ok ==> r->Ok_0@.subrange(0, 7) == digest_prefix(cost),
        r is Ok ==> bcrypt_verify_of(password@, r->Ok_0@) == Some(true),
{
    bcrypt::hash(password, cost)
}

/// Relies on `bcrypt::verify`: the outcome depends on the password and the
/// digest alone, and a digest that is not 60 characters long is refused.
#[verifier::external_body]
fn bcrypt_verify(password: &str, digest: &str) -> (r: Result<bool, BcryptError>)
    ensures
        match bcrypt_verify_of(password@, digest@) {
            Some(b) => r is Ok && r->Ok_0 == b,
            None => r is Err,
        },
        digest@.len() != 60 ==> r is Err,
{
    bcrypt::verify(password, digest)
}

/// A password hashing algorithm; it names the kind of a digest.
pub trait HashAlgorithm {}

/// The bcrypt algorithm.
pub struct Bcrypt;

/// The Argon2 algorithm.
pub struct Argon2;

impl HashAlgorithm for Bcrypt {}

impl HashAlgorithm for Argon2 {}

/// A digest of a password, made by the algorithm `T`.
pub struct HashedPassword<T: HashAlgorithm> {
    algorithm: PhantomData<T>,
    password: String,
}

impl<T: HashAlgorithm> View for HashedPassword<T> {
    type V = Seq<char>;

    closed spec fn view(&self) -> Seq<char> {
        self.password@
    }
}

/// The work factor used: the one given, or bcrypt's default.
pub open spec fn cost_or_default(cost: Option<u32>) -> u32 {
    match cost {
        Some(c) => c,
        None => 12,
    }
}

impl HashedPassword<Bcrypt> {
    /// The bcrypt digest of `password` at the given cost, or at the default
    /// cost of 12. A cost outside 4 to 31 is refused; a digest that is made
    /// records the cost used and verifies `password`.
    pub fn new(password: &str, cost: Option<u32>) -> (r: Result<HashedPassword<Bcrypt>, BcryptError>)
        ensures
            !(4 <= cost_or_default(cost) <= 31) ==> r is Err,
            r is Ok ==> r->Ok_0@.len() == 60,
            r is Ok ==> r->Ok_0@.subrange(0, 7) == digest_prefix(cost_or_default(cost)),
            r is Ok ==> bcrypt_verify_of(password@, r->Ok_0@) == Some(true),
    {
        let cost = match cost {
            Some(c) => c,
            None => bcrypt_default_cost(),
        };
        match bcrypt_hash(password, cost) {
            Ok(digest) => Ok(HashedPassword { algorithm: PhantomData, password: digest }),
            Err(e) => Err(e),
        }
    }

    /// Whether `password` matches this digest.
    pub fn verify(&self, password: &str) -> (r: Result<bool, BcryptError>)
        ensures
            match bcrypt_verify_of(password@, self@) {
                Some(b) => r is Ok && r->Ok_0 == b,
                None => r is Err,
            },
    {
        bcrypt_verify(password, self.password.as_str())
    }

    /// The digest as text.
    pub fn to_string(&self) -> (r: String)
        ensures
            r@ == self@,
    {
        self.password.clone()
    }
}

impl RawPassword {
    /// Consumes the password and gives its bcrypt digest at the default cost.
    pub fn hash_bcrypt(self) -> (r: Result<HashedPassword<Bcrypt>, BcryptError>)
        ensures
            r is Ok ==> r->Ok_0@.len() == 60,
            r is Ok ==> r->Ok_0@.subrange(0, 7) == digest_prefix(12),
            r is Ok ==> bcrypt_verify_of(self@.1, r->Ok_0@) == Some(true),
    {
        HashedPassword::new(self.password.as_str(), None)
    }
}

} // verus!
