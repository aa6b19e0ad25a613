//! E-mail addresses of the form `local@domain.tld`.
use vstd::prelude::*;

use crate::error::{is_parse_error, TypeMoreError};
use crate::text::{alnum, chars_of, is_alnum, is_letter, letter};

verus! {

/// A character allowed before the `@`.
pub open spec fn is_local_char(c: char) -> bool {
    is_alnum(c) || c == '.' || c == '_' || c == '%' || c == '+' || c == '-'
}

/// A character allowed between the `@` and the last dot.
pub open spec fn is_host_char(c: char) -> bool {
    is_alnum(c) || c == '.' || c == '-'
}

/// `s` is `local@domain.tld` with the `@` at `a` and the dot before the
/// top-level part at `d`.
pub open spec fn email_split(s: Seq<char>, a: int, d: int) -> bool {
    &&& 0 < a && a + 1 < d && d + 3 <= s.len()
    &&& s[a] == '@' && s[d] == '.'
    &&& forall|i: int| 0 <= i < a ==> is_local_char(#[trigger] s[i])
    &&& forall|i: int| a < i < d ==> is_host_char(#[trigger] s[i])
    &&& forall|i: int| d < i < s.len() ==> is_letter(#[trigger] s[i])
}

/// `s` is an e-mail address: one or more local characters, an `@`, one or
/// more host characters, a dot, and two or more ASCII letters, with nothing
/// before or after.
pub open spec fn is_email(s: Seq<char>) -> bool {
    exists|a: int, d: int| email_split(s, a, d)
}

fn local_char(c: char) -> (r: bool)
    ensures
        r == is_local_char(c),
{
    alnum(c) || c == '.' || c == '_' || c == '%' || c == '+' || c == '-'
}

fn host_char(c: char) -> (r: bool)
    ensures
        r == is_host_char(c),
{
    alnum(c) || c == '.' || c == '-'
}

/// Whether the characters `v` form an e-mail address.
pub fn email_chars(v: &Vec<char>) -> (r: bool)
    ensures
        r == is_email(v@),
{
    let n = v.len();
    let ghost s = v@;
    // the longest run of local characters at the start
    let mut a: usize = 0;
    while a < n && local_char(v[a])
        invariant
            a <= n == s.len(),
            s == v@,
            forall|i: int| 0 <= i < a ==> is_local_char(#[trigger] s[i]),
        decreases n - a,
    {
        a = a + 1;
    }
    if a == 0 || a == n || v[a] != '@' {
        proof {
            if is_email(s) {
                let (a2, d2) = choose|a2: int, d2: int| email_split(s, a2, d2);
                if (a as int) < a2 {
                    assert(is_local_char(s[a as int]));
                } else if a2 < a {
                    assert(is_local_char(s[a2]));
                }
            }
        }
        return false;
    }
    // everything after the `@` must be host characters
    let mut b: usize = a + 1;
    while b < n && host_char(v[b])
        invariant
            a < b <= n == s.len(),
            s == v@,
            forall|i: int| a < i < b ==> is_host_char(#[trigger] s[i]),
        decreases n - b,
    {
        b = b + 1;
    }
    // the longest run of letters at the end
    let mut k: usize = n;
    while k > a + 1 && letter(v[k - 1])
        invariant
            a < k <= n == s.len(),
            s == v@,
            forall|i: int| k <= i < n ==> is_letter(#[trigger] s[i]),
        decreases k,
    {
        k = k - 1;
    }
    let ok = b == n && k - a >= 3 && v[k - 1] == '.' && n - k >= 2;
    proof {
        if ok {
            assert(email_split(s, a as int, k - 1));
        }
        if is_email(s) {
            let (a2, d2) = choose|a2: int, d2: int| email_split(s, a2, d2);
            if (a as int) < a2 {
                assert(is_local_char(s[a as int]));
            } else if a2 < a {
                assert(is_local_char(s[a2]));
            }
            assert(a2 == a);
            if b < n {
                assert(is_host_char(s[b as int]));
            }
            if (k as int) - 1 < d2 {
                assert(is_letter(s[k - 1]));
            } else if (k as int) - 1 > d2 {
                assert(is_letter(s[d2]));
            }
        }
    }
    ok
}

/// An e-mail address, kept exactly as it was given.
#[derive(Debug)]
pub struct Email(String);

impl Clone for Email {
    fn clone(&self) -> (r: Email)
        ensures
            r@ == self@,
    {
        proof {
            use_type_invariant(self);
        }
        Email(self.0.clone())
    }
}

impl View for Email {
    type V = Seq<char>;

    closed spec fn view(&self) -> Seq<char> {
        self.0@
    }
}

impl PartialEq for Email {
    fn eq(&self, other: &Email) -> (r: bool) {
        self.0 == other.0
    }
}

impl vstd::std_specs::cmp::PartialEqSpecImpl for Email {
    open spec fn obeys_eq_spec() -> bool {
        true
    }

    open spec fn eq_spec(&self, other: &Email) -> bool {
        self@ == other@
    }
}

impl Email {
    #[verifier::type_invariant]
    spec fn well_formed(&self) -> bool {
        is_email(self.0@)
    }

    /// The address `email`, if it has the form `local@domain.tld`.
    pub fn new(email: String) -> (r: Result<Email, TypeMoreError>)
        ensures
            is_email(email@) ==> r is Ok && r->Ok_0@ == email@,
            !is_email(email@) ==> r is Err && is_parse_error(r->Err_0, "invalid email"@),
    {
        let v = chars_of(email.as_str());
        if email_chars(&v) {
            Ok(Email(email))
        } else {
            Err(TypeMoreError::parse_error("invalid email"))
        }
    }

    /// The address `s`, if it has the form `local@domain.tld`.
    pub fn from_str(s: &str) -> (r: Result<Email, TypeMoreError>)
        ensures
            is_email(s@) ==> r is Ok && r->Ok_0@ == s@,
            !is_email(s@) ==> r is Err && is_parse_error(r->Err_0, "invalid email"@),
    {
        Email::new(s.to_owned())
    }

    /// The address as text, exactly as it was given.
    pub fn to_string(&self) -> (r: String)
        ensures
            r@ == self@,
            is_email(r@),
    {
        proof {
            use_type_invariant(self);
        }
        self.0.clone()
    }

    /// The address as text, exactly as it was given.
    pub fn as_str(&self) -> (r: &str)
        ensures
            r@ == self@,
            is_email(r@),
    {
        proof {
            use_type_invariant(self);
        }
        self.0.as_str()
    }
}

} // verus!
