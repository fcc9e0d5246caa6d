//! Self-validating wrappers for business values: construction fails closed
//! on invalid input, so a held value is always one that passed its check.

use vstd::prelude::*;
use crate::error::SharedError;

verus! {

/// A validated wrapper around a raw value of type `T`.
pub trait ValueObject<T>: Sized {
    fn value(&self) -> &T;

    fn validate(&self) -> Result<(), String>;
}

/// A character is a decimal digit.
pub open spec fn digit_char(c: char) -> bool {
    48 <= c as u32 <= 57
}

/// An email address is accepted when it contains an `@`.
pub open spec fn email_valid(s: Seq<char>) -> bool {
    s.contains('@')
}

/// A phone number is accepted when it is exactly ten decimal digits.
pub open spec fn phone_valid(s: Seq<char>) -> bool {
    s.len() == 10 && (forall|i: int| 0 <= i < s.len() ==> digit_char(#[trigger] s[i]))
}

/// A tax identifier is accepted when it has at least five characters.
pub open spec fn cc_valid(s: Seq<char>) -> bool {
    s.len() >= 5
}

/// `p` is a prefix of `s`.
pub open spec fn seq_prefix(s: Seq<char>, p: Seq<char>) -> bool {
    p.len() <= s.len() && s.subrange(0, p.len() as int) == p
}

/// A URL is accepted when it starts with an HTTP scheme.
pub open spec fn url_valid(s: Seq<char>) -> bool {
    seq_prefix(s, "http://"@) || seq_prefix(s, "https://"@)
}

/// Scans for a character, the executable side of `Seq::contains`.
fn str_contains_char(s: &str, c: char) -> (r: bool)
    ensures
        r == s@.contains(c),
{
    let len = s.unicode_len();
    let mut i: usize = 0;
    while i < len
        invariant
            i <= len,
            len == s@.len(),
            forall|j: int| 0 <= j < i ==> s@[j] != c,
        decreases len - i,
    {
        if s.get_char(i) == c {
            return true;
        }
        i += 1;
    }
    false
}

/// Checks that `p` (ASCII) is a prefix of `s`, character by character.
fn str_has_prefix(s: &str, p: &str) -> (r: bool)
    ensures
        r == seq_prefix(s@, p@),
{
    let plen = p.unicode_len();
    let slen = s.unicode_len();
    if plen > slen {
        return false;
    }
    let mut i: usize = 0;
    while i < plen
        invariant
            i <= plen,
            plen == p@.len(),
            slen == s@.len(),
            plen <= slen,
            forall|j: int| 0 <= j < i ==> s@[j] == p@[j],
        decreases plen - i,
    {
        if s.get_char(i) != p.get_char(i) {
            assert(s@.subrange(0, plen as int)[i as int] != p@[i as int]);
            return false;
        }
        i += 1;
    }
    assert(s@.subrange(0, plen as int) =~= p@);
    true
}

#[derive(Debug)]
pub struct Email {
    value: String,
}

impl Email {
    pub closed spec fn view(&self) -> Seq<char> {
        self.value@
    }

    pub fn new(value: String) -> (r: Result<Self, SharedError>)
        ensures
            r is Ok <==> email_valid(value@),
            r is Ok ==> r->Ok_0@ == value@,
            r is Err ==> r->Err_0.code == 400 && r->Err_0.message@ == "Invalid email format"@,
    {
        let email = Email { value };
        match email.validate() {
            Ok(_) => Ok(email),
            Err(err) => Err(SharedError::new(err.as_str(), 400)),
        }
    }
}

impl Clone for Email {
    fn clone(&self) -> (r: Self)
        ensures
            r@ == self@,
    {
        Email { value: self.value.clone() }
    }
}

impl ValueObject<String> for Email {
    fn value(&self) -> (r: &String)
        ensures
            r@ == self@,
    {
        &self.value
    }

    fn validate(&self) -> (r: Result<(), String>)
        ensures
            r is Ok <==> email_valid(self@),
            r is Err ==> r->Err_0@ == "Invalid email format"@,
    {
        if str_contains_char(self.value.as_str(), '@') {
            Ok(())
        } else {
            Err("Invalid email format".to_owned())
        }
    }
}

#[derive(Debug)]
pub struct Phone {
    value: String,
}

impl Phone {
    pub closed spec fn view(&self) -> Seq<char> {
        self.value@
    }

    pub fn new(value: String) -> (r: Result<Self, SharedError>)
        ensures
            r is Ok <==> phone_valid(value@),
            r is Ok ==> r->Ok_0@ == value@,
            r is Err ==> r->Err_0.code == 400 && r->Err_0.message@
                == "Invalid phone number format"@,
    {
        let phone = Phone { value };
        match phone.validate() {
            Ok(_) => Ok(phone),
            Err(err) => Err(SharedError::new(err.as_str(), 400)),
        }
    }
}

impl Clone for Phone {
    fn clone(&self) -> (r: Self)
        ensures
            r@ == self@,
    {
        Phone { value: self.value.clone() }
    }
}

impl ValueObject<String> for Phone {
    fn value(&self) -> (r: &String)
        ensures
            r@ == self@,
    {
        &self.value
    }

    fn validate(&self) -> (r: Result<(), String>)
        ensures
            r is Ok <==> phone_valid(self@),
            r is Err ==> r->Err_0@ == "Invalid phone number format"@,
    {
        let s = self.value.as_str();
        let len = s.unicode_len();
        if len != 10 {
            return Err("Invalid phone number format".to_owned());
        }
        let mut i: usize = 0;
        while i < len
            invariant
                i <= len,
                len == s@.len(),
                len == 10,
                s@ == self@,
                forall|j: int| 0 <= j < i ==> digit_char(#[trigger] s@[j]),
            decreases len - i,
        {
            let c = s.get_char(i);
            let u = c as u32;
            if u < 48 || u > 57 {
                return Err("Invalid phone number format".to_owned());
            }
            i += 1;
        }
        Ok(())
    }
}

#[derive(Debug)]
pub struct CC {
    value: String,
}

impl CC {
    pub closed spec fn view(&self) -> Seq<char> {
        self.value@
    }

    pub fn new(value: String) -> (r: Result<Self, SharedError>)
        ensures
            r is Ok <==> cc_valid(value@),
            r is Ok ==> r->Ok_0@ == value@,
            r is Err ==> r->Err_0.code == 400 && r->Err_0.message@
                == "CC must be at least 5 characters long"@,
    {
        let cc = CC { value };
        match cc.validate() {
            Ok(_) => Ok(cc),
            Err(err) => Err(SharedError::new(err.as_str(), 400)),
        }
    }
}

impl Clone for CC {
    fn clone(&self) -> (r: Self)
        ensures
            r@ == self@,
    {
        CC { value: self.value.clone() }
    }
}

impl ValueObject<String> for CC {
    fn value(&self) -> (r: &String)
        ensures
            r@ == self@,
    {
        &self.value
    }

    fn validate(&self) -> (r: Result<(), String>)
        ensures
            r is Ok <==> cc_valid(self@),
            r is Err ==> r->Err_0@ == "CC must be at least 5 characters long"@,
    {
        if self.value.as_str().unicode_len() >= 5 {
            Ok(())
        } else {
            Err("CC must be at least 5 characters long".to_owned())
        }
    }
}

#[derive(Debug)]
pub struct Url {
    value: String,
}

impl Url {
    pub closed spec fn view(&self) -> Seq<char> {
        self.value@
    }

    pub fn new(value: String) -> (r: Result<Self, SharedError>)
        ensures
            r is Ok <==> url_valid(value@),
            r is Ok ==> r->Ok_0@ == value@,
            r is Err ==> r->Err_0.code == 400 && r->Err_0.message@ == "Invalid URL format"@,
    {
        let url = Url { value };
        match url.validate() {
            Ok(_) => Ok(url),
            Err(err) => Err(SharedError::new(err.as_str(), 400)),
        }
    }
}

impl Clone for Url {
    fn clone(&self) -> (r: Self)
        ensures
            r@ == self@,
    {
        Url { value: self.value.clone() }
    }
}

impl ValueObject<String> for Url {
    fn value(&self) -> (r: &String)
        ensures
            r@ == self@,
    {
        &self.value
    }

    fn validate(&self) -> (r: Result<(), String>)
        ensures
            r is Ok <==> url_valid(self@),
            r is Err ==> r->Err_0@ == "Invalid URL format"@,
    {
        let s = self.value.as_str();
        if str_has_prefix(s, "http://") || str_has_prefix(s, "https://") {
            Ok(())
        } else {
            Err("Invalid URL format".to_owned())
        }
    }
}

} // verus!
