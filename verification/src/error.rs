//! The error type shared by every workflow.
//!
//! An error carries a human-readable message and a numeric code usable to
//! map onto a transport-specific status: 400 for validation failures and
//! conflicts, 401 for refused credentials, 404 for absent entities, 500 for
//! internal failures.

use vstd::prelude::*;

verus! {

#[derive(Debug)]
pub struct SharedError {
    pub message: String,
    pub code: u16,
}

impl SharedError {
    pub fn new(message: &str, code: u16) -> (r: SharedError)
        ensures
            r.message@ == message@,
            r.code == code,
    {
        SharedError { message: message.to_owned(), code }
    }

    /// A rendering of the error, in place of a `Display` implementation.
    pub fn describe(&self) -> (r: String)
        ensures
            r@ == "Error: "@ + self.message@,
    {
        let mut r = String::new();
        r.append("Error: ");
        r.append(self.message.as_str());
        r
    }
}

impl Clone for SharedError {
    fn clone(&self) -> (r: Self)
        ensures
            r.message@ == self.message@,
            r.code == self.code,
    {
        SharedError { message: self.message.clone(), code: self.code }
    }
}

} // verus!
