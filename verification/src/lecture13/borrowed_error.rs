//! An error that borrows its message.

use vstd::prelude::*;

verus! {

/// An error whose message is borrowed.
#[derive(Debug)]
pub struct MyError<'a> {
    pub message: &'a str,
}

impl<'a> MyError<'a> {
    /// How the error is shown: `MyError: ` and the message.
    pub fn display(&self) -> (r: String)
        ensures
            r@ == "MyError: "@ + self.message@,
    {
        let mut r = String::from_str("MyError: ");
        r.append(self.message);
        r
    }
}

} // verus!
