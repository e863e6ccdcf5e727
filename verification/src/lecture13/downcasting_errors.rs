//! Turning errors into text.

use vstd::prelude::*;
use crate::numbers::{i32_parse_message, parse_i32, signed_text};
use crate::text::{push_signed_decimal, signed_decimal};

verus! {

/// An error that says `MyErr`.
#[derive(Debug)]
pub struct MyErr;

impl MyErr {
    /// How the error is shown.
    pub fn display(&self) -> (r: String)
        ensures
            r@ == "MyErr"@,
    {
        String::from_str("MyErr")
    }
}

/// `Num: ` followed by the number that `s` holds, or the reason it holds none.
pub fn process_num(s: &str) -> (r: Result<String, String>)
    ensures
        r is Ok <==> (signed_text(s@) matches Some(v) && i32::MIN <= v <= i32::MAX),
        r matches Ok(t) ==> t@ == "Num: "@ + signed_decimal(signed_text(s@)->0),
        r matches Err(m) ==> m@ == i32_parse_message(s@),
{
    match parse_i32(s) {
        Ok(n) => {
            let mut t = String::from_str("Num: ");
            push_signed_decimal(&mut t, n as i64);
            Ok(t)
        },
        Err(f) => Err(f.message),
    }
}

} // verus!
