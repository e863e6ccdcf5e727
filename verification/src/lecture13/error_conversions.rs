//! Different errors gathered in one enum, each put in by hand.

use vstd::prelude::*;
use crate::numbers::{parse_i32, signed_text};
use crate::text::{chars_of, string_of, trim, trimmed};

use std::io;
use std::num::ParseIntError;

verus! {

#[verifier::external_type_specification]
#[verifier::external_body]
pub struct ExIoError(io::Error);

/// Reading a number from a file failed.
#[derive(Debug)]
pub enum MyError {
    /// The file could not be read.
    Io(io::Error),
    /// The file does not hold a number.
    Parse(ParseIntError),
}

/// The number that a file's contents hold, surrounded by white space or not.
pub fn number_in(content: &str) -> (r: Result<i32, MyError>)
    ensures
        r is Ok <==> (signed_text(trim(content@)) matches Some(v) && i32::MIN <= v <= i32::MAX),
        r matches Ok(v) ==> signed_text(trim(content@)) == Some(v as int),
        r is Err ==> r->Err_0 is Parse,
{
    let cs = chars_of(content);
    let text = string_of(trimmed(cs.as_slice()).as_slice());
    match parse_i32(text.as_str()) {
        Ok(v) => Ok(v),
        Err(f) => Err(MyError::Parse(f.error)),
    }
}

} // verus!
