//! Error enums that wrap the errors they come from.

use vstd::prelude::*;
use crate::numbers::{all_digits, digits_value, i32_parse_message, parse_i32, signed_text, ParseFailure};
use crate::text::{push_signed_decimal, signed_decimal};


verus! {

/// A number could not be parsed.
#[derive(Debug)]
pub enum MyError {
    NotParsable(ParseFailure),
}

impl MyError {
    /// What the error says: `cannot be parsed: ` and the parse error.
    pub fn message(&self) -> (r: String)
        ensures
            match self {
                MyError::NotParsable(f) => r@ == "cannot be parsed: "@ + f.message@,
            },
    {
        match self {
            MyError::NotParsable(f) => {
                let mut r = String::from_str("cannot be parsed: ");
                r.append(f.message.as_str());
                r
            },
        }
    }
}

/// The number `input` holds.
pub fn try_parse(input: &str) -> (r: Result<i32, MyError>)
    ensures
        r is Ok <==> (signed_text(input@) matches Some(v) && i32::MIN <= v <= i32::MAX),
        r matches Ok(v) ==> signed_text(input@) == Some(v as int),
        r matches Err(MyError::NotParsable(f)) ==> f.message@ == i32_parse_message(input@),
{
    match parse_i32(input) {
        Ok(v) => Ok(v),
        Err(f) => Err(MyError::NotParsable(f)),
    }
}

/// A number could not be parsed, or was not the one expected.
#[derive(Debug)]
pub enum AppErr {
    NotParsable(ParseFailure),
    InvalidNum { expected: i32, found: i32 },
}

impl AppErr {
    /// What the error says.
    pub fn message(&self) -> (r: String)
        ensures
            match self {
                AppErr::NotParsable(f) => r@ == "Cannot parse '"@ + f.message@
                    + "' - invalid number"@,
                AppErr::InvalidNum { expected, found } => r@ == "Invalid number (expected: "@
                    + signed_decimal(*expected as int) + ", found: "@ + signed_decimal(*found as int)
                    + ")"@,
            },
    {
        match self {
            AppErr::NotParsable(f) => {
                let mut r = String::from_str("Cannot parse '");
                r.append(f.message.as_str());
                r.append("' - invalid number");
                r
            },
            AppErr::InvalidNum { expected, found } => {
                let mut r = String::from_str("Invalid number (expected: ");
                push_signed_decimal(&mut r, *expected as i64);
                r.append(", found: ");
                push_signed_decimal(&mut r, *found as i64);
                r.append(")");
                r
            },
        }
    }
}

/// Parses `1`, which succeeds, then reports that 10 was found where 0 was
/// expected.
pub fn test_app_error() -> (r: Result<(), AppErr>)
    ensures
        r matches Err(AppErr::InvalidNum { expected, found }) && expected == 0 && found == 10,
{
    proof {
        reveal_strlit("1");
        assert("1"@.drop_last() =~= Seq::<char>::empty());
        assert(all_digits("1"@));
        assert(digits_value(Seq::<char>::empty()) == 0);
        assert("1"@.last() == '1');
        assert(('1' as u32) == 49);
        assert(digits_value("1"@) == 1);
        assert(signed_text("1"@) == Some(1int));
    }
    let _parsed: i32 = match parse_i32("1") {
        Ok(v) => v,
        Err(f) => return Err(AppErr::NotParsable(f)),
    };
    Err(AppErr::InvalidNum { expected: 0, found: 10 })
}

} // verus!
