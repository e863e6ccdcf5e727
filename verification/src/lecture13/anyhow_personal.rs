//! More errors that carry only a message.

use vstd::prelude::*;
use crate::lecture13::with_anyhow::Failure;
use crate::numbers::{i32_parse_message, parse_i32, signed_text};
use crate::text::push_char;

verus! {

/// Succeeds when `switch` is set; otherwise fails with `string error`.
pub fn string_error(switch: bool) -> (r: Result<(), Failure>)
    ensures
        match r {
            Ok(()) => switch,
            Err(f) => !switch && f.chain_text() == seq!["string error"@],
        },
{
    if switch {
        Ok(())
    } else {
        Err(Failure::msg("string error"))
    }
}

/// Succeeds when `switch` is set; otherwise fails with `io error`.
pub fn io_error(switch: bool) -> (r: Result<(), Failure>)
    ensures
        match r {
            Ok(()) => switch,
            Err(f) => !switch && f.chain_text() == seq!["io error"@],
        },
{
    if switch {
        Ok(())
    } else {
        Err(Failure::msg("io error"))
    }
}

/// Runs a step that succeeds, then one that fails: fails with `io error`.
pub fn any_error() -> (r: Result<(), Failure>)
    ensures
        r matches Err(f) && f.chain_text() == seq!["io error"@],
{
    match string_error(true) {
        Ok(()) => {},
        Err(e) => return Err(e),
    }
    match io_error(false) {
        Ok(()) => {},
        Err(e) => return Err(e),
    }
    Ok(())
}

/// The message of the context added when `num` cannot be parsed.
pub open spec fn parse_context(num: Seq<char>) -> Seq<char> {
    "cannot parse '"@ + num + seq!['\'']
}

/// The number `num` holds; when it holds none, the error says it cannot be
/// parsed, quoting it, caused by the parse error.
pub fn test_context(num: &str) -> (r: Result<i32, Failure>)
    ensures
        r is Ok <==> (signed_text(num@) matches Some(v) && i32::MIN <= v <= i32::MAX),
        r matches Ok(v) ==> signed_text(num@) == Some(v as int),
        r matches Err(f) ==> f.chain_text() == seq![parse_context(num@), i32_parse_message(num@)],
{
    match parse_i32(num) {
        Ok(v) => Ok(v),
        Err(e) => {
            let cause = Failure::msg(e.message.as_str());
            let mut context = String::from_str("cannot parse '");
            context.append(num);
            push_char(&mut context, '\'');
            assert(context@ =~= parse_context(num@));
            Err(cause.context(context))
        },
    }
}

} // verus!
