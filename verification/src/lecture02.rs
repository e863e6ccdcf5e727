//! Transforming lines of standard input with a transformation named by the
//! single command-line argument; and a few small exercises.

use vstd::prelude::*;
use crate::transform::{Transformation, select, selected, transform, transformed};
use crate::text::str_equals;

verus! {

/// The transformation an argument names, among the six text transformations.
pub fn get_string_modifier(arg: &str) -> (r: Option<Transformation>)
    ensures
        r == selected(arg@, false),
{
    select(arg, false)
}

/// What is wrong with the number of arguments given, if anything: exactly
/// one is expected.
pub fn argument_count_problem(count: usize) -> (r: Option<String>)
    ensures
        count == 0 ==> (r matches Some(m) && m@ == "No argument provided."@),
        count == 1 ==> r is None,
        count > 1 ==> (r matches Some(m) && m@
            == "Too much arguments provided. Only one argument is allowed."@),
{
    if count == 0 {
        Some(String::from_str("No argument provided."))
    } else if count == 1 {
        None
    } else {
        Some(String::from_str("Too much arguments provided. Only one argument is allowed."))
    }
}

/// What is printed for a line of input: the line transformed; nothing at
/// the exit signal, which ends the input.
pub fn respond_to_line(t: Transformation, line: &str, exit_signal: &str) -> (r: Option<String>)
    ensures
        line@ == exit_signal@ ==> r is None,
        line@ != exit_signal@ ==> (r matches Some(out) && out@ == transformed(t, line@)),
{
    if str_equals(line, exit_signal) {
        None
    } else {
        Some(transform(t, line))
    }
}

/// A block is an expression: its value is its last expression.
pub fn block_of_code() {
    let _out: i32 = {
        5
    };
}

/// Nothing.
pub fn gimme() -> (r: Option<i32>)
    ensures
        r is None,
{
    None
}

/// Patterns that take tuples apart.
pub fn tuples() {
    let (a, .., c): (i32, i32, i32) = (1, 2, 3);
    let (ref x, ..) = (String::from_str("hello"), String::from_str("world"));
    let num: i32 = match gimme() {
        Some(num) => num,
        None => {
            return ;
        },
    };
}

/// Borrowing an element of an array.
pub fn arr() {
    let a = [String::from_str("a"), String::from_str("b")];
    let _el = &a[0];
}

/// An empty function.
pub fn test_result() {
}

} // verus!
