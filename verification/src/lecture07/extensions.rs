//! The first argument a user gives a program.

use vstd::prelude::*;

verus! {

/// The first argument given to a program, leaving out the program's path.
pub trait OnlyFirstCliArg {
    fn only_first_provided(self) -> Option<String>;
}

impl OnlyFirstCliArg for Vec<String> {
    /// The second item, if there is one.
    fn only_first_provided(self) -> (r: Option<String>)
        ensures
            r == if self@.len() >= 2 {
                Some(self@[1])
            } else {
                None
            },
    {
        let mut args = self;
        if args.len() >= 2 {
            Some(args.remove(1))
        } else {
            None
        }
    }
}

} // verus!
