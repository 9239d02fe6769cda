//! Command arguments.
use vstd::prelude::*;

verus! {

/// One argument handed to a command, as the text it was given as.
#[derive(Clone, Copy, Debug, PartialEq, Eq)]
pub struct Argument<'a> {
    pub text: &'a str,
}

impl<'a> Argument<'a> {
    pub fn new(text: &'a str) -> (a: Self)
        ensures
            a.text == text,
    {
        Argument { text }
    }
}

} // verus!
