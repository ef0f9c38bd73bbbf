//! The one error of this library.
use vstd::prelude::*;

verus! {

/// Why a parser could not be set up. It carries a message and nothing
/// else.
#[derive(Debug)]
pub struct SnoopError {
    message: String,
}

impl View for SnoopError {
    type V = Seq<char>;

    closed spec fn view(&self) -> Seq<char> {
        self.message@
    }
}

impl SnoopError {
    /// An error that says `message`.
    pub fn new(message: String) -> (r: Self)
        ensures
            r@ == message@,
    {
        SnoopError { message }
    }

    /// What the error says.
    pub fn to_string(&self) -> (r: String)
        ensures
            r@ == self@,
    {
        self.message.clone()
    }
}

} // verus!
