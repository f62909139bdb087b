use vstd::prelude::*;

verus! {

/// The two validation failures the creation handler can report.
#[derive(Clone, Copy, Debug, PartialEq, Eq, Structural)]
pub enum WaffleError {
    /// The name has 30 or more characters.
    NameTooLong,
    /// The name has 1 or fewer characters.
    NameEmpty,
}

impl WaffleError {
    /// The fixed human-readable message attached to each failure.
    pub fn message(&self) -> (r: &'static str)
        ensures
            *self == WaffleError::NameTooLong ==> r@ == "Waffle name can be 30 characters long."@,
            *self == WaffleError::NameEmpty ==> r@ == "You need to name the Waffle."@,
    {
        match self {
            WaffleError::NameTooLong => "Waffle name can be 30 characters long.",
            WaffleError::NameEmpty => "You need to name the Waffle.",
        }
    }
}

} // verus!
