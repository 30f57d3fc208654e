use vstd::prelude::*;

verus! {

/// Why a push that must stay within the reserved capacity was refused.
#[derive(Debug, Clone, Copy, PartialEq, Eq, Structural)]
pub enum Error {
    /// The container is full: its length has reached its capacity.
    ExceedCurrentCapacity,
    /// The container has no storage reserved at all (capacity zero).
    Uninitialized,
}

impl Error {
    /// The variant's name, as the error is displayed.
    pub open spec fn spec_name(self) -> Seq<char> {
        match self {
            Error::ExceedCurrentCapacity => "ExceedCurrentCapacity"@,
            Error::Uninitialized => "Uninitialized"@,
        }
    }

    /// The text that displaying this error shows: the variant's name.
    pub fn to_string(&self) -> (s: String)
        ensures
            s@ == self.spec_name(),
    {
        match self {
            Error::ExceedCurrentCapacity => "ExceedCurrentCapacity".to_owned(),
            Error::Uninitialized => "Uninitialized".to_owned(),
        }
    }
}

} // verus!
