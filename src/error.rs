use vstd::prelude::*;

verus! {

/// A failure of the transport under a bus device, with a message that says why.
#[derive(Debug)]
pub struct I2cCommError {
    inner: String,
}

impl I2cCommError {
    /// What the error says of its cause.
    pub closed spec fn message(&self) -> Seq<char> {
        self.inner@
    }

    /// Creates an error from a message that describes its cause.
    pub fn new(message: String) -> (r: Self)
        ensures
            r.message() == message@,
    {
        I2cCommError { inner: message }
    }

    /// Gives back the message that the error was made with.
    pub fn into_inner(self) -> (r: String)
        ensures
            r@ == self.message(),
    {
        self.inner
    }
}


/// A failure of the link that carries a surface's contents to its display.
#[derive(Debug, Clone, Copy, PartialEq, Eq, Structural)]
pub struct CommError;

} // verus!
