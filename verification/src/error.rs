use vstd::prelude::*;

verus! {

/// The error of every fallible operation of the collector: a message.
#[derive(Debug)]
pub struct Error {
    message: String,
}

impl View for Error {
    type V = Seq<char>;

    closed spec fn view(&self) -> Seq<char> {
        self.message@
    }
}

impl Error {
    /// An error that carries the given message.
    pub fn new(message: String) -> (e: Error)
        ensures
            e@ == message@,
    {
        Error { message }
    }

    /// The message of the error, as its `Display` writes it.
    pub fn message(&self) -> (m: &String)
        ensures
            m@ == self@,
    {
        &self.message
    }
}

} // verus!
