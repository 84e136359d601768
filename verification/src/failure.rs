//! The error of the manufacturing service.

use vstd::prelude::*;

verus! {

/// A failure while manufacturing artifacts were generated, carried as the
/// text that is shown to the client.
#[derive(Debug)]
pub struct ManufacturingError {
    message: String,
}

impl ManufacturingError {
    /// The text of the failure.
    pub closed spec fn text(&self) -> Seq<char> {
        self.message@
    }

    /// Wraps the text of a failure.
    pub fn new(message: String) -> (e: ManufacturingError)
        ensures
            e.text() == message@,
    {
        ManufacturingError { message }
    }

    /// The text that is shown to the client.
    pub fn message(&self) -> (m: &str)
        ensures
            m@ == self.text(),
    {
        self.message.as_str()
    }
}

} // verus!
