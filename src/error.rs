//! The error that configuration loading reports.
use vstd::prelude::*;

verus! {

/// A configuration error, carrying a message for the user.
#[derive(Debug)]
pub struct ConfError {
    message: String,
}

impl ConfError {
    /// The message this error carries.
    pub closed spec fn spec_message(&self) -> Seq<char> {
        self.message@
    }

    /// Makes an error with the message `msg`.
    pub fn new(msg: &str) -> (r: Box<ConfError>)
        ensures
            r.spec_message() == msg@,
    {
        Box::new(ConfError { message: msg.to_owned() })
    }

    /// The message this error carries.
    pub fn message(&self) -> (r: &str)
        ensures
            r@ == self.spec_message(),
    {
        self.message.as_str()
    }
}

} // verus!
