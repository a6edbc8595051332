//! User-facing error messages collected during evaluation.

use vstd::prelude::*;

verus! {

/// Holds state for an error message to show to the user: the message itself
/// and a short description of the context it arose in.
#[derive(Debug)]
pub struct ShowError {
    /// The error message.
    pub error: String,
    /// Simple description for the user.
    pub context: String,
}

impl Clone for ShowError {
    fn clone(&self) -> (r: Self)
        ensures
            r.error@ == self.error@,
            r.context@ == self.context@,
    {
        ShowError { error: self.error.clone(), context: self.context.clone() }
    }
}

impl ShowError {
    /// An error message with the default context.
    pub fn new(err: String) -> (r: Self)
        ensures
            r.error@ == err@,
            r.context@ == "An error occurred"@,
    {
        Self { error: err, context: "An error occurred".to_owned() }
    }

    /// An error message with a custom context.
    pub fn new_custom_context(err: String, context: String) -> (r: Self)
        ensures
            r.error@ == err@,
            r.context@ == context@,
    {
        Self { error: err, context }
    }
}

} // verus!
