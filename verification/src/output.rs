//! The envelope in which every result is reported.

use vstd::prelude::*;

verus! {

/// A reported result: either the data of a success, or the message of an
/// error.
pub struct Output<T> {
    pub success: bool,
    pub data: Option<T>,
    pub error: Option<String>,
}

impl<T> Output<T> {
    /// The report of a success with its data.
    pub fn ok(data: T) -> (output: Output<T>)
        ensures
            output.success,
            output.data == Some(data),
            output.error.is_none(),
    {
        Output { success: true, data: Some(data), error: None }
    }

    /// The report of an error with its message.
    pub fn err(msg: String) -> (output: Output<T>)
        ensures
            !output.success,
            output.data.is_none(),
            output.error == Some(msg),
    {
        Output { success: false, data: None, error: Some(msg) }
    }
}

} // verus!
