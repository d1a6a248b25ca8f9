//! The error raised when a path read from disk cannot be turned into a
//! corpus key.

use vstd::prelude::*;

verus! {

broadcast use vstd::string::group_string_axioms;

use vstd::string::StringExecFns;

/// A file's path was not available as text.
#[derive(Clone, Copy, PartialEq, Eq, Structural, Debug)]
pub struct NotAvailableError;

impl NotAvailableError {
    /// The human-readable description of this error.
    pub fn message(&self) -> (r: String)
        ensures
            r@ == ("File 'not available' error")@,
    {
        let mut r = String::new();
        r.append("File 'not available' error");
        proof {
            assert(Seq::<char>::empty() + ("File 'not available' error")@ =~= (
            "File 'not available' error")@);
        }
        r
    }
}

} // verus!
