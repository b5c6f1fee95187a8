//! The error a module reports when one of its sources fails.
use vstd::prelude::*;

verus! {

/// A failure of one module's sources: which module, and what went wrong.
pub struct ModuleError {
    pub module: String,
    pub message: String,
}

impl ModuleError {
    pub fn new(module: String, message: String) -> (r: ModuleError)
        ensures
            r.module@ == module@,
            r.message@ == message@,
    {
        ModuleError { module, message }
    }
}

} // verus!
