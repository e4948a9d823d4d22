//! The error handler the dispatcher is built with: it carries the text
//! that prefixes every logged error.

use vstd::prelude::*;
use vstd::string::*;
use std::sync::Arc;

verus! {

/// A handler that prefixes what it logs with a fixed text.  The
/// transport adapter wraps this in its own logging callback.
pub struct MyErrorHandler {
    pub text: String,
}

impl MyErrorHandler {
    /// A handler with the given prefix.
    pub fn with_custom_text(text: String) -> (r: Arc<MyErrorHandler>)
        ensures
            r.text@ == text@,
    {
        Arc::new(MyErrorHandler { text })
    }

    /// A handler with the plain prefix "Error".
    pub fn new() -> (r: Arc<MyErrorHandler>)
        ensures
            r.text@ == "Error"@,
    {
        Self::with_custom_text(String::from_str("Error"))
    }
}

} // verus!
