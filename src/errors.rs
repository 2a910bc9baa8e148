use vstd::prelude::*;

verus! {

/// Errors reported by the library.
#[derive(Debug, PartialEq, Eq)]
pub enum SuityError {
    /// The event stream holds more than one run (a second suite `started` event).
    MultipleTestRuns,
    /// The line with this 1-based number is not a well-formed event.
    MalformedEvent { line: usize },
    /// No test binary was found for the named integration test.
    TestBinaryNotFound { name: String, workflow: String },
    /// The tests of the workflow could not be compiled.
    FailedToCompile { workflow: String },
}

} // verus!
