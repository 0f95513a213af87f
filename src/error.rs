use vstd::prelude::*;

verus! {

/// The ways in which reading a document, building its graph or navigating
/// it can fail.
#[derive(Debug)]
pub enum Error {
    /// The document text does not match the process-definition schema; the
    /// string describes the mismatch.
    Decode(String),
    /// A flow node of a process has no identifier, so no graph is built.
    MissingIdentifier,
    /// An edge leads to the identifier held here, which names no vertex.
    DanglingReference(String),
}

} // verus!
