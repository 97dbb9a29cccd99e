use vstd::prelude::*;

verus! {

/// Why a modification did not go through.
#[derive(Debug, PartialEq, Eq)]
pub enum ModifyError {
    /// The store has no object under the key.
    ObjectNotFound,
    /// The edit reaches past the end of the object.
    InvalidEditWindow,
    /// The store opened a multipart upload without naming it.
    MissingUploadId,
    /// The store accepted a part without returning its tag.
    MissingPartTag,
    /// A request to the store failed in transport or was refused.
    StoreRequestFailed { message: String },
}

} // verus!
