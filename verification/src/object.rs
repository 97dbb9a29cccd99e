use vstd::prelude::*;

verus! {

/// The object under modification, as the store described it when the
/// modification began.
#[derive(Debug, PartialEq, Eq)]
pub struct ObjectDescriptor {
    pub bucket: String,
    pub key: String,
    pub total_length: i64,
}

/// What an object descriptor says, with the names as sequences of
/// characters.
pub struct ObjectView {
    pub bucket: Seq<char>,
    pub key: Seq<char>,
    pub total_length: int,
}

impl View for ObjectDescriptor {
    type V = ObjectView;

    open spec fn view(&self) -> ObjectView {
        ObjectView {
            bucket: self.bucket@,
            key: self.key@,
            total_length: self.total_length as int,
        }
    }
}

} // verus!
