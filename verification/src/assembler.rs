use vstd::prelude::*;
use aws_sdk_s3::types::CompletedMultipartUpload;
use crate::sdk::{build_completion, completed_parts, empty_completion, listed_parts, with_part};

verus! {

/// What the store returned for one part: the number the part was sent
/// under and the tag the store gave it.
#[derive(Debug, PartialEq, Eq)]
pub struct PartResult {
    pub part_number: i32,
    pub tag: String,
}

impl View for PartResult {
    type V = (int, Seq<char>);

    open spec fn view(&self) -> (int, Seq<char>) {
        (self.part_number as int, self.tag@)
    }
}

/// The numbers and tags of `results`, in order.
pub open spec fn entries(results: Seq<PartResult>) -> Seq<(int, Seq<char>)> {
    Seq::new(results.len(), |i: int| results[i]@)
}

/// The tags of `entries`, in order, without their numbers.
pub open spec fn tags_of(entries: Seq<(int, Seq<char>)>) -> Seq<Seq<char>> {
    Seq::new(entries.len(), |i: int| entries[i].1)
}

/// Whether each entry carries the number of its place in the list, counted
/// from one.
pub open spec fn consecutive(entries: Seq<(int, Seq<char>)>) -> bool {
    forall|i: int| 0 <= i < entries.len() ==> (#[trigger] entries[i]).0 == i + 1
}

/// The tags numbered from one by their place in the list.
pub open spec fn numbered(tags: Seq<Seq<char>>) -> Seq<(int, Seq<char>)> {
    Seq::new(tags.len(), |i: int| (i + 1, tags[i]))
}

/// Builds the completion of a multipart upload from the results of its
/// parts.
///
/// The parts are numbered anew by their place in the list, whatever number
/// each result carries, so that the completion is consecutive from one even
/// if the collected numbers have drifted. The store counts parts in 32
/// bits, which bounds the length of the list.
pub fn assemble(results: &Vec<PartResult>) -> (upload: CompletedMultipartUpload)
    requires
        results@.len() <= i32::MAX,
    ensures
        completed_parts(upload) == numbered(tags_of(entries(results@))),
{
    let mut builder = empty_completion();
    let mut i: usize = 0;
    while i < results.len()
        invariant
            i <= results@.len() <= i32::MAX,
            listed_parts(builder) == numbered(tags_of(entries(results@))).take(i as int),
        decreases results@.len() - i,
    {
        let number: i32 = (i + 1) as i32;
        builder = with_part(builder, number, results[i].tag.clone());
        assert(listed_parts(builder) =~= numbered(tags_of(entries(results@))).take(i + 1));
        i = i + 1;
    }
    assert(numbered(tags_of(entries(results@))).take(i as int) =~= numbered(
        tags_of(entries(results@)),
    ));
    build_completion(builder)
}

} // verus!
