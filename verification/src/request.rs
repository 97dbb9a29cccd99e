use vstd::prelude::*;
use aws_sdk_s3::primitives::ByteStream;
use crate::object::ObjectDescriptor;
use crate::sdk::{body_from, stream_bytes};
use crate::segment::{Segment, SegmentView};
use crate::text::{copy_source, copy_source_range, range_text, source_text};

verus! {

/// The store operation that transfers one part.
#[derive(Debug)]
pub enum PartRequest {
    /// Send `body` as the part.
    Upload { part_number: i32, body: ByteStream },
    /// Have the store copy the part from the range `copy_source_range` of
    /// the object `copy_source`.
    Copy { part_number: i32, copy_source: String, copy_source_range: String },
}

/// What a part request asks for.
pub enum PartRequestView {
    Upload { part_number: int, body: Seq<u8> },
    Copy { part_number: int, copy_source: Seq<char>, copy_source_range: Seq<char> },
}

impl View for PartRequest {
    type V = PartRequestView;

    open spec fn view(&self) -> PartRequestView {
        match self {
            PartRequest::Upload { part_number, body } => PartRequestView::Upload {
                part_number: *part_number as int,
                body: stream_bytes(*body),
            },
            PartRequest::Copy { part_number, copy_source, copy_source_range } => {
                PartRequestView::Copy {
                    part_number: *part_number as int,
                    copy_source: copy_source@,
                    copy_source_range: copy_source_range@,
                }
            },
        }
    }
}

/// The request that transfers `segment` as part `part_number` of an upload
/// to the object `key` in `bucket`.
///
/// A copy names that same object as its source, and as range the
/// segment's first and last byte. An upload sends the segment's bytes.
pub open spec fn request_for(
    bucket: Seq<char>,
    key: Seq<char>,
    segment: SegmentView,
    part_number: int,
) -> PartRequestView {
    match segment {
        SegmentView::Copy { start, end } => PartRequestView::Copy {
            part_number,
            copy_source: source_text(bucket, key),
            copy_source_range: range_text(start as nat, (end - 1) as nat),
        },
        SegmentView::Upload { bytes, .. } => PartRequestView::Upload { part_number, body: bytes },
    }
}

/// Turns `segment` into the request that transfers it as part
/// `part_number`. The bytes of an upload move into the request's body.
pub fn part_request(object: &ObjectDescriptor, segment: Segment, part_number: i32) -> (request:
    PartRequest)
    requires
        segment@ is Copy ==> segment@.well_formed(),
    ensures
        request@ == request_for(object.bucket@, object.key@, segment@, part_number as int),
{
    match segment {
        Segment::Copy { source_start, source_end } => {
            let first: u64 = source_start as u64;
            let last: u64 = (source_end - 1) as u64;
            PartRequest::Copy {
                part_number,
                copy_source: copy_source(object.bucket.as_str(), object.key.as_str()),
                copy_source_range: copy_source_range(first, last),
            }
        },
        Segment::Upload { start: _, bytes } => PartRequest::Upload {
            part_number,
            body: body_from(bytes),
        },
    }
}

} // verus!
