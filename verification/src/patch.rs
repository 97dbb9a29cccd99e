use vstd::prelude::*;
use vstd::seq_lib::lemma_flatten_concat;
use crate::planner::{copy_run, plan_of};
use crate::segment::SegmentView;

verus! {

/// The bytes that `segment` contributes to the rewritten object: a copy
/// takes them from `existing` at the segment's own positions, an upload
/// brings them along.
pub open spec fn segment_bytes(segment: SegmentView, existing: Seq<u8>) -> Seq<u8> {
    match segment {
        SegmentView::Copy { start, end } => existing.subrange(start, end),
        SegmentView::Upload { bytes, .. } => bytes,
    }
}

/// The object that the store assembles from `plan`: what each segment
/// contributes, one after the other.
pub open spec fn rewritten(plan: Seq<SegmentView>, existing: Seq<u8>) -> Seq<u8> {
    plan.map_values(|segment: SegmentView| segment_bytes(segment, existing)).flatten()
}

/// `existing` with `payload` written over its bytes from `offset` on.
pub open spec fn patched(existing: Seq<u8>, offset: int, payload: Seq<u8>) -> Seq<u8> {
    existing.subrange(0, offset) + payload + existing.subrange(
        offset + payload.len(),
        existing.len() as int,
    )
}

/// What two plans in a row assemble is what the first assembles followed by
/// what the second assembles.
pub proof fn rewritten_joins(left: Seq<SegmentView>, right: Seq<SegmentView>, existing: Seq<u8>)
    ensures
        rewritten(left + right, existing) == rewritten(left, existing) + rewritten(
            right,
            existing,
        ),
{
    let bytes_of = |segment: SegmentView| segment_bytes(segment, existing);
    assert((left + right).map_values(bytes_of) =~= left.map_values(bytes_of) + right.map_values(
        bytes_of,
    ));
    lemma_flatten_concat(left.map_values(bytes_of), right.map_values(bytes_of));
}

/// A single segment assembles to what it contributes.
pub proof fn rewritten_single(segment: SegmentView, existing: Seq<u8>)
    ensures
        rewritten(seq![segment], existing) == segment_bytes(segment, existing),
{
    let bytes_of = |segment: SegmentView| segment_bytes(segment, existing);
    let mapped = seq![segment].map_values(bytes_of);
    assert(mapped.len() == 1);
    assert(mapped.drop_first() =~= Seq::<Seq<u8>>::empty());
    assert(mapped.drop_first().flatten() =~= Seq::<u8>::empty());
    assert(mapped.flatten() =~= mapped.first());
}

/// A run of copies assembles to the bytes of its range, unchanged.
pub proof fn copy_run_keeps_bytes(from: int, to: int, max_part_size: int, existing: Seq<u8>)
    requires
        0 <= from <= to <= existing.len(),
        0 < max_part_size,
    ensures
        rewritten(copy_run(from, to, max_part_size), existing) == existing.subrange(from, to),
    decreases to - from,
{
    let run = copy_run(from, to, max_part_size);
    if from < to {
        let end = if to - from > max_part_size {
            from + max_part_size
        } else {
            to
        };
        let head = SegmentView::Copy { start: from, end };
        let rest = copy_run(end, to, max_part_size);
        copy_run_keeps_bytes(end, to, max_part_size, existing);
        rewritten_single(head, existing);
        rewritten_joins(seq![head], rest, existing);
        assert(existing.subrange(from, end) + existing.subrange(end, to) =~= existing.subrange(
            from,
            to,
        ));
    } else {
        assert(run.map_values(|segment: SegmentView| segment_bytes(segment, existing))
            =~= Seq::<Seq<u8>>::empty());
        assert(existing.subrange(from, to) =~= Seq::<u8>::empty());
    }
}

/// Assembling the planned segments over the existing object yields that
/// object with the payload written at the edit's offset: the bytes before
/// the offset, the payload, and the bytes after the edit's end.
pub proof fn plan_writes_patch(
    existing: Seq<u8>,
    max_part_size: int,
    offset: int,
    payload: Seq<u8>,
)
    requires
        0 < max_part_size,
        0 <= offset,
        offset + payload.len() <= existing.len(),
    ensures
        rewritten(plan_of(existing.len() as int, max_part_size, offset, payload), existing)
            == patched(existing, offset, payload),
        patched(existing, offset, payload).len() == existing.len(),
{
    let total = existing.len() as int;
    if offset < total {
        let end = offset + payload.len();
        let before = copy_run(0, offset, max_part_size);
        let upload = SegmentView::Upload { start: offset, bytes: payload };
        let after = copy_run(end, total, max_part_size);
        copy_run_keeps_bytes(0, offset, max_part_size, existing);
        copy_run_keeps_bytes(end, total, max_part_size, existing);
        rewritten_single(upload, existing);
        rewritten_joins(before, seq![upload], existing);
        rewritten_joins(before + seq![upload], after, existing);
    } else {
        copy_run_keeps_bytes(0, total, max_part_size, existing);
        assert(patched(existing, offset, payload) =~= existing.subrange(0, total));
    }
}

} // verus!
