use vstd::prelude::*;
use crate::edit::Part;
use crate::segment::{views, Segment, SegmentView};
use crate::tiling::{
    copies_avoid, copies_bounded, is_boundary, plan_copies_are_bounded, plan_covers_object,
    plan_has_one_upload, plan_is_aligned, tiles, uploads,
};

verus! {

/// The largest number of bytes that one copied part spans: one gibibyte.
pub const PART_SIZE: i64 = 1024 * 1024 * 1024;

/// The copies that carry bytes `[from, to)` over unchanged: each spans
/// `max_part_size` bytes, except that the last one stops at `to`.
pub open spec fn copy_run(from: int, to: int, max_part_size: int) -> Seq<SegmentView>
    decreases to - from,
{
    if from >= to || max_part_size <= 0 {
        Seq::empty()
    } else {
        let end = if to - from > max_part_size {
            from + max_part_size
        } else {
            to
        };
        seq![SegmentView::Copy { start: from, end }] + copy_run(end, to, max_part_size)
    }
}

/// The plan for writing `payload` at `offset` into an object of
/// `total_length` bytes.
///
/// An edit that starts at a byte of the object becomes one upload, with a
/// run of copies before it and a run of copies after it. Any other edit
/// touches nothing, and the plan is a single run of copies.
pub open spec fn plan_of(
    total_length: int,
    max_part_size: int,
    offset: int,
    payload: Seq<u8>,
) -> Seq<SegmentView> {
    if 0 <= offset < total_length {
        copy_run(0, offset, max_part_size) + seq![
            SegmentView::Upload { start: offset, bytes: payload },
        ] + copy_run(offset + payload.len(), total_length, max_part_size)
    } else {
        copy_run(0, total_length, max_part_size)
    }
}

/// What is left of the plan once everything before `cursor` is planned.
spec fn plan_from(
    cursor: int,
    total_length: int,
    max_part_size: int,
    offset: int,
    payload: Seq<u8>,
) -> Seq<SegmentView> {
    let upload = seq![SegmentView::Upload { start: offset, bytes: payload }];
    let tail = copy_run(offset + payload.len(), total_length, max_part_size);
    if offset < total_length && cursor < offset {
        copy_run(cursor, offset, max_part_size) + upload + tail
    } else if offset < total_length && cursor == offset {
        upload + tail
    } else {
        copy_run(cursor, total_length, max_part_size)
    }
}

/// Plans the segments that rewrite an object of `total_length` bytes with
/// `edit` applied, none of the copies longer than `max_part_size`.
///
/// The cursor walks the object from its first byte. At the edit's offset
/// the whole payload becomes one upload; elsewhere the next copy runs up to
/// `max_part_size` bytes, cut short at the edit's offset and at the end of
/// the object.
pub fn plan_segments(total_length: i64, max_part_size: i64, edit: Part) -> (plan: Vec<Segment>)
    requires
        max_part_size > 0,
        edit.plannable(total_length as int),
    ensures
        views(plan@) == plan_of(
            total_length as int,
            max_part_size as int,
            edit.offset(),
            edit.payload(),
        ),
        0 <= total_length ==> tiles(views(plan@), 0, total_length as int),
        copies_bounded(views(plan@), max_part_size as int),
        edit.starts_inside(total_length as int) ==> uploads(views(plan@)) == seq![
            SegmentView::Upload { start: edit.offset(), bytes: edit.payload() },
        ],
        0 <= edit.offset() ==> copies_avoid(views(plan@), edit.offset(), edit.end()),
        0 <= edit.offset() ==> is_boundary(views(plan@), 0, edit.offset()),
{
    let offset: i64 = edit.index();
    let length: usize = edit.len();
    let ghost bytes = edit.payload();
    let mut payload: Vec<u8> = edit.into_data();
    let mut plan: Vec<Segment> = Vec::new();
    let mut cursor: i64 = 0;
    assert(views(plan@) =~= Seq::empty());
    while cursor < total_length
        invariant
            max_part_size > 0,
            0 <= cursor,
            total_length > 0 ==> cursor <= total_length,
            offset + length <= total_length,
            0 <= offset < total_length ==> length > 0,
            length == bytes.len(),
            cursor <= offset ==> payload@ == bytes,
            views(plan@) + plan_from(
                cursor as int,
                total_length as int,
                max_part_size as int,
                offset as int,
                bytes,
            ) == plan_of(total_length as int, max_part_size as int, offset as int, bytes),
        decreases total_length - cursor,
    {
        let ghost before = views(plan@);
        if cursor == offset {
            let mut moved: Vec<u8> = Vec::new();
            core::mem::swap(&mut moved, &mut payload);
            let end: i64 = offset + length as i64;
            plan.push(Segment::Upload { start: offset, bytes: moved });
            proof {
                let upload = SegmentView::Upload { start: offset as int, bytes };
                assert(views(plan@) =~= before.push(upload));
                let tail = copy_run(end as int, total_length as int, max_part_size as int);
                assert(before.push(upload) + tail =~= before + (seq![upload] + tail));
            }
            cursor = end;
        } else {
            let mut end: i64 = if total_length - cursor > max_part_size {
                cursor + max_part_size
            } else {
                total_length
            };
            if offset > cursor && offset < end {
                end = offset;
            }
            plan.push(Segment::Copy { source_start: cursor, source_end: end });
            proof {
                let copy = SegmentView::Copy { start: cursor as int, end: end as int };
                assert(views(plan@) =~= before.push(copy));
                let rest = plan_from(
                    end as int,
                    total_length as int,
                    max_part_size as int,
                    offset as int,
                    bytes,
                );
                let now = plan_from(
                    cursor as int,
                    total_length as int,
                    max_part_size as int,
                    offset as int,
                    bytes,
                );
                if offset < total_length && cursor < offset {
                    assert(copy_run(offset as int, offset as int, max_part_size as int)
                        =~= Seq::empty());
                    assert(now =~= seq![copy] + rest);
                } else {
                    assert(now =~= seq![copy] + rest);
                }
                assert(before.push(copy) + rest =~= before + (seq![copy] + rest));
            }
            cursor = end;
        }
    }
    proof {
        let rest = plan_from(
            cursor as int,
            total_length as int,
            max_part_size as int,
            offset as int,
            bytes,
        );
        assert(rest =~= Seq::empty());
        assert(views(plan@) + rest =~= views(plan@));
        let (total, max) = (total_length as int, max_part_size as int);
        plan_copies_are_bounded(total, max, offset as int, bytes);
        if 0 <= total {
            plan_covers_object(total, max, offset as int, bytes);
        }
        if 0 <= offset < total {
            plan_has_one_upload(total, max, offset as int, bytes);
        }
        if 0 <= offset {
            plan_is_aligned(total, max, offset as int, bytes);
        }
    }
    plan
}

} // verus!
