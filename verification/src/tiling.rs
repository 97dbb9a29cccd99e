use vstd::prelude::*;
use crate::planner::{copy_run, plan_of};
use crate::segment::SegmentView;

verus! {

/// Whether `plan` tiles the bytes `[from, to)`: the first segment starts at
/// `from`, each segment holds at least one byte and ends where the next one
/// starts, and the last segment ends at `to`. Without segments the range is
/// empty.
pub open spec fn tiles(plan: Seq<SegmentView>, from: int, to: int) -> bool {
    &&& from <= to
    &&& plan.len() == 0 ==> from == to
    &&& plan.len() > 0 ==> plan.first().start() == from && plan.last().end() == to
    &&& forall|i: int| 0 <= i < plan.len() ==> (#[trigger] plan[i]).start() < plan[i].end()
    &&& forall|i: int|
        0 <= i < plan.len() - 1 ==> (#[trigger] plan[i]).end() == plan[i + 1].start()
}

/// Whether a part of `plan`, which starts at `from`, begins or ends at
/// `position`.
pub open spec fn is_boundary(plan: Seq<SegmentView>, from: int, position: int) -> bool {
    position == from || exists|i: int| 0 <= i < plan.len() && (#[trigger] plan[i]).end() == position
}

/// The uploads among the segments of `plan`, in order.
pub open spec fn uploads(plan: Seq<SegmentView>) -> Seq<SegmentView> {
    plan.filter(|segment: SegmentView| segment is Upload)
}

/// Whether no copy in `plan` is longer than `max_part_size`.
pub open spec fn copies_bounded(plan: Seq<SegmentView>, max_part_size: int) -> bool {
    forall|i: int|
        0 <= i < plan.len() && (#[trigger] plan[i]) is Copy ==> plan[i].len() <= max_part_size
}

/// Whether no copy in `plan` holds a byte of `[from, to)`.
pub open spec fn copies_avoid(plan: Seq<SegmentView>, from: int, to: int) -> bool {
    forall|i: int|
        0 <= i < plan.len() && (#[trigger] plan[i]) is Copy ==> plan[i].end() <= from || to
            <= plan[i].start()
}

/// Whether every segment of `plan` is a copy of at most `max_part_size`
/// bytes that lies within `[from, to)`.
pub open spec fn copies_within(
    plan: Seq<SegmentView>,
    from: int,
    to: int,
    max_part_size: int,
) -> bool {
    forall|i: int|
        0 <= i < plan.len() ==> {
            &&& (#[trigger] plan[i]) is Copy
            &&& from <= plan[i].start()
            &&& plan[i].end() <= to
            &&& plan[i].len() <= max_part_size
        }
}

/// Two tilings, the second starting where the first ends, make one.
pub proof fn tiles_join(
    left: Seq<SegmentView>,
    right: Seq<SegmentView>,
    from: int,
    middle: int,
    to: int,
)
    requires
        tiles(left, from, middle),
        tiles(right, middle, to),
    ensures
        tiles(left + right, from, to),
{
    let joined = left + right;
    assert forall|i: int| 0 <= i < joined.len() implies (#[trigger] joined[i]).start()
        < joined[i].end() by {
        if i < left.len() {
            assert(joined[i] == left[i]);
        } else {
            assert(joined[i] == right[i - left.len()]);
        }
    }
    assert forall|i: int| 0 <= i < joined.len() - 1 implies (#[trigger] joined[i]).end()
        == joined[i + 1].start() by {
        if i + 1 < left.len() {
            assert(joined[i] == left[i]);
            assert(joined[i + 1] == left[i + 1]);
        } else if i < left.len() {
            assert(joined[i] == left.last());
            assert(joined[i + 1] == right.first());
        } else {
            assert(joined[i] == right[i - left.len()]);
            assert(joined[i + 1] == right[i - left.len() + 1]);
        }
    }
    if joined.len() > 0 {
        if left.len() > 0 {
            assert(joined.first() == left.first());
        } else {
            assert(joined.first() == right.first());
        }
        if right.len() > 0 {
            assert(joined.last() == right.last());
        } else {
            assert(joined.last() == left.last());
        }
    }
}

/// A run of copies tiles its range with copies of at most `max_part_size`
/// bytes.
pub proof fn copy_run_tiles(from: int, to: int, max_part_size: int)
    requires
        from <= to,
        max_part_size > 0,
    ensures
        tiles(copy_run(from, to, max_part_size), from, to),
        copies_within(copy_run(from, to, max_part_size), from, to, max_part_size),
    decreases to - from,
{
    let run = copy_run(from, to, max_part_size);
    if from < to {
        let end = if to - from > max_part_size {
            from + max_part_size
        } else {
            to
        };
        let head = seq![SegmentView::Copy { start: from, end }];
        let rest = copy_run(end, to, max_part_size);
        copy_run_tiles(end, to, max_part_size);
        assert(run == head + rest);
        assert(tiles(head, from, end));
        tiles_join(head, rest, from, end, to);
        assert forall|i: int| 0 <= i < run.len() implies {
            &&& (#[trigger] run[i]) is Copy
            &&& from <= run[i].start()
            &&& run[i].end() <= to
            &&& run[i].len() <= max_part_size
        } by {
            if i > 0 {
                assert(run[i] == rest[i - 1]);
            }
        }
    }
}

/// A run of copies holds no upload.
pub proof fn copy_run_has_no_upload(from: int, to: int, max_part_size: int)
    requires
        from <= to,
        max_part_size > 0,
    ensures
        uploads(copy_run(from, to, max_part_size)) == Seq::<SegmentView>::empty(),
{
    let run = copy_run(from, to, max_part_size);
    let is_upload = |segment: SegmentView| segment is Upload;
    copy_run_tiles(from, to, max_part_size);
    assert(run.all(|segment: SegmentView| !is_upload(segment))) by {
        assert forall|i: int| 0 <= i < run.len() implies !is_upload(#[trigger] run[i]) by {}
    }
    run.lemma_all_neg_filter_empty(is_upload);
    assert(run.filter(is_upload) =~= Seq::empty());
}

/// The planned segments follow one another without gap or overlap, each
/// holds at least one byte, and together they cover exactly the bytes of
/// the object.
pub proof fn plan_covers_object(
    total_length: int,
    max_part_size: int,
    offset: int,
    payload: Seq<u8>,
)
    requires
        0 <= total_length,
        0 < max_part_size,
        offset + payload.len() <= total_length,
        0 <= offset < total_length ==> payload.len() > 0,
    ensures
        tiles(plan_of(total_length, max_part_size, offset, payload), 0, total_length),
{
    if 0 <= offset < total_length {
        let end = offset + payload.len();
        let before = copy_run(0, offset, max_part_size);
        let upload = seq![SegmentView::Upload { start: offset, bytes: payload }];
        let after = copy_run(end, total_length, max_part_size);
        copy_run_tiles(0, offset, max_part_size);
        copy_run_tiles(end, total_length, max_part_size);
        assert(tiles(upload, offset, end));
        tiles_join(before, upload, 0, offset, end);
        tiles_join(before + upload, after, 0, end, total_length);
    } else {
        copy_run_tiles(0, total_length, max_part_size);
    }
}

/// An edit that starts at a byte of the object is planned as exactly one
/// upload, which carries the payload and covers the bytes from the edit's
/// offset up to the edit's end.
pub proof fn plan_has_one_upload(
    total_length: int,
    max_part_size: int,
    offset: int,
    payload: Seq<u8>,
)
    requires
        0 < max_part_size,
        0 <= offset < total_length,
        0 < payload.len(),
        offset + payload.len() <= total_length,
    ensures
        uploads(plan_of(total_length, max_part_size, offset, payload)) == seq![
            SegmentView::Upload { start: offset, bytes: payload },
        ],
        uploads(plan_of(total_length, max_part_size, offset, payload))[0].start() == offset,
        uploads(plan_of(total_length, max_part_size, offset, payload))[0].end() == offset
            + payload.len(),
        uploads(plan_of(total_length, max_part_size, offset, payload)).len() == 1,
{
    let end = offset + payload.len();
    let before = copy_run(0, offset, max_part_size);
    let upload = seq![SegmentView::Upload { start: offset, bytes: payload }];
    let after = copy_run(end, total_length, max_part_size);
    let is_upload = |segment: SegmentView| segment is Upload;
    copy_run_has_no_upload(0, offset, max_part_size);
    copy_run_has_no_upload(end, total_length, max_part_size);
    Seq::filter_distributes_over_add(before, upload, is_upload);
    Seq::filter_distributes_over_add(before + upload, after, is_upload);
    assert(upload.filter(is_upload) =~= upload) by {
        reveal(Seq::filter);
        assert(upload.drop_last() =~= Seq::empty());
        assert(upload.drop_last().filter(is_upload) =~= Seq::empty());
    }
    assert(uploads(plan_of(total_length, max_part_size, offset, payload)) =~= upload);
}

/// No planned copy is longer than `max_part_size`.
pub proof fn plan_copies_are_bounded(
    total_length: int,
    max_part_size: int,
    offset: int,
    payload: Seq<u8>,
)
    requires
        0 < max_part_size,
        offset + payload.len() <= total_length,
    ensures
        copies_bounded(plan_of(total_length, max_part_size, offset, payload), max_part_size),
{
    let plan = plan_of(total_length, max_part_size, offset, payload);
    if 0 <= offset < total_length {
        let end = offset + payload.len();
        let before = copy_run(0, offset, max_part_size);
        let after = copy_run(end, total_length, max_part_size);
        copy_run_tiles(0, offset, max_part_size);
        copy_run_tiles(end, total_length, max_part_size);
        assert forall|i: int|
            0 <= i < plan.len() && (#[trigger] plan[i]) is Copy implies plan[i].len()
            <= max_part_size by {
            if i < before.len() {
                assert(plan[i] == before[i]);
            } else if i > before.len() {
                assert(plan[i] == after[i - before.len() - 1]);
            }
        }
    } else if 0 <= total_length {
        copy_run_tiles(0, total_length, max_part_size);
    }
}

/// No planned copy holds a byte of the edit's window, and the window starts
/// where a part begins or ends.
pub proof fn plan_is_aligned(
    total_length: int,
    max_part_size: int,
    offset: int,
    payload: Seq<u8>,
)
    requires
        0 < max_part_size,
        0 <= offset,
        offset + payload.len() <= total_length,
        offset < total_length ==> payload.len() > 0,
    ensures
        copies_avoid(
            plan_of(total_length, max_part_size, offset, payload),
            offset,
            offset + payload.len(),
        ),
        is_boundary(plan_of(total_length, max_part_size, offset, payload), 0, offset),
{
    let plan = plan_of(total_length, max_part_size, offset, payload);
    if offset < total_length {
        let end = offset + payload.len();
        let before = copy_run(0, offset, max_part_size);
        let after = copy_run(end, total_length, max_part_size);
        copy_run_tiles(0, offset, max_part_size);
        copy_run_tiles(end, total_length, max_part_size);
        assert forall|i: int|
            0 <= i < plan.len() && (#[trigger] plan[i]) is Copy implies (plan[i].end() <= offset
            || end <= plan[i].start()) by {
            if i < before.len() {
                assert(plan[i] == before[i]);
            } else if i > before.len() {
                assert(plan[i] == after[i - before.len() - 1]);
            }
        }
        if offset > 0 {
            let last = before.len() - 1;
            assert(plan[last] == before.last());
            assert(plan[last].end() == offset);
        }
    } else {
        copy_run_tiles(0, total_length, max_part_size);
        if offset > 0 {
            let last = plan.len() - 1;
            assert(plan[last].end() == offset);
        }
    }
}

/// Every planned segment is well formed, provided that the object's length
/// is one that a signed 64-bit integer holds.
pub proof fn plan_is_well_formed(
    total_length: int,
    max_part_size: int,
    offset: int,
    payload: Seq<u8>,
)
    requires
        total_length <= i64::MAX,
        0 < max_part_size,
        offset + payload.len() <= total_length,
    ensures
        forall|i: int|
            0 <= i < plan_of(total_length, max_part_size, offset, payload).len() ==> (
            #[trigger] plan_of(total_length, max_part_size, offset, payload)[i]).well_formed(),
{
    let plan = plan_of(total_length, max_part_size, offset, payload);
    if 0 <= offset < total_length {
        let end = offset + payload.len();
        let before = copy_run(0, offset, max_part_size);
        let after = copy_run(end, total_length, max_part_size);
        copy_run_tiles(0, offset, max_part_size);
        copy_run_tiles(end, total_length, max_part_size);
        assert forall|i: int| 0 <= i < plan.len() implies (#[trigger] plan[i]).well_formed() by {
            if i < before.len() {
                assert(plan[i] == before[i]);
            } else if i > before.len() {
                assert(plan[i] == after[i - before.len() - 1]);
            }
        }
    } else if 0 <= total_length {
        copy_run_tiles(0, total_length, max_part_size);
    }
}

} // verus!
