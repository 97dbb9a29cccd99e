use vstd::prelude::*;

verus! {

/// One part of the rewritten object, covering a range of its bytes.
#[derive(Debug, PartialEq, Eq)]
pub enum Segment {
    /// Bytes `[source_start, source_end)` of the existing object, kept where
    /// they are.
    Copy { source_start: i64, source_end: i64 },
    /// The replacement bytes, written from `start` on.
    Upload { start: i64, bytes: Vec<u8> },
}

/// What a segment stands for: a range of the rewritten object and where its
/// bytes come from.
pub enum SegmentView {
    Copy { start: int, end: int },
    Upload { start: int, bytes: Seq<u8> },
}

impl SegmentView {
    /// The position of the first byte the segment covers.
    pub open spec fn start(self) -> int {
        match self {
            SegmentView::Copy { start, .. } => start,
            SegmentView::Upload { start, .. } => start,
        }
    }

    /// One past the position of the last byte the segment covers.
    pub open spec fn end(self) -> int {
        match self {
            SegmentView::Copy { end, .. } => end,
            SegmentView::Upload { start, bytes } => start + bytes.len(),
        }
    }

    /// The number of bytes the segment covers.
    pub open spec fn len(self) -> int {
        self.end() - self.start()
    }

    /// A copy has a first and a last byte, both at positions that a signed
    /// 64-bit integer holds; an upload starts at such a position.
    pub open spec fn well_formed(self) -> bool {
        match self {
            SegmentView::Copy { start, end } => 0 <= start < end <= i64::MAX,
            SegmentView::Upload { start, .. } => 0 <= start <= i64::MAX,
        }
    }
}

impl View for Segment {
    type V = SegmentView;

    open spec fn view(&self) -> SegmentView {
        match self {
            Segment::Copy { source_start, source_end } => SegmentView::Copy {
                start: *source_start as int,
                end: *source_end as int,
            },
            Segment::Upload { start, bytes } => SegmentView::Upload {
                start: *start as int,
                bytes: bytes@,
            },
        }
    }
}

/// The views of a list of segments, in order.
pub open spec fn views(segments: Seq<Segment>) -> Seq<SegmentView> {
    Seq::new(segments.len(), |i: int| segments[i]@)
}

} // verus!
