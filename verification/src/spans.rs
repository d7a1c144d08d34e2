//! What the segments of a file say of its lines.
//!
//! Segments are a state machine: the count of a segment holds from its line
//! through the line of the next segment, and that of the last segment on its
//! own line only. From these spans follow the lines that are fully uncovered
//! and the regions that show on lines covered in part.

use vstd::prelude::*;

use crate::analysis::CoverageGap;
use crate::model::Segment;
use crate::ranges::{
    collapses, lemma_collapse_is_unique, lemma_line_ranges_fold, line_ranges, ranges_hold,
};

verus! {

/// The line on which the span of segment `at` ends: the line of the next
/// segment, or its own line if it is the last.
pub open spec fn span_end_line(segments: Seq<Segment>, at: int) -> u64 {
    if at + 1 < segments.len() {
        segments[at + 1].line
    } else {
        segments[at].line
    }
}

/// The column at which the span of segment `at` ends: the column of the next
/// segment, or its own column if it is the last.
pub open spec fn span_end_col(segments: Seq<Segment>, at: int) -> u64 {
    if at + 1 < segments.len() {
        segments[at + 1].col
    } else {
        segments[at].col
    }
}

/// Whether segment `at` has a meaningful count and its span reaches `line`.
pub open spec fn spans(segments: Seq<Segment>, at: int, line: u64) -> bool {
    &&& 0 <= at < segments.len()
    &&& segments[at].has_count
    &&& segments[at].line <= line <= span_end_line(segments, at)
}

/// Whether one of the first `count` segments spans `line`.
pub open spec fn spanned_within(segments: Seq<Segment>, count: int, line: u64) -> bool {
    exists|at: int| at < count && #[trigger] spans(segments, at, line)
}

/// Whether one of the first `count` segments spans `line` with a count
/// above zero.
pub open spec fn touched_within(segments: Seq<Segment>, count: int, line: u64) -> bool {
    exists|at: int| at < count && #[trigger] spans(segments, at, line) && segments[at].count > 0
}

/// Whether some segment spans `line`.
pub open spec fn spanned(segments: Seq<Segment>, line: u64) -> bool {
    spanned_within(segments, segments.len() as int, line)
}

/// Whether some segment spans `line` with a count above zero.
pub open spec fn touched(segments: Seq<Segment>, line: u64) -> bool {
    touched_within(segments, segments.len() as int, line)
}

/// Whether `line` is fully uncovered: some segment spans it, and the largest
/// count of the segments that do is zero.
pub open spec fn fully_uncovered(segments: Seq<Segment>, line: u64) -> bool {
    spanned(segments, line) && !touched(segments, line)
}

/// The fully uncovered lines of a file.
pub open spec fn uncovered_lines(segments: Seq<Segment>) -> Set<u64> {
    Set::new(|line: u64| fully_uncovered(segments, line))
}

/// Whether segment `at` enters a region that was never run.
pub open spec fn enters_zero_region(segments: Seq<Segment>, at: int) -> bool {
    segments[at].has_count && segments[at].is_region_entry && segments[at].count == 0
}

/// The span of segment `at` as a region gap.
pub open spec fn region_of(segments: Seq<Segment>, at: int) -> CoverageGap {
    CoverageGap::UncoveredRegion {
        line_start: segments[at].line,
        col_start: segments[at].col,
        line_end: span_end_line(segments, at),
        col_end: span_end_col(segments, at),
    }
}

/// The spans of those of the first `count` segments that enter a region that
/// was never run, in the segments' order.
pub open spec fn zero_regions(segments: Seq<Segment>, count: int) -> Seq<CoverageGap>
    decreases count,
{
    if count <= 0 {
        Seq::empty()
    } else if enters_zero_region(segments, count - 1) {
        zero_regions(segments, count - 1).push(region_of(segments, count - 1))
    } else {
        zero_regions(segments, count - 1)
    }
}

/// The first line of a region gap (of no use on the other gaps).
pub open spec fn region_line(gap: CoverageGap) -> u64 {
    match gap {
        CoverageGap::UncoveredRegion { line_start, .. } => line_start,
        _ => 0,
    }
}

/// Whether a region that was never run is reported: its first line is not
/// fully uncovered, which would report it already, and some other code on
/// that line was run.
pub open spec fn region_shows(segments: Seq<Segment>, gap: CoverageGap) -> bool {
    !fully_uncovered(segments, region_line(gap)) && touched(segments, region_line(gap))
}

/// The sub-line region gaps of a file, in the segments' order.
pub open spec fn region_gaps(segments: Seq<Segment>) -> Seq<CoverageGap> {
    zero_regions(segments, segments.len() as int).filter(
        |gap: CoverageGap| region_shows(segments, gap),
    )
}

/// Whether `line` counts as spanned once the first `done` segments are
/// recorded and, of segment `done`, the lines before `next`.
pub open spec fn marked(segments: Seq<Segment>, done: int, next: int, line: u64) -> bool {
    spanned_within(segments, done, line) || (spans(segments, done, line) && line < next)
}

/// Whether `line` counts as touched once the first `done` segments are
/// recorded and, of segment `done`, the lines before `next`.
pub open spec fn lit(segments: Seq<Segment>, done: int, next: int, line: u64) -> bool {
    touched_within(segments, done, line) || (spans(segments, done, line) && segments[done].count
        > 0 && line < next)
}

/// Whether the per-line counts and the set of touched lines are those of the
/// first `done` segments and, of segment `done`, of the lines before `next`.
pub open spec fn records(
    counts: Map<u64, u64>,
    hit: Set<u64>,
    segments: Seq<Segment>,
    done: int,
    next: int,
) -> bool {
    forall|line: u64|
        #![trigger counts.contains_key(line)]
        #![trigger hit.contains(line)]
        #![trigger marked(segments, done, next, line)]
        #![trigger lit(segments, done, next, line)]
        {
            &&& counts.contains_key(line) <==> marked(segments, done, next, line)
            &&& counts.contains_key(line) ==> (counts[line] > 0 <==> lit(
                segments,
                done,
                next,
                line,
            ))
            &&& hit.contains(line) <==> lit(segments, done, next, line)
        }
}

/// A line is spanned by one of the first `count + 1` segments exactly if it
/// is spanned by one of the first `count` or by the next; the same holds of
/// spans with a count above zero.
pub proof fn lemma_one_more_segment(segments: Seq<Segment>, count: int, line: u64)
    ensures
        spanned_within(segments, count + 1, line) <==> spanned_within(segments, count, line)
            || spans(segments, count, line),
        touched_within(segments, count + 1, line) <==> touched_within(segments, count, line) || (
        spans(segments, count, line) && segments[count].count > 0),
{
    if spanned_within(segments, count + 1, line) {
        let at = choose|at: int| at < count + 1 && #[trigger] spans(segments, at, line);
        if at < count {
            assert(spanned_within(segments, count, line));
        }
    }
    if spanned_within(segments, count, line) {
        let at = choose|at: int| at < count && #[trigger] spans(segments, at, line);
        assert(at < count + 1 && spans(segments, at, line));
    }
    if touched_within(segments, count + 1, line) {
        let at = choose|at: int|
            at < count + 1 && #[trigger] spans(segments, at, line) && segments[at].count > 0;
        if at < count {
            assert(touched_within(segments, count, line));
        }
    }
    if touched_within(segments, count, line) {
        let at = choose|at: int|
            at < count && #[trigger] spans(segments, at, line) && segments[at].count > 0;
        assert(at < count + 1 && spans(segments, at, line) && segments[at].count > 0);
    }
    if spans(segments, count, line) {
        assert(count < count + 1 && spans(segments, count, line));
    }
}

/// Each of the spans recorded for regions that were never run is a region.
proof fn lemma_zero_regions_are_regions(segments: Seq<Segment>, count: int, at: int)
    requires
        0 <= at < zero_regions(segments, count).len(),
    ensures
        zero_regions(segments, count)[at] is UncoveredRegion,
    decreases count,
{
    if count > 0 {
        if at < zero_regions(segments, count - 1).len() {
            lemma_zero_regions_are_regions(segments, count - 1, at);
        }
    }
}

/// No line is reported twice: each region gap of a file is a region whose
/// first line none of the file's line ranges holds.
pub proof fn lemma_region_line_in_no_range(segments: Seq<Segment>, at: int)
    requires
        0 <= at < region_gaps(segments).len(),
    ensures
        region_gaps(segments)[at] is UncoveredRegion,
        !ranges_hold(
            line_ranges(uncovered_lines(segments)),
            region_line(region_gaps(segments)[at]),
        ),
{
    let recorded = zero_regions(segments, segments.len() as int);
    let shows = |gap: CoverageGap| region_shows(segments, gap);
    let gap = region_gaps(segments)[at];
    recorded.lemma_filter_pred(shows, at);
    assert(region_shows(segments, gap));
    assert(recorded.filter(shows).contains(gap));
    recorded.lemma_filter_contains_rev(shows, gap);
    let from = choose|from: int| 0 <= from < recorded.len() && recorded[from] == gap;
    lemma_zero_regions_are_regions(segments, segments.len() as int, from);
    lemma_line_ranges_fold(uncovered_lines(segments));
    assert(!uncovered_lines(segments).contains(region_line(gap)));
}

/// A file without segments has no line-range gap and no region gap.
pub proof fn lemma_no_segments_no_gaps(segments: Seq<Segment>)
    requires
        segments.len() == 0,
    ensures
        line_ranges(uncovered_lines(segments)) == Seq::<CoverageGap>::empty(),
        region_gaps(segments) == Seq::<CoverageGap>::empty(),
{
    let none = Seq::<CoverageGap>::empty();
    assert(collapses(uncovered_lines(segments), none));
    lemma_collapse_is_unique(
        uncovered_lines(segments),
        none,
        line_ranges(uncovered_lines(segments)),
    );
    reveal_with_fuel(Seq::filter, 1);
}

} // verus!
