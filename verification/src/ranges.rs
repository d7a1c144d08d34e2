//! Ranges of lines, and the folding of a set of lines into ranges.
//!
//! A set of lines folds into ranges in exactly one way: `line_ranges` names
//! the result, `lemma_line_ranges_fold` shows that every set has one, and
//! `lemma_collapse_is_unique` that it has no other.

use vstd::prelude::*;

use crate::analysis::CoverageGap;

verus! {

/// Whether `gap` is a range of lines, first line to last, with at least one
/// line in it.
pub open spec fn is_range(gap: CoverageGap) -> bool {
    gap matches CoverageGap::UncoveredLines { start_line, end_line } && start_line <= end_line
}

/// The first line of a range (of no use on the other gaps).
pub open spec fn range_start(gap: CoverageGap) -> u64 {
    match gap {
        CoverageGap::UncoveredLines { start_line, .. } => start_line,
        _ => 0,
    }
}

/// The last line of a range (of no use on the other gaps).
pub open spec fn range_end(gap: CoverageGap) -> u64 {
    match gap {
        CoverageGap::UncoveredLines { end_line, .. } => end_line,
        _ => 0,
    }
}

/// One range of lines.
pub open spec fn range_of(start_line: u64, end_line: u64) -> CoverageGap {
    CoverageGap::UncoveredLines { start_line, end_line }
}

/// Whether `gap` is a range of lines that contains `line`.
pub open spec fn range_holds(gap: CoverageGap, line: u64) -> bool {
    is_range(gap) && range_start(gap) <= line <= range_end(gap)
}

/// Whether some range among `gaps` contains `line`.
pub open spec fn ranges_hold(gaps: Seq<CoverageGap>, line: u64) -> bool {
    exists|i: int| 0 <= i < gaps.len() && range_holds(#[trigger] gaps[i], line)
}

/// Whether `gaps` is `lines` folded into ranges: every gap is a range of
/// lines, the ranges ascend with at least one absent line between any two of
/// them, and a line is in some range exactly if it is in `lines`.
pub open spec fn collapses(lines: Set<u64>, gaps: Seq<CoverageGap>) -> bool {
    &&& forall|i: int| 0 <= i < gaps.len() ==> is_range(#[trigger] gaps[i])
    &&& forall|i: int, j: int|
        0 <= i < j < gaps.len() ==> range_end(#[trigger] gaps[i]) + 1 < range_start(
            #[trigger] gaps[j],
        )
    &&& forall|line: u64| lines.contains(line) <==> ranges_hold(gaps, line)
}

/// The ranges that a set of lines folds into.
pub open spec fn line_ranges(lines: Set<u64>) -> Seq<CoverageGap> {
    choose|gaps: Seq<CoverageGap>| collapses(lines, gaps)
}

/// With one more range, the lines held are those held before and those of
/// the new range.
pub proof fn lemma_one_more_range(gaps: Seq<CoverageGap>, last: CoverageGap, line: u64)
    ensures
        ranges_hold(gaps.push(last), line) <==> ranges_hold(gaps, line) || range_holds(last, line),
{
    let more = gaps.push(last);
    if ranges_hold(more, line) {
        let i = choose|i: int| 0 <= i < more.len() && range_holds(#[trigger] more[i], line);
        if i < gaps.len() {
            assert(range_holds(gaps[i], line));
        }
    }
    if ranges_hold(gaps, line) {
        let i = choose|i: int| 0 <= i < gaps.len() && range_holds(#[trigger] gaps[i], line);
        assert(range_holds(more[i], line));
    }
    if range_holds(last, line) {
        assert(range_holds(more[gaps.len() as int], line));
    }
}

/// In the setting of `lemma_next_range_agrees`, the next range of `b` starts
/// where the next range of `a` does, or before.
proof fn lemma_next_range_starts_no_later(
    lines: Set<u64>,
    a: Seq<CoverageGap>,
    b: Seq<CoverageGap>,
    at: int,
)
    requires
        collapses(lines, a),
        collapses(lines, b),
        0 <= at < a.len(),
        at < b.len(),
        forall|k: int| 0 <= k < at ==> a[k] == b[k],
    ensures
        range_start(b[at]) <= range_start(a[at]),
{
    let first = range_start(a[at]);
    assert(range_holds(a[at], first));
    assert(ranges_hold(a, first));
    assert(lines.contains(first));
    assert(ranges_hold(b, first));
    let j = choose|j: int| 0 <= j < b.len() && range_holds(#[trigger] b[j], first);
    if j < at {
        assert(a[j] == b[j]);
        assert(range_end(a[j]) + 1 < range_start(a[at]));
    } else if j > at {
        assert(range_end(b[at]) + 1 < range_start(b[j]));
    }
}

/// In the setting of `lemma_next_range_agrees`, once both next ranges start
/// on one line, that of `b` ends where that of `a` does, or after.
proof fn lemma_next_range_ends_no_earlier(
    lines: Set<u64>,
    a: Seq<CoverageGap>,
    b: Seq<CoverageGap>,
    at: int,
)
    requires
        collapses(lines, a),
        collapses(lines, b),
        0 <= at < a.len(),
        at < b.len(),
        forall|k: int| 0 <= k < at ==> a[k] == b[k],
        range_start(a[at]) == range_start(b[at]),
    ensures
        range_end(a[at]) <= range_end(b[at]),
{
    if range_end(b[at]) < range_end(a[at]) {
        let beyond: u64 = (range_end(b[at]) + 1) as u64;
        assert(range_holds(a[at], beyond));
        assert(ranges_hold(a, beyond));
        assert(lines.contains(beyond));
        assert(ranges_hold(b, beyond));
        let j = choose|j: int| 0 <= j < b.len() && range_holds(#[trigger] b[j], beyond);
        if j < at {
            assert(a[j] == b[j]);
            assert(range_end(a[j]) + 1 < range_start(a[at]));
        } else if j > at {
            assert(range_end(b[at]) + 1 < range_start(b[j]));
        }
    }
}

/// Two foldings of one set that agree on their first `at` ranges agree on
/// the next one too.
proof fn lemma_next_range_agrees(
    lines: Set<u64>,
    a: Seq<CoverageGap>,
    b: Seq<CoverageGap>,
    at: int,
)
    requires
        collapses(lines, a),
        collapses(lines, b),
        0 <= at < a.len(),
        at < b.len(),
        forall|k: int| 0 <= k < at ==> a[k] == b[k],
    ensures
        a[at] == b[at],
{
    lemma_next_range_starts_no_later(lines, a, b, at);
    lemma_next_range_starts_no_later(lines, b, a, at);
    lemma_next_range_ends_no_earlier(lines, a, b, at);
    lemma_next_range_ends_no_earlier(lines, b, a, at);
}

/// Two foldings of one set agree on their first `count` ranges.
proof fn lemma_first_ranges_agree(
    lines: Set<u64>,
    a: Seq<CoverageGap>,
    b: Seq<CoverageGap>,
    count: int,
)
    requires
        collapses(lines, a),
        collapses(lines, b),
        0 <= count <= a.len(),
        count <= b.len(),
    ensures
        forall|k: int| 0 <= k < count ==> a[k] == b[k],
    decreases count,
{
    if count > 0 {
        lemma_first_ranges_agree(lines, a, b, count - 1);
        lemma_next_range_agrees(lines, a, b, count - 1);
    }
}

/// Of two foldings of one set, the first has no more ranges than the second.
proof fn lemma_no_more_ranges(lines: Set<u64>, a: Seq<CoverageGap>, b: Seq<CoverageGap>)
    requires
        collapses(lines, a),
        collapses(lines, b),
    ensures
        a.len() <= b.len(),
{
    if a.len() > b.len() {
        let at = b.len() as int;
        lemma_first_ranges_agree(lines, a, b, at);
        let first = range_start(a[at]);
        assert(range_holds(a[at], first));
        assert(ranges_hold(a, first));
        assert(ranges_hold(b, first));
        let j = choose|j: int| 0 <= j < b.len() && range_holds(#[trigger] b[j], first);
        assert(a[j] == b[j]);
        assert(range_end(a[j]) + 1 < range_start(a[at]));
    }
}

/// A set of lines folds into ranges in one way only.
pub proof fn lemma_collapse_is_unique(lines: Set<u64>, a: Seq<CoverageGap>, b: Seq<CoverageGap>)
    requires
        collapses(lines, a),
        collapses(lines, b),
    ensures
        a == b,
{
    lemma_no_more_ranges(lines, a, b);
    lemma_no_more_ranges(lines, b, a);
    lemma_first_ranges_agree(lines, a, b, a.len() as int);
    assert(a =~= b);
}

/// The lines of a set that lie below `bound`.
pub open spec fn lines_below(lines: Set<u64>, bound: nat) -> Set<u64> {
    Set::new(|line: u64| lines.contains(line) && line < bound)
}

/// The ranges that the lines below `bound` of a set fold into, built line by
/// line: a line of the set lengthens the last range if it follows it, and
/// opens a range of its own if not.
pub open spec fn ranges_below(lines: Set<u64>, bound: nat) -> Seq<CoverageGap>
    decreases bound,
{
    if bound == 0 {
        Seq::empty()
    } else {
        let before = ranges_below(lines, (bound - 1) as nat);
        let line = (bound - 1) as u64;
        if !lines.contains(line) {
            before
        } else if before.len() > 0 && range_end(before.last()) + 1 == line {
            before.drop_last().push(range_of(range_start(before.last()), line))
        } else {
            before.push(range_of(line, line))
        }
    }
}

/// `ranges_below` folds the lines below the bound, and none of its ranges
/// reaches the bound.
proof fn lemma_ranges_below_fold(lines: Set<u64>, bound: nat)
    requires
        bound <= u64::MAX + 1,
    ensures
        collapses(lines_below(lines, bound), ranges_below(lines, bound)),
        forall|i: int|
            0 <= i < ranges_below(lines, bound).len() ==> range_end(
                #[trigger] ranges_below(lines, bound)[i],
            ) < bound,
    decreases bound,
{
    if bound > 0 {
        let before = ranges_below(lines, (bound - 1) as nat);
        let after = ranges_below(lines, bound);
        let line = (bound - 1) as u64;
        lemma_ranges_below_fold(lines, (bound - 1) as nat);
        assert forall|l: u64| lines_below(lines, bound).contains(l) <==> ranges_hold(after, l) by {
            assert(lines_below(lines, (bound - 1) as nat).contains(l) <==> ranges_hold(before, l));
            if !lines.contains(line) {
            } else if before.len() > 0 && range_end(before.last()) + 1 == line {
                let longer = range_of(range_start(before.last()), line);
                lemma_one_more_range(before.drop_last(), before.last(), l);
                assert(before.drop_last().push(before.last()) == before);
                lemma_one_more_range(before.drop_last(), longer, l);
            } else {
                lemma_one_more_range(before, range_of(line, line), l);
            }
        }
        if lines.contains(line) && !(before.len() > 0 && range_end(before.last()) + 1 == line) {
            assert forall|i: int, j: int| 0 <= i < j < after.len() implies range_end(
                #[trigger] after[i],
            ) + 1 < range_start(#[trigger] after[j]) by {
                if j == before.len() && before.len() > 0 {
                    if i < before.len() - 1 {
                        assert(range_end(before[i]) + 1 < range_start(before.last()));
                    }
                }
            }
        }
    }
}

/// Every set of lines folds into ranges: `line_ranges` is a folding of any
/// set, the empty one included, which folds into no range.
pub proof fn lemma_line_ranges_fold(lines: Set<u64>)
    ensures
        collapses(lines, line_ranges(lines)),
        lines =~= Set::<u64>::empty() ==> line_ranges(lines).len() == 0,
{
    let bound = (u64::MAX + 1) as nat;
    lemma_ranges_below_fold(lines, bound);
    assert(lines_below(lines, bound) =~= lines);
    assert(collapses(lines, ranges_below(lines, bound)));
    let folded = line_ranges(lines);
    if lines =~= Set::<u64>::empty() && folded.len() > 0 {
        assert(range_holds(folded[0], range_start(folded[0])));
        assert(ranges_hold(folded, range_start(folded[0])));
    }
}

} // verus!
